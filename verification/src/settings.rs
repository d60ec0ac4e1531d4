//! Configuration types shared by the backend and frontend surfaces: the
//! runtime environment selector and the common service locations.

use vstd::prelude::*;

verus! {

/// One character folded to lower case, for ASCII letters.
pub open spec fn lower_char(c: char) -> char {
    if 65 <= (c as u32) < 91 {
        (((c as u32) + 32) as char)
    } else {
        c
    }
}

/// A string folded to lower case, for ASCII letters.
pub open spec fn ascii_lower(s: Seq<char>) -> Seq<char> {
    s.map_values(|c: char| lower_char(c))
}

/// Whether `s` names the production environment, compared with ASCII
/// letter case ignored.
#[verifier::loop_isolation(false)]
fn is_production_name(s: &str) -> (r: bool)
    ensures
        r == (ascii_lower(s@) == "production"@),
{
    proof {
        reveal_strlit("production");
    }
    let expected = "production";
    let n = s.unicode_len();
    if n != 10 {
        proof {
            assert(ascii_lower(s@).len() != "production"@.len());
        }
        return false;
    }
    let mut i: usize = 0;
    while i < 10
        invariant
            i <= 10,
            s@.len() == 10,
            forall|j: int| 0 <= j < i ==> ascii_lower(s@)[j] == "production"@[j],
        decreases 10 - i,
    {
        let c = s.get_char(i);
        let e = expected.get_char(i);
        let cu = c as u32;
        let eu = e as u32;
        let matches_here = c == e || (65 <= cu && cu < 91 && cu + 32 == eu);
        if !matches_here {
            proof {
                assert(ascii_lower(s@)[i as int] != "production"@[i as int]);
            }
            return false;
        }
        i += 1;
    }
    proof {
        assert(ascii_lower(s@) =~= "production"@);
    }
    true
}

/// The runtime environment a deployment runs in.
#[derive(Clone, Copy, Debug, PartialEq, Eq, Structural)]
pub enum RunEnvironmentType {
    Development,
    Production,
}

impl RunEnvironmentType {
    /// The environment's textual form.
    pub open spec fn spec_value(self) -> Seq<char> {
        match self {
            RunEnvironmentType::Development => "development"@,
            RunEnvironmentType::Production => "production"@,
        }
    }

    /// The environment a configuration string denotes: "production" in
    /// any ASCII letter case selects production, anything else selects
    /// development.
    pub open spec fn spec_from_text(s: Seq<char>) -> RunEnvironmentType {
        if ascii_lower(s) == "production"@ {
            RunEnvironmentType::Production
        } else {
            RunEnvironmentType::Development
        }
    }

    /// The environment's textual form.
    pub fn value(&self) -> (r: &'static str)
        ensures
            r@ == self.spec_value(),
    {
        match self {
            RunEnvironmentType::Development => "development",
            RunEnvironmentType::Production => "production",
        }
    }
}

impl<'a> From<&'a str> for RunEnvironmentType {
    fn from(env: &'a str) -> (r: Self) {
        if is_production_name(env) {
            RunEnvironmentType::Production
        } else {
            RunEnvironmentType::Development
        }
    }
}

impl<'a> vstd::std_specs::convert::FromSpecImpl<&'a str> for RunEnvironmentType {
    open spec fn obeys_from_spec() -> bool {
        true
    }

    open spec fn from_spec(env: &'a str) -> Self {
        RunEnvironmentType::spec_from_text(env@)
    }
}

/// The service locations every deployment shares.
pub struct CommonConfigs {
    pub frontend_url: String,
    pub backend_url: String,
}

impl CommonConfigs {
    /// The frontend's base URL.
    pub fn frontend_url(&self) -> (r: &String)
        ensures
            r@ == self.frontend_url@,
    {
        &self.frontend_url
    }

    /// The backend's base URL.
    pub fn backend_url(&self) -> (r: &String)
        ensures
            r@ == self.backend_url@,
    {
        &self.backend_url
    }
}

} // verus!
