//! The JSON-compatible value model that the field visitor stores, together
//! with the escaping rules and the exact rendering of a value as JSON text.

use vstd::prelude::*;

use crate::text::{push_char, spec_dec, spec_dec_signed, append_dec_u128, append_dec_i128};

verus! {

/// A JSON-compatible field value.
///
/// Numbers and booleans render as native JSON tokens; strings render quoted
/// and escaped. `Num` carries a numeric literal that was rendered before it
/// reached the store (the fallback for value types, such as floating-point
/// numbers, that the store does not model) and renders unquoted, as-is.
pub enum JsonValue {
    Bool(bool),
    I64(i64),
    U64(u64),
    I128(i128),
    U128(u128),
    Str(String),
    Num(String),
}

/// The mathematical content of a stored value: booleans, unbounded
/// integers, string bodies, and pre-rendered numeric literals.
pub enum JsonData {
    Bool(bool),
    Int(int),
    Str(Seq<char>),
    Num(Seq<char>),
}

impl View for JsonValue {
    type V = JsonData;

    open spec fn view(&self) -> JsonData {
        match self {
            JsonValue::Bool(b) => JsonData::Bool(*b),
            JsonValue::I64(n) => JsonData::Int(*n as int),
            JsonValue::U64(n) => JsonData::Int(*n as int),
            JsonValue::I128(n) => JsonData::Int(*n as int),
            JsonValue::U128(n) => JsonData::Int(*n as int),
            JsonValue::Str(s) => JsonData::Str(s@),
            JsonValue::Num(s) => JsonData::Num(s@),
        }
    }
}

impl JsonValue {
    /// A copy with the same content.
    pub fn duplicate(&self) -> (r: JsonValue)
        ensures
            r@ == self@,
    {
        match self {
            JsonValue::Bool(b) => JsonValue::Bool(*b),
            JsonValue::I64(n) => JsonValue::I64(*n),
            JsonValue::U64(n) => JsonValue::U64(*n),
            JsonValue::I128(n) => JsonValue::I128(*n),
            JsonValue::U128(n) => JsonValue::U128(*n),
            JsonValue::Str(s) => JsonValue::Str(s.clone()),
            JsonValue::Num(s) => JsonValue::Num(s.clone()),
        }
    }
}

/// The escape expansion of one character inside a JSON string literal.
pub open spec fn escape_char(c: char) -> Seq<char> {
    if c == '"' {
        seq!['\\', '"']
    } else if c == '\\' {
        seq!['\\', '\\']
    } else if c == '\n' {
        seq!['\\', 'n']
    } else if c == '\r' {
        seq!['\\', 'r']
    } else if c == '\t' {
        seq!['\\', 't']
    } else if (c as u32) < 32 {
        seq!['\\', 'u', '0', '0', hex_digit_char((c as u32) as int / 16), hex_digit_char(
            (c as u32) as int % 16,
        )]
    } else {
        seq![c]
    }
}

/// The lower-case hexadecimal digit for a value below sixteen.
pub open spec fn hex_digit_char(d: int) -> char
    recommends
        0 <= d < 16,
{
    if d < 10 {
        crate::text::digit_char(d)
    } else if d == 10 {
        'a'
    } else if d == 11 {
        'b'
    } else if d == 12 {
        'c'
    } else if d == 13 {
        'd'
    } else if d == 14 {
        'e'
    } else {
        'f'
    }
}

fn hex_digit_of(d: u32) -> (c: char)
    requires
        d < 16,
    ensures
        c == hex_digit_char(d as int),
{
    if d == 0 {
        '0'
    } else if d == 1 {
        '1'
    } else if d == 2 {
        '2'
    } else if d == 3 {
        '3'
    } else if d == 4 {
        '4'
    } else if d == 5 {
        '5'
    } else if d == 6 {
        '6'
    } else if d == 7 {
        '7'
    } else if d == 8 {
        '8'
    } else if d == 9 {
        '9'
    } else if d == 10 {
        'a'
    } else if d == 11 {
        'b'
    } else if d == 12 {
        'c'
    } else if d == 13 {
        'd'
    } else if d == 14 {
        'e'
    } else {
        'f'
    }
}

/// The escaped form of a whole string body (without the surrounding quotes).
pub open spec fn spec_escaped(s: Seq<char>) -> Seq<char>
    decreases s.len(),
{
    if s.len() == 0 {
        Seq::empty()
    } else {
        spec_escaped(s.drop_last()) + escape_char(s.last())
    }
}

/// A quoted, escaped JSON string literal for the body `s`.
pub open spec fn spec_quoted(s: Seq<char>) -> Seq<char> {
    seq!['"'] + spec_escaped(s) + seq!['"']
}

/// The JSON rendering of one value.
pub open spec fn spec_json_value(v: JsonData) -> Seq<char> {
    match v {
        JsonData::Bool(b) => if b {
            "true"@
        } else {
            "false"@
        },
        JsonData::Int(n) => spec_dec_signed(n),
        JsonData::Str(s) => spec_quoted(s),
        JsonData::Num(s) => s,
    }
}

/// Appends the escaped body of `s` to `out`.
pub fn append_escaped(out: &mut String, s: &str)
    ensures
        final(out)@ == old(out)@ + spec_escaped(s@),
{
    let ghost base = old(out)@;
    let n = s.unicode_len();
    let mut i: usize = 0;
    while i < n
        invariant
            i <= n,
            n == s@.len(),
            out@ == base + spec_escaped(s@.take(i as int)),
        decreases n - i,
    {
        let c = s.get_char(i);
        if c == '"' {
            out.append("\\\"");
        } else if c == '\\' {
            out.append("\\\\");
        } else if c == '\n' {
            out.append("\\n");
        } else if c == '\r' {
            out.append("\\r");
        } else if c == '\t' {
            out.append("\\t");
        } else {
            let code = c as u32;
            if code < 32 {
                out.append("\\u00");
                push_char(out, hex_digit_of(code / 16));
                push_char(out, hex_digit_of(code % 16));
            } else {
                push_char(out, c);
            }
        }
        proof {
            reveal_strlit("\\\"");
            reveal_strlit("\\\\");
            reveal_strlit("\\n");
            reveal_strlit("\\r");
            reveal_strlit("\\t");
            reveal_strlit("\\u00");
            assert(s@.take(i + 1).drop_last() =~= s@.take(i as int));
            assert(s@.take(i + 1).last() == s@[i as int]);
            assert(out@ =~= base + spec_escaped(s@.take(i + 1)));
        }
        i += 1;
    }
    proof {
        assert(s@.take(n as int) =~= s@);
    }
}

/// Appends a quoted, escaped JSON string literal for `s` to `out`.
pub fn append_quoted(out: &mut String, s: &str)
    ensures
        final(out)@ == old(out)@ + spec_quoted(s@),
{
    push_char(out, '"');
    append_escaped(out, s);
    push_char(out, '"');
    proof {
        assert(out@ =~= old(out)@ + spec_quoted(s@));
    }
}

/// Appends the JSON rendering of `v` to `out`.
pub fn append_json_value(out: &mut String, v: &JsonValue)
    ensures
        final(out)@ == old(out)@ + spec_json_value(v@),
{
    match v {
        JsonValue::Bool(b) => {
            if *b {
                out.append("true");
            } else {
                out.append("false");
            }
        },
        JsonValue::I64(n) => {
            append_dec_i128(out, *n as i128);
        },
        JsonValue::U64(n) => {
            append_dec_u128(out, *n as u128);
        },
        JsonValue::I128(n) => {
            append_dec_i128(out, *n);
        },
        JsonValue::U128(n) => {
            append_dec_u128(out, *n);
        },
        JsonValue::Str(s) => {
            append_quoted(out, s.as_str());
        },
        JsonValue::Num(s) => {
            out.append(s.as_str());
        },
    }
}

} // verus!
