//! The field visitor's store: an ordered mapping of field name to
//! JSON-compatible value, with unique keys and last-write-wins updates.

use vstd::prelude::*;

use crate::assoc::{
    assoc_map,
    distinct_keys,
    lemma_assoc_map_update,
    lemma_assoc_map_present,
    lemma_assoc_map_index,
    lemma_assoc_map_absent,
};
use crate::json::{
    JsonValue,
    JsonData,
    spec_quoted,
    spec_json_value,
    append_quoted,
    append_json_value,
};
use crate::text::{str_eq, push_char};

verus! {

/// The JSON rendering of one object member: a quoted key, a colon, and the
/// value.
pub open spec fn spec_member_json(e: (Seq<char>, JsonData)) -> Seq<char> {
    spec_quoted(e.0) + seq![':'] + spec_json_value(e.1)
}

/// The comma-separated JSON members for a sequence of entries.
pub open spec fn spec_members_json(s: Seq<(Seq<char>, JsonData)>) -> Seq<char>
    decreases s.len(),
{
    if s.len() == 0 {
        Seq::empty()
    } else if s.len() == 1 {
        spec_member_json(s[0])
    } else {
        spec_members_json(s.drop_last()) + seq![','] + spec_member_json(s.last())
    }
}

/// The JSON object for a sequence of entries, in storage order.
pub open spec fn spec_object_json(s: Seq<(Seq<char>, JsonData)>) -> Seq<char> {
    seq!['{'] + spec_members_json(s) + seq!['}']
}

/// An ordered mapping of field name to JSON value.
///
/// Keys are unique; writing to an existing key overwrites its value in
/// place, so the entry order is the order of first writes.
pub struct FieldMap {
    entries: Vec<(String, JsonValue)>,
}

impl FieldMap {
    /// The entries in storage order, with names as character sequences.
    pub closed spec fn entries_view(self) -> Seq<(Seq<char>, JsonData)> {
        self.entries@.map_values(|p: (String, JsonValue)| (p.0@, p.1@))
    }

    /// The mapping the entries denote.
    pub open spec fn as_map(self) -> Map<Seq<char>, JsonData> {
        Self::seq_to_map(self.entries_view())
    }

    /// The mapping a sequence of entries denotes (later entries win).
    pub open spec fn seq_to_map(s: Seq<(Seq<char>, JsonData)>) -> Map<Seq<char>, JsonData> {
        assoc_map(s)
    }

    /// Key uniqueness: no field name occurs in two entries.
    pub open spec fn wf(self) -> bool {
        distinct_keys(self.entries_view())
    }

    /// An empty field mapping.
    pub fn new() -> (r: FieldMap)
        ensures
            r.wf(),
            r.entries_view() == Seq::<(Seq<char>, JsonData)>::empty(),
            r.as_map() == Map::<Seq<char>, JsonData>::empty(),
    {
        let r = FieldMap { entries: Vec::new() };
        proof {
            assert(r.entries_view() =~= Seq::<(Seq<char>, JsonData)>::empty());
        }
        r
    }

    /// How many fields are stored.
    pub fn len(&self) -> (n: usize)
        ensures
            n == self.entries_view().len(),
    {
        self.entries.len()
    }

    /// Stores `value` under `key`: overwrites in place when the key is
    /// already present, else appends a new entry.
    #[verifier::loop_isolation(false)]
    pub fn record(&mut self, key: &str, value: JsonValue)
        requires
            old(self).wf(),
        ensures
            final(self).wf(),
            final(self).as_map() == old(self).as_map().insert(key@, value@),
            old(self).as_map().dom().contains(key@) ==> exists|j: int|
                0 <= j < old(self).entries_view().len() && old(self).entries_view()[j].0 == key@
                    && final(self).entries_view() == old(self).entries_view().update(
                    j,
                    (key@, value@),
                ),
            !old(self).as_map().dom().contains(key@) ==> final(self).entries_view() == old(
                self,
            ).entries_view().push((key@, value@)),
    {
        let ghost pre = self.entries_view();
        let n = self.entries.len();
        let mut i: usize = 0;
        while i < n
            invariant
                i <= n,
                n == self.entries@.len(),
                *self == *old(self),
                forall|j: int| 0 <= j < i ==> self.entries_view()[j].0 != key@,
            decreases n - i,
        {
            if str_eq(self.entries[i].0.as_str(), key) {
                let ghost idx = i as int;
                self.entries[i] = (key.to_owned(), value);
                proof {
                    assert(self.entries_view() =~= pre.update(idx, (key@, value@)));
                    lemma_assoc_map_update(pre, idx, value@);
                    lemma_assoc_map_present(pre, idx);
                    assert(forall|a: int, b: int|
                        0 <= a < b < self.entries_view().len() ==> self.entries_view()[a].0
                            != self.entries_view()[b].0);
                }
                return ;
            }
            i += 1;
        }
        self.entries.push((key.to_owned(), value));
        proof {
            assert(self.entries_view() =~= pre.push((key@, value@)));
            assert(self.entries_view().drop_last() =~= pre);
            lemma_assoc_map_absent(pre, key@);
        }
    }

    /// Records a boolean field.
    pub fn record_bool(&mut self, key: &str, value: bool)
        requires
            old(self).wf(),
        ensures
            final(self).wf(),
            final(self).as_map() == old(self).as_map().insert(key@, JsonData::Bool(value)),
    {
        self.record(key, JsonValue::Bool(value));
    }

    /// Records a signed 64-bit integer field.
    pub fn record_i64(&mut self, key: &str, value: i64)
        requires
            old(self).wf(),
        ensures
            final(self).wf(),
            final(self).as_map() == old(self).as_map().insert(key@, JsonData::Int(value as int)),
    {
        self.record(key, JsonValue::I64(value));
    }

    /// Records an unsigned 64-bit integer field.
    pub fn record_u64(&mut self, key: &str, value: u64)
        requires
            old(self).wf(),
        ensures
            final(self).wf(),
            final(self).as_map() == old(self).as_map().insert(key@, JsonData::Int(value as int)),
    {
        self.record(key, JsonValue::U64(value));
    }

    /// Records a signed 128-bit integer field.
    pub fn record_i128(&mut self, key: &str, value: i128)
        requires
            old(self).wf(),
        ensures
            final(self).wf(),
            final(self).as_map() == old(self).as_map().insert(key@, JsonData::Int(value as int)),
    {
        self.record(key, JsonValue::I128(value));
    }

    /// Records an unsigned 128-bit integer field.
    pub fn record_u128(&mut self, key: &str, value: u128)
        requires
            old(self).wf(),
        ensures
            final(self).wf(),
            final(self).as_map() == old(self).as_map().insert(key@, JsonData::Int(value as int)),
    {
        self.record(key, JsonValue::U128(value));
    }

    /// Records a string field.
    pub fn record_str(&mut self, key: &str, value: &str)
        requires
            old(self).wf(),
        ensures
            final(self).wf(),
            final(self).as_map() == old(self).as_map().insert(key@, JsonData::Str(value@)),
    {
        self.record(key, JsonValue::Str(value.to_owned()));
    }

    /// Records an error field: the error's display text, stored as a string.
    pub fn record_error(&mut self, key: &str, display_text: &str)
        requires
            old(self).wf(),
        ensures
            final(self).wf(),
            final(self).as_map() == old(self).as_map().insert(key@, JsonData::Str(display_text@)),
    {
        self.record(key, JsonValue::Str(display_text.to_owned()));
    }

    /// Records a field of any other type: its debug rendering, stored as a
    /// string.
    pub fn record_debug(&mut self, key: &str, debug_text: &str)
        requires
            old(self).wf(),
        ensures
            final(self).wf(),
            final(self).as_map() == old(self).as_map().insert(key@, JsonData::Str(debug_text@)),
    {
        self.record(key, JsonValue::Str(debug_text.to_owned()));
    }

    /// Records a numeric literal rendered elsewhere (the floating-point
    /// fallback).
    pub fn record_num_text(&mut self, key: &str, number_text: &str)
        requires
            old(self).wf(),
        ensures
            final(self).wf(),
            final(self).as_map() == old(self).as_map().insert(key@, JsonData::Num(number_text@)),
    {
        self.record(key, JsonValue::Num(number_text.to_owned()));
    }

    /// Merges every entry of `other` into `self`, later writes winning.
    #[verifier::loop_isolation(false)]
    pub fn merge_from(&mut self, other: &FieldMap)
        requires
            old(self).wf(),
        ensures
            final(self).wf(),
            final(self).as_map() == old(self).as_map().union_prefer_right(other.as_map()),
    {
        let n = other.entries.len();
        proof {
            assert(other.entries_view().take(0) =~= Seq::<(Seq<char>, JsonData)>::empty());
            assert(old(self).as_map().union_prefer_right(
                FieldMap::seq_to_map(other.entries_view().take(0)),
            ) =~= old(self).as_map());
        }
        let mut i: usize = 0;
        while i < n
            invariant
                i <= n,
                n == other.entries@.len(),
                self.wf(),
                self.as_map() == old(self).as_map().union_prefer_right(
                    FieldMap::seq_to_map(other.entries_view().take(i as int)),
                ),
            decreases n - i,
        {
            let key_string = other.entries[i].0.clone();
            let value = other.entries[i].1.duplicate();
            self.record(key_string.as_str(), value);
            proof {
                let prefix = other.entries_view().take(i as int);
                let longer = other.entries_view().take(i + 1);
                assert(longer.drop_last() =~= prefix);
                assert(longer.last() == other.entries_view()[i as int]);
                assert(FieldMap::seq_to_map(longer) == FieldMap::seq_to_map(prefix).insert(
                    other.entries_view()[i as int].0,
                    other.entries_view()[i as int].1,
                ));
                vstd::map_lib::lemma_union_insert_right(
                    old(self).as_map(),
                    FieldMap::seq_to_map(prefix),
                    other.entries_view()[i as int].0,
                    other.entries_view()[i as int].1,
                );
            }
            i += 1;
        }
        proof {
            assert(other.entries_view().take(n as int) =~= other.entries_view());
        }
    }

    /// The stored value for `key`, if any.
    #[verifier::loop_isolation(false)]
    pub fn get(&self, key: &str) -> (r: Option<&JsonValue>)
        requires
            self.wf(),
        ensures
            match r {
                Some(v) => self.as_map().dom().contains(key@) && v@ == self.as_map()[key@],
                None => !self.as_map().dom().contains(key@),
            },
    {
        let n = self.entries.len();
        let mut i: usize = 0;
        while i < n
            invariant
                i <= n,
                n == self.entries@.len(),
                forall|j: int| 0 <= j < i ==> self.entries_view()[j].0 != key@,
            decreases n - i,
        {
            if str_eq(self.entries[i].0.as_str(), key) {
                proof {
                    lemma_assoc_map_present(self.entries_view(), i as int);
                    lemma_assoc_map_index(self.entries_view(), i as int);
                }
                return Some(&self.entries[i].1);
            }
            i += 1;
        }
        proof {
            lemma_assoc_map_absent(self.entries_view(), key@);
        }
        None
    }

    /// Appends the JSON object rendering of the mapping to `out`.
    #[verifier::loop_isolation(false)]
    pub fn append_json(&self, out: &mut String)
        ensures
            final(out)@ == old(out)@ + spec_object_json(self.entries_view()),
    {
        push_char(out, '{');
        let n = self.entries.len();
        proof {
            assert(self.entries_view().take(0) =~= Seq::<(Seq<char>, JsonData)>::empty());
            assert(out@ =~= old(out)@ + seq!['{'] + spec_members_json(self.entries_view().take(0)));
        }
        let mut i: usize = 0;
        while i < n
            invariant
                i <= n,
                n == self.entries@.len(),
                out@ == old(out)@ + seq!['{'] + spec_members_json(
                    self.entries_view().take(i as int),
                ),
            decreases n - i,
        {
            if i > 0 {
                push_char(out, ',');
            }
            append_quoted(out, self.entries[i].0.as_str());
            push_char(out, ':');
            append_json_value(out, &self.entries[i].1);
            proof {
                let view = self.entries_view();
                assert(view.take(i + 1).drop_last() =~= view.take(i as int));
                assert(view.take(i + 1).last() == view[i as int]);
                assert(out@ =~= old(out)@ + seq!['{'] + spec_members_json(view.take(i + 1)));
            }
            i += 1;
        }
        push_char(out, '}');
        proof {
            assert(self.entries_view().take(n as int) =~= self.entries_view());
            assert(out@ =~= old(out)@ + spec_object_json(self.entries_view()));
        }
    }

    /// A copy with the same entries.
    #[verifier::loop_isolation(false)]
    pub fn duplicate(&self) -> (r: FieldMap)
        ensures
            r.entries_view() == self.entries_view(),
            r.as_map() == self.as_map(),
    {
        let n = self.entries.len();
        let mut entries: Vec<(String, JsonValue)> = Vec::new();
        proof {
            assert(entries@.map_values(|p: (String, JsonValue)| (p.0@, p.1@)) =~= self.entries_view(
            ).take(0));
        }
        let mut i: usize = 0;
        while i < n
            invariant
                i <= n,
                n == self.entries@.len(),
                entries@.map_values(|p: (String, JsonValue)| (p.0@, p.1@)) == self.entries_view().take(
                    i as int,
                ),
            decreases n - i,
        {
            let key_string = self.entries[i].0.clone();
            let value = self.entries[i].1.duplicate();
            entries.push((key_string, value));
            proof {
                assert(entries@.map_values(|p: (String, JsonValue)| (p.0@, p.1@))
                    =~= self.entries_view().take(i + 1));
            }
            i += 1;
        }
        let r = FieldMap { entries };
        proof {
            assert(self.entries_view().take(n as int) =~= self.entries_view());
        }
        r
    }
}

/// The mapping after a sequence of merge rounds, later rounds winning,
/// as `record` and `merge_from` perform them.
pub open spec fn merge_all(
    base: Map<Seq<char>, JsonData>,
    updates: Seq<Map<Seq<char>, JsonData>>,
) -> Map<Seq<char>, JsonData>
    decreases updates.len(),
{
    if updates.len() == 0 {
        base
    } else {
        merge_all(base, updates.drop_last()).union_prefer_right(updates.last())
    }
}

/// The index of the last round that writes `key`; negative when none
/// does.
pub open spec fn last_writer(updates: Seq<Map<Seq<char>, JsonData>>, key: Seq<char>) -> int
    decreases updates.len(),
{
    if updates.len() == 0 {
        -1
    } else if updates.last().dom().contains(key) {
        updates.len() - 1
    } else {
        last_writer(updates.drop_last(), key)
    }
}

/// Last-write-wins: after any sequence of merge rounds, a key holds the
/// value given by the last round that wrote it; a key no round wrote
/// keeps its base binding.
pub proof fn lemma_last_write_wins(
    base: Map<Seq<char>, JsonData>,
    updates: Seq<Map<Seq<char>, JsonData>>,
    key: Seq<char>,
)
    ensures
        (exists|i: int| 0 <= i < updates.len() && (#[trigger] updates[i]).dom().contains(key))
            ==> {
            let w = last_writer(updates, key);
            &&& 0 <= w < updates.len()
            &&& updates[w].dom().contains(key)
            &&& forall|j: int| w < j < updates.len() ==> !(#[trigger] updates[j]).dom().contains(key)
            &&& merge_all(base, updates).dom().contains(key)
            &&& merge_all(base, updates)[key] == updates[w][key]
        },
        (forall|i: int| 0 <= i < updates.len() ==> !(#[trigger] updates[i]).dom().contains(key))
            ==> merge_all(base, updates).dom().contains(key) == base.dom().contains(key) && (
        base.dom().contains(key) ==> merge_all(base, updates)[key] == base[key]),
    decreases updates.len(),
{
    if updates.len() > 0 {
        let prev = updates.drop_last();
        lemma_last_write_wins(base, prev, key);
        if updates.last().dom().contains(key) {
            assert(updates[updates.len() - 1].dom().contains(key));
        } else {
            if exists|i: int|
                0 <= i < updates.len() && (#[trigger] updates[i]).dom().contains(key) {
                let i = choose|i: int|
                    0 <= i < updates.len() && (#[trigger] updates[i]).dom().contains(key);
                assert(prev[i] == updates[i]);
                assert(exists|i: int|
                    0 <= i < prev.len() && (#[trigger] prev[i]).dom().contains(key));
                let w = last_writer(prev, key);
                assert(updates[w] == prev[w]);
                assert forall|j: int|
                    w < j < updates.len() - 1 implies !(#[trigger] updates[j]).dom().contains(
                    key,
                ) by {
                    assert(updates[j] == prev[j]);
                    assert(!prev[j].dom().contains(key));
                }
            } else {
                assert(forall|i: int|
                    0 <= i < prev.len() ==> !(#[trigger] prev[i]).dom().contains(key));
            }
        }
    }
}

} // verus!
