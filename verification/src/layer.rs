//! The span-aware tracing layer: per-span storage of accumulated fields
//! keyed by span id, the stack of entered spans, and the event path that
//! renders one self-contained JSON document per event, carrying the full
//! ancestor-span chain from the root span down to the nearest parent.

use vstd::prelude::*;

use crate::assoc::{
    assoc_map,
    distinct_keys,
    lemma_assoc_map_update,
    lemma_assoc_map_index,
    lemma_assoc_map_absent,
    lemma_assoc_map_absent_keys,
    lemma_assoc_map_remove,
};
use crate::fields::{FieldMap, spec_object_json};
use crate::json::{JsonData, spec_quoted, append_quoted};
use crate::text::push_char;

verus! {

/// The mathematical content of one stored span: its metadata and the
/// accumulated field entries in storage order.
pub struct SpanData {
    pub name: Seq<char>,
    pub target: Seq<char>,
    pub level: Seq<char>,
    pub fields: Seq<(Seq<char>, JsonData)>,
}

/// One stored span: name, target/module label, severity level, and the
/// field mapping accumulated over the span's lifetime.
pub struct SpanRecord {
    pub name: String,
    pub target: String,
    pub level: String,
    pub fields: FieldMap,
}

impl View for SpanRecord {
    type V = SpanData;

    open spec fn view(&self) -> SpanData {
        SpanData {
            name: self.name@,
            target: self.target@,
            level: self.level@,
            fields: self.fields.entries_view(),
        }
    }
}

/// The span context store and the stack of entered spans.
///
/// Spans are keyed by their opaque id; the store owns each span's field
/// mapping. The stack records the currently entered spans, root first.
pub struct TracingLayer {
    spans: Vec<(u64, SpanRecord)>,
    stack: Vec<u64>,
}

impl TracingLayer {
    /// The stored spans in insertion order.
    pub closed spec fn span_entries(self) -> Seq<(u64, SpanData)> {
        self.spans@.map_values(|p: (u64, SpanRecord)| (p.0, p.1@))
    }

    /// The store: span id to span content.
    pub open spec fn store(self) -> Map<u64, SpanData> {
        assoc_map(self.span_entries())
    }

    /// The ids of the currently entered spans, root first.
    pub closed spec fn scope(self) -> Seq<u64> {
        self.stack@
    }

    /// Well-formedness: span ids are unique, every entered span is stored,
    /// and every stored field mapping has unique keys.
    pub open spec fn wf(self) -> bool {
        &&& distinct_keys(self.span_entries())
        &&& forall|i: int|
            0 <= i < self.scope().len() ==> self.store().dom().contains(#[trigger] self.scope()[i])
        &&& forall|i: int|
            0 <= i < self.span_entries().len() ==> distinct_keys(
                #[trigger] self.span_entries()[i].1.fields,
            )
    }

    /// A layer with no stored spans and nothing entered.
    pub fn new() -> (r: TracingLayer)
        ensures
            r.wf(),
            r.store() == Map::<u64, SpanData>::empty(),
            r.scope() == Seq::<u64>::empty(),
    {
        let r = TracingLayer { spans: Vec::new(), stack: Vec::new() };
        proof {
            assert(r.span_entries() =~= Seq::<(u64, SpanData)>::empty());
        }
        r
    }

    /// The index of the span with id `id` in the store.
    #[verifier::loop_isolation(false)]
    fn index_of(&self, id: u64) -> (idx: usize)
        requires
            self.store().dom().contains(id),
        ensures
            idx < self.span_entries().len(),
            self.span_entries()[idx as int].0 == id,
    {
        let n = self.spans.len();
        let mut i: usize = 0;
        while i < n
            invariant
                i <= n,
                n == self.spans@.len(),
                forall|j: int| 0 <= j < i ==> self.span_entries()[j].0 != id,
            decreases n - i,
        {
            if self.spans[i].0 == id {
                return i;
            }
            i += 1;
        }
        proof {
            lemma_assoc_map_absent(self.span_entries(), id);
        }
        0
    }

    /// Whether a span with this id is stored.
    #[verifier::loop_isolation(false)]
    pub fn has_span(&self, id: u64) -> (r: bool)
        ensures
            r == self.store().dom().contains(id),
    {
        let n = self.spans.len();
        let mut i: usize = 0;
        while i < n
            invariant
                i <= n,
                n == self.spans@.len(),
                forall|j: int| 0 <= j < i ==> self.span_entries()[j].0 != id,
            decreases n - i,
        {
            if self.spans[i].0 == id {
                proof {
                    crate::assoc::lemma_assoc_map_present(self.span_entries(), i as int);
                }
                return true;
            }
            i += 1;
        }
        proof {
            lemma_assoc_map_absent(self.span_entries(), id);
        }
        false
    }

    /// How many spans are currently entered.
    pub fn depth(&self) -> (r: usize)
        ensures
            r == self.scope().len(),
    {
        self.stack.len()
    }

    /// Whether a span with this id is currently entered.
    #[verifier::loop_isolation(false)]
    pub fn is_entered(&self, id: u64) -> (r: bool)
        ensures
            r == self.scope().contains(id),
    {
        let n = self.stack.len();
        let mut i: usize = 0;
        while i < n
            invariant
                i <= n,
                n == self.stack@.len(),
                forall|j: int| 0 <= j < i ==> self.scope()[j] != id,
            decreases n - i,
        {
            if self.stack[i] == id {
                return true;
            }
            i += 1;
        }
        proof {
            assert(!self.scope().contains(id));
        }
        false
    }

    /// On span creation: allocates the span's field mapping from the
    /// creation-time attributes and associates it with the span id.
    ///
    /// A fresh id is the runtime's invariant: ids are process-unique and
    /// reused only after the span is retired from the store.
    pub fn on_new_span(
        &mut self,
        id: u64,
        name: &str,
        target: &str,
        level: &str,
        attrs: FieldMap,
    )
        requires
            old(self).wf(),
            !old(self).store().dom().contains(id),
            attrs.wf(),
        ensures
            final(self).wf(),
            final(self).store() == old(self).store().insert(
                id,
                SpanData { name: name@, target: target@, level: level@, fields: attrs.entries_view() },
            ),
            final(self).scope() == old(self).scope(),
    {
        let ghost pre = self.span_entries();
        let record = SpanRecord {
            name: name.to_owned(),
            target: target.to_owned(),
            level: level.to_owned(),
            fields: attrs,
        };
        self.spans.push((id, record));
        proof {
            let entry = (
                id,
                SpanData { name: name@, target: target@, level: level@, fields: attrs.entries_view() },
            );
            assert(self.span_entries() =~= pre.push(entry));
            assert(self.span_entries().drop_last() =~= pre);
            lemma_assoc_map_absent_keys(pre, id);
            assert forall|a: int, b: int|
                0 <= a < b < self.span_entries().len() implies self.span_entries()[a].0
                != self.span_entries()[b].0 by {
                assert(self.span_entries()[a] == pre[a]);
                if b < pre.len() {
                    assert(self.span_entries()[b] == pre[b]);
                } else {
                    assert(self.span_entries()[b] == entry);
                    assert(pre[a].0 != id);
                }
            }
            assert forall|i: int|
                0 <= i < self.span_entries().len() implies distinct_keys(
                #[trigger] self.span_entries()[i].1.fields,
            ) by {
                if i < pre.len() {
                    assert(self.span_entries()[i] == pre[i]);
                } else {
                    assert(self.span_entries()[i] == entry);
                }
            }
            assert forall|i: int|
                0 <= i < self.scope().len() implies self.store().dom().contains(
                #[trigger] self.scope()[i],
            ) by {
                assert(old(self).store().dom().contains(old(self).scope()[i]));
            }
        }
    }

    /// On a "record" call: merges the new fields into the span's stored
    /// mapping, later writes winning. The span must be stored; a miss is a
    /// runtime invariant violation, not a recoverable error.
    pub fn on_record(&mut self, id: u64, values: &FieldMap)
        requires
            old(self).wf(),
            old(self).store().dom().contains(id),
        ensures
            final(self).wf(),
            final(self).store().dom() == old(self).store().dom(),
            final(self).store()[id].name == old(self).store()[id].name,
            final(self).store()[id].target == old(self).store()[id].target,
            final(self).store()[id].level == old(self).store()[id].level,
            assoc_map(final(self).store()[id].fields) == assoc_map(
                old(self).store()[id].fields,
            ).union_prefer_right(values.as_map()),
            forall|other: u64|
                old(self).store().dom().contains(other) && other != id ==> final(self).store()[other]
                    == old(self).store()[other],
            final(self).scope() == old(self).scope(),
    {
        let ghost pre = self.span_entries();
        let idx = self.index_of(id);
        proof {
            lemma_assoc_map_index(pre, idx as int);
            assert(distinct_keys(self.span_entries()[idx as int].1.fields));
        }
        let merged = {
            let current = &self.spans[idx].1;
            let mut fields = current.fields.duplicate();
            fields.merge_from(values);
            SpanRecord {
                name: current.name.clone(),
                target: current.target.clone(),
                level: current.level.clone(),
                fields,
            }
        };
        let ghost entry = (id, merged@);
        self.spans[idx] = (id, merged);
        proof {
            assert(self.span_entries() =~= pre.update(idx as int, entry));
            lemma_assoc_map_update(pre, idx as int, entry.1);
            assert(self.store().dom() =~= old(self).store().dom());
            assert forall|a: int, b: int|
                0 <= a < b < self.span_entries().len() implies self.span_entries()[a].0
                != self.span_entries()[b].0 by {
                assert(self.span_entries()[a].0 == pre[a].0);
                assert(self.span_entries()[b].0 == pre[b].0);
            }
            assert forall|i: int|
                0 <= i < self.span_entries().len() implies distinct_keys(
                #[trigger] self.span_entries()[i].1.fields,
            ) by {
                if i == idx as int {
                    assert(self.span_entries()[i] == entry);
                } else {
                    assert(self.span_entries()[i] == pre[i]);
                }
            }
            assert forall|i: int|
                0 <= i < self.scope().len() implies self.store().dom().contains(
                #[trigger] self.scope()[i],
            ) by {
                assert(old(self).store().dom().contains(old(self).scope()[i]));
            }
        }
    }

    /// Marks the span as entered: it becomes the nearest parent of
    /// subsequent events.
    pub fn enter(&mut self, id: u64)
        requires
            old(self).wf(),
            old(self).store().dom().contains(id),
        ensures
            final(self).wf(),
            final(self).store() == old(self).store(),
            final(self).scope() == old(self).scope().push(id),
    {
        self.stack.push(id);
        proof {
            assert forall|i: int|
                0 <= i < self.scope().len() implies self.store().dom().contains(
                #[trigger] self.scope()[i],
            ) by {
                if i < old(self).scope().len() {
                    assert(self.scope()[i] == old(self).scope()[i]);
                } else {
                    assert(self.scope()[i] == id);
                }
            }
        }
    }

    /// Leaves the most recently entered span.
    pub fn exit(&mut self)
        requires
            old(self).wf(),
            old(self).scope().len() > 0,
        ensures
            final(self).wf(),
            final(self).store() == old(self).store(),
            final(self).scope() == old(self).scope().drop_last(),
    {
        let _ = self.stack.pop();
    }

    /// Retires a span: its field mapping becomes unreachable. The runtime
    /// retires only spans that are no longer entered.
    pub fn on_close(&mut self, id: u64)
        requires
            old(self).wf(),
            old(self).store().dom().contains(id),
            !old(self).scope().contains(id),
        ensures
            final(self).wf(),
            final(self).store() == old(self).store().remove(id),
            final(self).scope() == old(self).scope(),
    {
        let ghost pre = self.span_entries();
        let idx = self.index_of(id);
        let _ = self.spans.remove(idx);
        proof {
            assert(self.span_entries() =~= pre.remove(idx as int));
            lemma_assoc_map_remove(pre, idx as int);
            assert forall|i: int|
                0 <= i < self.scope().len() implies self.store().dom().contains(
                #[trigger] self.scope()[i],
            ) by {
                assert(old(self).scope()[i] != id);
            }
        }
    }

    /// On event emission: walks the entered spans from the root down to
    /// the nearest parent and renders one self-contained document carrying
    /// the event's own fields and a snapshot of each ancestor's fields.
    #[verifier::loop_isolation(false)]
    pub fn on_event(
        &self,
        target: &str,
        name: &str,
        level: &str,
        event_fields: FieldMap,
        callsite: &str,
    ) -> (doc: EventDocument)
        requires
            self.wf(),
        ensures
            doc@.spans.len() == self.scope().len(),
            forall|i: int|
                0 <= i < self.scope().len() ==> {
                    let e = #[trigger] doc@.spans[i];
                    let s = self.store()[self.scope()[i]];
                    e.target == s.target && e.name == s.name && e.level == s.level && e.fields
                        == s.fields && e.callsite == callsite@
                },
            doc@.target == target@,
            doc@.name == name@,
            doc@.level == level@,
            doc@.fields == event_fields.entries_view(),
            doc@.callsite == callsite@,
    {
        let mut spans: Vec<SpanEntry> = Vec::new();
        let n = self.stack.len();
        proof {
            assert(spans@.map_values(|e: SpanEntry| e@) =~= Seq::<SpanEntryData>::empty());
        }
        let mut i: usize = 0;
        while i < n
            invariant
                i <= n,
                n == self.scope().len(),
                spans@.len() == i,
                forall|j: int|
                    0 <= j < i ==> {
                        let e = (#[trigger] spans@[j])@;
                        let s = self.store()[self.scope()[j]];
                        e.target == s.target && e.name == s.name && e.level == s.level && e.fields
                            == s.fields && e.callsite == callsite@
                    },
            decreases n - i,
        {
            let id = self.stack[i];
            let idx = self.index_of(id);
            proof {
                lemma_assoc_map_index(self.span_entries(), idx as int);
            }
            let record = &self.spans[idx].1;
            let entry = SpanEntry {
                target: record.target.clone(),
                name: record.name.clone(),
                level: record.level.clone(),
                fields: record.fields.duplicate(),
                time: current_timestamp(),
                callsite: callsite.to_owned(),
            };
            spans.push(entry);
            i += 1;
        }
        EventDocument {
            target: target.to_owned(),
            name: name.to_owned(),
            level: level.to_owned(),
            fields: event_fields,
            spans,
            time: current_timestamp(),
            callsite: callsite.to_owned(),
        }
    }
}

/// The mathematical content of one rendered ancestry entry.
pub struct SpanEntryData {
    pub target: Seq<char>,
    pub name: Seq<char>,
    pub level: Seq<char>,
    pub fields: Seq<(Seq<char>, JsonData)>,
    pub time: Seq<char>,
    pub callsite: Seq<char>,
}

/// One entry of an event's ancestry list: the snapshot of an ancestor
/// span's metadata and fields at the moment of the event.
pub struct SpanEntry {
    pub target: String,
    pub name: String,
    pub level: String,
    pub fields: FieldMap,
    pub time: String,
    pub callsite: String,
}

impl View for SpanEntry {
    type V = SpanEntryData;

    open spec fn view(&self) -> SpanEntryData {
        SpanEntryData {
            target: self.target@,
            name: self.name@,
            level: self.level@,
            fields: self.fields.entries_view(),
            time: self.time@,
            callsite: self.callsite@,
        }
    }
}

/// The mathematical content of one event document.
pub struct EventDocumentData {
    pub target: Seq<char>,
    pub name: Seq<char>,
    pub level: Seq<char>,
    pub fields: Seq<(Seq<char>, JsonData)>,
    pub spans: Seq<SpanEntryData>,
    pub time: Seq<char>,
    pub callsite: Seq<char>,
}

/// One self-contained event document: the event's own metadata and fields
/// plus the ancestry list, root first, nearest parent last.
pub struct EventDocument {
    pub target: String,
    pub name: String,
    pub level: String,
    pub fields: FieldMap,
    pub spans: Vec<SpanEntry>,
    pub time: String,
    pub callsite: String,
}

impl View for EventDocument {
    type V = EventDocumentData;

    open spec fn view(&self) -> EventDocumentData {
        EventDocumentData {
            target: self.target@,
            name: self.name@,
            level: self.level@,
            fields: self.fields.entries_view(),
            spans: self.spans@.map_values(|e: SpanEntry| e@),
            time: self.time@,
            callsite: self.callsite@,
        }
    }
}

/// A JSON member whose value is a string: `"key":"value"`.
pub open spec fn spec_kv_str(k: Seq<char>, v: Seq<char>) -> Seq<char> {
    spec_quoted(k) + seq![':'] + spec_quoted(v)
}

/// A JSON member whose value is already rendered JSON: `"key":value`.
pub open spec fn spec_kv_raw(k: Seq<char>, v: Seq<char>) -> Seq<char> {
    spec_quoted(k) + seq![':'] + v
}

/// The JSON rendering of one ancestry entry.
pub open spec fn spec_span_json(e: SpanEntryData) -> Seq<char> {
    seq!['{'] + spec_kv_str("target"@, e.target) + seq![','] + spec_kv_str("name"@, e.name)
        + seq![','] + spec_kv_str("level"@, e.level) + seq![','] + spec_kv_raw(
        "fields"@,
        spec_object_json(e.fields),
    ) + seq![','] + spec_kv_str("time"@, e.time) + seq![','] + spec_kv_str("callsite"@, e.callsite)
        + seq!['}']
}

/// The comma-separated renderings of the ancestry entries, root first.
pub open spec fn spec_spans_array(s: Seq<SpanEntryData>) -> Seq<char>
    decreases s.len(),
{
    if s.len() == 0 {
        Seq::empty()
    } else if s.len() == 1 {
        spec_span_json(s[0])
    } else {
        spec_spans_array(s.drop_last()) + seq![','] + spec_span_json(s.last())
    }
}

/// The JSON rendering of a whole event document.
pub open spec fn spec_document_json(d: EventDocumentData) -> Seq<char> {
    seq!['{'] + spec_kv_str("target"@, d.target) + seq![','] + spec_kv_str("name"@, d.name)
        + seq![','] + spec_kv_str("level"@, d.level) + seq![','] + spec_kv_raw(
        "fields"@,
        spec_object_json(d.fields),
    ) + seq![','] + spec_kv_raw("spans"@, seq!['['] + spec_spans_array(d.spans) + seq![']'])
        + seq![','] + spec_kv_str("time"@, d.time) + seq![','] + spec_kv_str("callsite"@, d.callsite)
        + seq!['}']
}

/// Appends `"key":"value"` to `out`.
fn append_kv_str(out: &mut String, key: &str, value: &str)
    ensures
        final(out)@ == old(out)@ + spec_kv_str(key@, value@),
{
    append_quoted(out, key);
    push_char(out, ':');
    append_quoted(out, value);
    proof {
        assert(out@ =~= old(out)@ + spec_kv_str(key@, value@));
    }
}

/// Appends one rendered ancestry entry to `out`.
fn append_span_json(out: &mut String, e: &SpanEntry)
    ensures
        final(out)@ == old(out)@ + spec_span_json(e@),
{
    push_char(out, '{');
    append_kv_str(out, "target", e.target.as_str());
    push_char(out, ',');
    append_kv_str(out, "name", e.name.as_str());
    push_char(out, ',');
    append_kv_str(out, "level", e.level.as_str());
    push_char(out, ',');
    append_quoted(out, "fields");
    push_char(out, ':');
    e.fields.append_json(out);
    push_char(out, ',');
    append_kv_str(out, "time", e.time.as_str());
    push_char(out, ',');
    append_kv_str(out, "callsite", e.callsite.as_str());
    push_char(out, '}');
    proof {
        assert(out@ =~= old(out)@ + spec_span_json(e@));
    }
}

/// Renders the event document as one self-contained JSON text.
#[verifier::loop_isolation(false)]
#[verifier::rlimit(100)]
pub fn render_document(doc: &EventDocument) -> (r: String)
    ensures
        r@ == spec_document_json(doc@),
{
    let mut out = String::new();
    push_char(&mut out, '{');
    append_kv_str(&mut out, "target", doc.target.as_str());
    push_char(&mut out, ',');
    append_kv_str(&mut out, "name", doc.name.as_str());
    push_char(&mut out, ',');
    append_kv_str(&mut out, "level", doc.level.as_str());
    push_char(&mut out, ',');
    append_quoted(&mut out, "fields");
    push_char(&mut out, ':');
    doc.fields.append_json(&mut out);
    push_char(&mut out, ',');
    append_quoted(&mut out, "spans");
    push_char(&mut out, ':');
    push_char(&mut out, '[');
    let ghost head = out@;
    let n = doc.spans.len();
    proof {
        assert(doc@.spans.take(0) =~= Seq::<SpanEntryData>::empty());
        assert(out@ =~= head + spec_spans_array(doc@.spans.take(0)));
    }
    let mut i: usize = 0;
    while i < n
        invariant
            i <= n,
            n == doc.spans@.len(),
            out@ == head + spec_spans_array(doc@.spans.take(i as int)),
        decreases n - i,
    {
        if i > 0 {
            push_char(&mut out, ',');
        }
        append_span_json(&mut out, &doc.spans[i]);
        proof {
            assert(doc@.spans.take(i + 1).drop_last() =~= doc@.spans.take(i as int));
            assert(doc@.spans.take(i + 1).last() == doc@.spans[i as int]);
            assert(out@ =~= head + spec_spans_array(doc@.spans.take(i + 1)));
        }
        i += 1;
    }
    proof {
        assert(doc@.spans.take(n as int) =~= doc@.spans);
    }
    push_char(&mut out, ']');
    push_char(&mut out, ',');
    append_kv_str(&mut out, "time", doc.time.as_str());
    push_char(&mut out, ',');
    append_kv_str(&mut out, "callsite", doc.callsite.as_str());
    push_char(&mut out, '}');
    proof {
        assert(out@ =~= spec_document_json(doc@));
    }
    out
}

/// Relies on chrono's `Utc::now` and `DateTime::to_rfc3339` for the
/// event timestamp. The text depends on the wall clock, so nothing is
/// assumed of it.
#[verifier::external_body]
fn current_timestamp() -> String {
    chrono::Utc::now().to_rfc3339()
}

} // verus!
