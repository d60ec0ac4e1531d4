//! The connection broadcast service's bookkeeping: each streaming
//! connection steps through Connecting, Connected and Closed, the
//! live-connections gauge is incremented on upgrade and decremented
//! exactly once on close, and inbound messages are passed through.

use vstd::prelude::*;

use crate::assoc::assoc_map;
use crate::metrics::{Registry, ValueData, metric_with_series};

verus! {

/// The gauge that counts currently connected clients.
pub open spec fn gauge_name() -> Seq<char> {
    "connected_clients"@
}

/// The lifecycle state of one streaming connection.
#[derive(Clone, Copy, Debug, PartialEq, Eq, Structural)]
pub enum ConnectionState {
    Connecting,
    Connected,
    Closed,
}

/// One streaming connection, identified by the path segment it was
/// opened with.
pub struct Connection {
    id: String,
    state: ConnectionState,
}

impl Connection {
    /// The connection's identifier.
    pub closed spec fn id_view(self) -> Seq<char> {
        self.id@
    }

    /// The connection's lifecycle state.
    pub closed spec fn state(self) -> ConnectionState {
        self.state
    }

    /// The connection's identifier, for logging.
    pub fn id(&self) -> (r: &str)
        ensures
            r@ == self.id_view(),
    {
        self.id.as_str()
    }

    /// A connection that has not been upgraded yet.
    pub fn new(id: String) -> (r: Connection)
        ensures
            r.id_view() == id@,
            r.state() is Connecting,
    {
        Connection { id, state: ConnectionState::Connecting }
    }

    /// On upgrade to a streaming connection: increments the
    /// live-connections gauge and transitions to Connected.
    pub fn on_upgrade(&mut self, registry: &mut Registry)
        requires
            old(self).state() is Connecting,
            old(registry).wf(),
            old(registry).metrics().dom().contains(gauge_name()),
            old(registry).metrics()[gauge_name()].kind is Gauge,
            old(registry).metrics()[gauge_name()].label_names.len() == 0,
            old(registry).gauge_value(gauge_name(), Seq::empty()) < i64::MAX,
        ensures
            final(self).state() is Connected,
            final(self).id_view() == old(self).id_view(),
            final(registry).wf(),
            final(registry).metrics().dom() == old(registry).metrics().dom(),
            forall|other: Seq<char>|
                old(registry).metrics().dom().contains(other) && other != gauge_name()
                    ==> final(registry).metrics()[other] == old(registry).metrics()[other],
            final(registry).metrics()[gauge_name()] == metric_with_series(
                old(registry).metrics()[gauge_name()],
                final(registry).metrics()[gauge_name()].series,
            ),
            assoc_map(final(registry).metrics()[gauge_name()].series) == assoc_map(
                old(registry).metrics()[gauge_name()].series,
            ).insert(
                Seq::empty(),
                ValueData::Gauge(
                    (old(registry).gauge_value(gauge_name(), Seq::empty()) + 1) as i64,
                ),
            ),
            final(registry).gauge_value(gauge_name(), Seq::empty()) == old(registry).gauge_value(
                gauge_name(),
                Seq::empty(),
            ) + 1,
    {
        let labels: Vec<String> = Vec::new();
        proof {
            assert(crate::metrics::labels_view(labels@) =~= Seq::<Seq<char>>::empty());
        }
        registry.inc_gauge("connected_clients", &labels, 1);
        self.state = ConnectionState::Connected;
    }

    /// One inbound read while Connected: a successful read is passed
    /// through and reading continues; an error or stream termination
    /// stops the loop, after which the connection is closed.
    pub fn on_message(&mut self, message_ok: bool) -> (keep_reading: bool)
        requires
            old(self).state() is Connected,
        ensures
            *final(self) == *old(self),
            keep_reading == message_ok,
    {
        message_ok
    }

    /// On close: decrements the live-connections gauge exactly once and
    /// transitions to Closed. The state machine admits no second close,
    /// so every upgrade is matched by exactly one decrement.
    pub fn on_close(&mut self, registry: &mut Registry)
        requires
            old(self).state() is Connected,
            old(registry).wf(),
            old(registry).metrics().dom().contains(gauge_name()),
            old(registry).metrics()[gauge_name()].kind is Gauge,
            old(registry).metrics()[gauge_name()].label_names.len() == 0,
            old(registry).gauge_value(gauge_name(), Seq::empty()) > i64::MIN,
        ensures
            final(self).state() is Closed,
            final(self).id_view() == old(self).id_view(),
            final(registry).wf(),
            final(registry).metrics().dom() == old(registry).metrics().dom(),
            forall|other: Seq<char>|
                old(registry).metrics().dom().contains(other) && other != gauge_name()
                    ==> final(registry).metrics()[other] == old(registry).metrics()[other],
            final(registry).metrics()[gauge_name()] == metric_with_series(
                old(registry).metrics()[gauge_name()],
                final(registry).metrics()[gauge_name()].series,
            ),
            assoc_map(final(registry).metrics()[gauge_name()].series) == assoc_map(
                old(registry).metrics()[gauge_name()].series,
            ).insert(
                Seq::empty(),
                ValueData::Gauge(
                    (old(registry).gauge_value(gauge_name(), Seq::empty()) - 1) as i64,
                ),
            ),
            final(registry).gauge_value(gauge_name(), Seq::empty()) == old(registry).gauge_value(
                gauge_name(),
                Seq::empty(),
            ) - 1,
    {
        let labels: Vec<String> = Vec::new();
        proof {
            assert(crate::metrics::labels_view(labels@) =~= Seq::<Seq<char>>::empty());
        }
        registry.dec_gauge("connected_clients", &labels, 1);
        self.state = ConnectionState::Closed;
    }
}

/// One gauge-relevant connection event.
pub enum ConnEvent {
    Upgrade,
    Close,
}

/// The number of upgrades in an event sequence.
pub open spec fn upgrades(events: Seq<ConnEvent>) -> int
    decreases events.len(),
{
    if events.len() == 0 {
        0
    } else {
        upgrades(events.drop_last()) + if events.last() is Upgrade {
            1int
        } else {
            0int
        }
    }
}

/// The number of closes in an event sequence.
pub open spec fn closes(events: Seq<ConnEvent>) -> int
    decreases events.len(),
{
    if events.len() == 0 {
        0
    } else {
        closes(events.drop_last()) + if events.last() is Close {
            1int
        } else {
            0int
        }
    }
}

/// The gauge after an event sequence, starting from `g0`: each upgrade
/// adds one, each close subtracts one, as `on_upgrade` and `on_close`
/// ensure.
pub open spec fn gauge_after(g0: int, events: Seq<ConnEvent>) -> int
    decreases events.len(),
{
    if events.len() == 0 {
        g0
    } else {
        gauge_after(g0, events.drop_last()) + if events.last() is Upgrade {
            1int
        } else {
            -1int
        }
    }
}

/// The gauge after an event sequence is the start plus the upgrades
/// minus the closes.
pub proof fn lemma_gauge_counts(g0: int, events: Seq<ConnEvent>)
    ensures
        gauge_after(g0, events) == g0 + upgrades(events) - closes(events),
    decreases events.len(),
{
    if events.len() > 0 {
        lemma_gauge_counts(g0, events.drop_last());
    }
}

/// The connection gauge invariant: in any sequence of upgrades and
/// closes in which no prefix closes more connections than it upgraded,
/// the gauge never drops below its starting value — so a non-negative
/// start never goes negative — and a balanced sequence returns the gauge
/// exactly to its starting value.
pub proof fn lemma_connection_gauge(g0: int, events: Seq<ConnEvent>)
    requires
        forall|i: int|
            0 <= i <= events.len() ==> closes(#[trigger] events.take(i)) <= upgrades(
                events.take(i),
            ),
    ensures
        forall|i: int| 0 <= i <= events.len() ==> gauge_after(g0, #[trigger] events.take(i)) >= g0,
        upgrades(events) == closes(events) ==> gauge_after(g0, events) == g0,
{
    assert forall|i: int|
        0 <= i <= events.len() implies gauge_after(g0, #[trigger] events.take(i)) >= g0 by {
        lemma_gauge_counts(g0, events.take(i));
    }
    lemma_gauge_counts(g0, events);
    assert(events.take(events.len() as int) =~= events);
}

} // verus!
