//! The history of login events, host by host.

use crate::address::Host;
use crate::event::Event;
use std::collections::HashMap;
use vstd::prelude::*;

verus! {

broadcast use vstd::std_specs::hash::group_hash_axioms;

/// The events recorded for `host` in `history`, oldest first; none for a
/// host that the history does not know.
pub open spec fn events_in(history: Map<Host, Seq<Event>>, host: Host) -> Seq<Event> {
    if history.contains_key(host) {
        history[host]
    } else {
        Seq::empty()
    }
}

/// The history after `event` is recorded: an event that reports a login is
/// added after the events of its host, any other event changes nothing.
pub open spec fn recorded(history: Map<Host, Seq<Event>>, event: Event) -> Map<Host, Seq<Event>> {
    match event.spec_host() {
        Some(host) => history.insert(host, events_in(history, host).push(event)),
        None => history,
    }
}

/// The history after `events` are recorded one after the other.
pub open spec fn recorded_all(history: Map<Host, Seq<Event>>, events: Seq<Event>) -> Map<
    Host,
    Seq<Event>,
>
    decreases events.len(),
{
    if events.len() == 0 {
        history
    } else {
        recorded(recorded_all(history, events.drop_last()), events.last())
    }
}

/// Those of `events` that concern `host`, in the same order.
pub open spec fn events_about(events: Seq<Event>, host: Host) -> Seq<Event> {
    events.filter(|e: Event| e.spec_host() == Some(host))
}

/// Whether every event in `history` is kept under the host of its own login.
pub open spec fn keyed_by_own_host(history: Map<Host, Seq<Event>>) -> bool {
    forall|host: Host, i: int|
        history.contains_key(host) && 0 <= i < history[host].len() ==> (
        #[trigger] history[host][i]).spec_host() == Some(host)
}

/// For each host, the events that report a login from it, in the order in
/// which they were recorded.
pub struct History {
    v4: HashMap<u32, Vec<Event>>,
    v6: HashMap<u128, Vec<Event>>,
}

impl View for History {
    type V = Map<Host, Seq<Event>>;

    closed spec fn view(&self) -> Map<Host, Seq<Event>> {
        Map::new(
            |host: Host|
                match host {
                    Host::V4(a) => self.v4@.contains_key(a),
                    Host::V6(a) => self.v6@.contains_key(a),
                },
            |host: Host|
                match host {
                    Host::V4(a) => self.v4@[a]@,
                    Host::V6(a) => self.v6@[a]@,
                },
        )
    }
}

impl History {
    /// Every event is kept under the host of its own login, and a host that
    /// is known has at least one event.
    #[verifier::type_invariant]
    spec fn buckets_hold_own_host(self) -> bool {
        &&& forall|a: u32| #[trigger]
            self.v4@.contains_key(a) ==> self.v4@[a]@.len() > 0 && forall|i: int|
                0 <= i < self.v4@[a]@.len() ==> (#[trigger] self.v4@[a]@[i]).spec_host() == Some(
                    Host::V4(a),
                )
        &&& forall|a: u128| #[trigger]
            self.v6@.contains_key(a) ==> self.v6@[a]@.len() > 0 && forall|i: int|
                0 <= i < self.v6@[a]@.len() ==> (#[trigger] self.v6@[a]@[i]).spec_host() == Some(
                    Host::V6(a),
                )
    }

    /// The events recorded for `host`, oldest first.
    pub open spec fn events_of(self, host: Host) -> Seq<Event> {
        events_in(self@, host)
    }

    /// A history without events.
    pub fn new() -> (history: History)
        ensures
            history@ == Map::<Host, Seq<Event>>::empty(),
            keyed_by_own_host(history@),
    {
        let history = History { v4: HashMap::new(), v6: HashMap::new() };
        assert(history@ =~= Map::<Host, Seq<Event>>::empty());
        history
    }

    /// Records `event`: if it reports a login, it is added after the events
    /// of the login's host; if not, nothing changes.
    pub fn record(&mut self, event: Event)
        ensures
            final(self)@ == recorded(old(self)@, event),
            keyed_by_own_host(final(self)@),
    {
        proof {
            use_type_invariant(&*self);
            lemma_recording_keeps_events_under_own_host(self@, event);
        }
        match event.host() {
            None => {},
            Some(Host::V4(a)) => {
                let ghost before = self.v4@;
                let mut buckets = HashMap::new();
                core::mem::swap(&mut self.v4, &mut buckets);
                let mut bucket: Vec<Event> = match buckets.remove(&a) {
                    Some(found) => found,
                    None => Vec::new(),
                };
                bucket.push(event);
                buckets.insert(a, bucket);
                assert(buckets@ == before.insert(a, bucket));
                self.v4 = buckets;
                assert(self@ =~= recorded(old(self)@, event));
            },
            Some(Host::V6(a)) => {
                let ghost before = self.v6@;
                let mut buckets = HashMap::new();
                core::mem::swap(&mut self.v6, &mut buckets);
                let mut bucket: Vec<Event> = match buckets.remove(&a) {
                    Some(found) => found,
                    None => Vec::new(),
                };
                bucket.push(event);
                buckets.insert(a, bucket);
                assert(buckets@ == before.insert(a, bucket));
                self.v6 = buckets;
                assert(self@ =~= recorded(old(self)@, event));
            },
        }
    }

    /// The events recorded for `host`, oldest first; none if no event of
    /// that host was recorded.
    pub fn events_for(&self, host: Host) -> (events: &[Event])
        ensures
            events@ == self.events_of(host),
            forall|i: int| 0 <= i < events@.len() ==> (#[trigger] events@[i]).spec_host() == Some(host),
    {
        proof {
            use_type_invariant(self);
        }
        let found = match host {
            Host::V4(a) => self.v4.get(&a),
            Host::V6(a) => self.v6.get(&a),
        };
        match found {
            Some(bucket) => bucket.as_slice(),
            None => &[],
        }
    }
}

/// In a history that keeps every event under the host of its own login,
/// recording an event keeps it so.
pub proof fn lemma_recording_keeps_events_under_own_host(
    history: Map<Host, Seq<Event>>,
    event: Event,
)
    requires
        keyed_by_own_host(history),
    ensures
        keyed_by_own_host(recorded(history, event)),
{
    let after = recorded(history, event);
    assert forall|host: Host, i: int|
        after.contains_key(host) && 0 <= i < after[host].len() implies (
    #[trigger] after[host][i]).spec_host() == Some(host) by {
        if event.spec_host() == Some(host) && i < events_in(history, host).len() {
            assert(after[host][i] == history[host][i]);
        } else if event.spec_host() != Some(host) {
            assert(after[host][i] == history[host][i]);
        }
    }
}

/// Recording events adds, for every host, the events that concern it after
/// those that were there, in the order in which they were recorded: none is
/// lost, none is added twice, none changes place.
pub proof fn lemma_recording_appends_in_order(
    history: Map<Host, Seq<Event>>,
    events: Seq<Event>,
    host: Host,
)
    ensures
        events_in(recorded_all(history, events), host) == events_in(history, host) + events_about(
            events,
            host,
        ),
    decreases events.len(),
{
    reveal(Seq::filter);
    if events.len() == 0 {
        assert(events_in(history, host) + events_about(events, host) == events_in(history, host));
    } else {
        let earlier = events.drop_last();
        let last = events.last();
        lemma_recording_appends_in_order(history, earlier, host);
        if last.spec_host() == Some(host) {
            assert(events_about(events, host) == events_about(earlier, host).push(last));
            assert(events_in(history, host) + events_about(earlier, host).push(last) == (events_in(
                history,
                host,
            ) + events_about(earlier, host)).push(last));
        } else {
            assert(events_about(events, host) == events_about(earlier, host));
        }
    }
}

/// Where every event concerns `host`, those that concern it are all of them.
proof fn lemma_all_about(events: Seq<Event>, host: Host)
    requires
        forall|i: int| 0 <= i < events.len() ==> (#[trigger] events[i]).spec_host() == Some(host),
    ensures
        events_about(events, host) == events,
    decreases events.len(),
{
    reveal(Seq::filter);
    if events.len() > 0 {
        lemma_all_about(events.drop_last(), host);
        assert(events.drop_last().push(events.last()) == events);
    }
}

/// Events that all report a login from one host, recorded in a row, are
/// found under that host after the events that were there, exactly as they
/// were recorded.
pub proof fn lemma_events_of_one_host_are_kept(
    history: Map<Host, Seq<Event>>,
    events: Seq<Event>,
    host: Host,
)
    requires
        forall|i: int| 0 <= i < events.len() ==> (#[trigger] events[i]).spec_host() == Some(host),
    ensures
        events_in(recorded_all(history, events), host) == events_in(history, host) + events,
        events_in(recorded_all(Map::empty(), events), host) == events,
{
    lemma_all_about(events, host);
    lemma_recording_appends_in_order(history, events, host);
    lemma_recording_appends_in_order(Map::empty(), events, host);
    assert(Seq::<Event>::empty() + events == events);
}

/// Recording an event that reports no login changes no host's events.
pub proof fn lemma_event_without_login_is_not_recorded(
    history: Map<Host, Seq<Event>>,
    event: Event,
    host: Host,
)
    requires
        event.spec_host() is None,
    ensures
        recorded(history, event) == history,
        events_in(recorded(history, event), host) == events_in(history, host),
{
}

/// Recording is not idempotent: an event that reports a login and is
/// recorded twice is found twice under its host.
pub proof fn lemma_recording_twice_appends_twice(
    history: Map<Host, Seq<Event>>,
    event: Event,
    host: Host,
)
    requires
        event.spec_host() == Some(host),
    ensures
        events_in(recorded(recorded(history, event), event), host) == events_in(
            history,
            host,
        ).push(event).push(event),
        recorded(recorded(history, event), event) != recorded(history, event),
{
    let once = recorded(history, event);
    let twice = recorded(once, event);
    assert(events_in(once, host).len() + 1 == events_in(twice, host).len());
}

} // verus!
