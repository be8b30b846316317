//! The events of the ledger and the weight that they give each option.

use vstd::prelude::*;
use vstd::seq_lib::{to_multiset_build, to_multiset_contains, to_multiset_len, to_multiset_remove};

verus! {

/// One row of the ledger as it is held in memory: the option it is recorded
/// under, the change of the option's weight, and a message if there is one.
///
/// A record carries no time. The order of the records is the order in which
/// they were made; the time of day is the database's to keep.
#[derive(Debug, Clone, PartialEq, Eq)]
pub struct EventRecord {
    pub name: String,
    pub delta: i64,
    pub log: Option<String>,
}

/// The mathematical content of one ledger row.
pub struct Event {
    pub name: Seq<char>,
    pub delta: int,
    pub log: Option<Seq<char>>,
}

/// The text carried by an optional string.
pub open spec fn text_of(s: Option<String>) -> Option<Seq<char>> {
    match s {
        Some(t) => Some(t@),
        None => None,
    }
}

/// The text carried by an optional string slice.
pub open spec fn slice_text_of(s: Option<&str>) -> Option<Seq<char>> {
    match s {
        Some(t) => Some(t@),
        None => None,
    }
}

impl View for EventRecord {
    type V = Event;

    open spec fn view(&self) -> Event {
        Event { name: self.name@, delta: self.delta as int, log: text_of(self.log) }
    }
}

/// The views of a vector of records, in order.
pub open spec fn events_of(records: Seq<EventRecord>) -> Seq<Event> {
    records.map_values(|r: EventRecord| r@)
}

/// What one event adds to the weight of `name`.
pub open spec fn contribution(e: Event, name: Seq<char>) -> int {
    if e.name == name {
        e.delta
    } else {
        0
    }
}

/// The weight of `name`: the sum of the deltas of the events recorded under it.
pub open spec fn weight_in(events: Seq<Event>, name: Seq<char>) -> int
    decreases events.len(),
{
    if events.len() == 0 {
        0
    } else {
        weight_in(events.drop_last(), name) + contribution(events.last(), name)
    }
}

/// A weight that the ledger can hold, and whose negation it can hold too.
pub open spec fn representable(w: int) -> bool {
    -(i64::MAX as int) <= w <= i64::MAX as int
}

/// Every option's weight is representable.
pub open spec fn balanced(events: Seq<Event>) -> bool {
    forall|name: Seq<char>| representable(#[trigger] weight_in(events, name))
}

/// The event that takes `name` out of the active options: it cancels its weight.
pub open spec fn cancellation(events: Seq<Event>, name: Seq<char>) -> Event {
    Event { name, delta: -weight_in(events, name), log: None }
}

/// Appending one event changes only the weight of the name it is recorded under.
pub proof fn lemma_weight_push(events: Seq<Event>, e: Event, name: Seq<char>)
    ensures
        weight_in(events.push(e), name) == weight_in(events, name) + contribution(e, name),
{
    assert(events.push(e).drop_last() =~= events);
}

/// Weights add up over the concatenation of two ledgers.
pub proof fn lemma_weight_concat(a: Seq<Event>, b: Seq<Event>, name: Seq<char>)
    ensures
        weight_in(a + b, name) == weight_in(a, name) + weight_in(b, name),
    decreases b.len(),
{
    if b.len() == 0 {
    } else {
        assert((a + b).drop_last() =~= a + b.drop_last());
        lemma_weight_concat(a, b.drop_last(), name);
    }
}

/// A name of non-zero weight is the name of some event.
pub proof fn lemma_weighted_name_occurs(events: Seq<Event>, name: Seq<char>)
    requires
        weight_in(events, name) != 0,
    ensures
        exists|j: int| 0 <= j < events.len() && (#[trigger] events[j]).name == name,
    decreases events.len(),
{
    if events.last().name != name {
        lemma_weighted_name_occurs(events.drop_last(), name);
        let j = choose|j: int|
            0 <= j < events.drop_last().len() && (#[trigger] events.drop_last()[j]).name == name;
        assert(events[j].name == name);
    }
}

/// Taking one event out lowers the weight of a name by what the event added to it.
pub proof fn lemma_weight_without(events: Seq<Event>, j: int, name: Seq<char>)
    requires
        0 <= j < events.len(),
    ensures
        weight_in(events, name) == weight_in(events.remove(j), name) + contribution(
            events[j],
            name,
        ),
{
    let front = events.subrange(0, j);
    let back = events.subrange(j + 1, events.len() as int);
    assert(events =~= front.push(events[j]) + back);
    lemma_weight_concat(front.push(events[j]), back, name);
    lemma_weight_push(front, events[j], name);
    lemma_weight_concat(front, back, name);
}

/// The weight of a name does not depend on the order in which the events are
/// added up: two ledgers that hold the same events, each as often as the
/// other, give every name the same weight.
pub proof fn lemma_weight_ignores_order(a: Seq<Event>, b: Seq<Event>, name: Seq<char>)
    requires
        a.to_multiset() == b.to_multiset(),
    ensures
        weight_in(a, name) == weight_in(b, name),
    decreases a.len(),
{
    broadcast use vstd::multiset::group_multiset_axioms;

    to_multiset_len(a);
    to_multiset_len(b);
    if a.len() > 0 {
        let e = a.last();
        let rest = a.drop_last();
        assert(rest.push(e) =~= a);
        to_multiset_build(rest, e);
        to_multiset_contains(b, e);
        let j = choose|j: int| 0 <= j < b.len() && b[j] == e;
        to_multiset_remove(b, j);
        assert(rest.to_multiset() =~= b.remove(j).to_multiset());
        lemma_weight_ignores_order(rest, b.remove(j), name);
        lemma_weight_without(b, j, name);
    }
}

/// Once an option is killed its weight is 0, whatever its history; the weight
/// of every other option is what it was.
pub proof fn lemma_kill_cancels(events: Seq<Event>, name: Seq<char>, other: Seq<char>)
    ensures
        weight_in(events.push(cancellation(events, name)), name) == 0,
        other != name ==> weight_in(events.push(cancellation(events, name)), other) == weight_in(
            events,
            other,
        ),
{
    lemma_weight_push(events, cancellation(events, name), name);
    lemma_weight_push(events, cancellation(events, name), other);
}

} // verus!
