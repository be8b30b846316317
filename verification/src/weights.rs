//! Option weights as they are derived from the ledger, and the listing of the
//! options that are active.

use vstd::prelude::*;
use crate::events::{Event, weight_in, lemma_weight_concat};
use crate::names::name_precedes;

verus! {

/// An option together with its current weight.
#[derive(Debug, Clone, PartialEq, Eq)]
pub struct OptionWeight {
    pub name: String,
    pub weight: u64,
}

/// The mathematical content of an [`OptionWeight`].
pub struct NamedWeight {
    pub name: Seq<char>,
    pub weight: int,
}

impl View for OptionWeight {
    type V = NamedWeight;

    open spec fn view(&self) -> NamedWeight {
        NamedWeight { name: self.name@, weight: self.weight as int }
    }
}

/// The views of a vector of option weights, in order.
pub open spec fn weights_of(listing: Seq<OptionWeight>) -> Seq<NamedWeight> {
    listing.map_values(|w: OptionWeight| w@)
}

/// Every entry carries the weight that the ledger gives its name, and that weight is positive.
pub open spec fn weights_agree(events: Seq<Event>, listing: Seq<NamedWeight>) -> bool {
    forall|i: int|
        0 <= i < listing.len() ==> (#[trigger] listing[i]).weight == weight_in(
            events,
            listing[i].name,
        ) && listing[i].weight > 0
}

/// The entries are in strictly ascending order of name, so no name occurs twice.
pub open spec fn ascending(listing: Seq<NamedWeight>) -> bool {
    forall|i: int, j: int|
        0 <= i < j < listing.len() ==> name_precedes(
            (#[trigger] listing[i]).name,
            (#[trigger] listing[j]).name,
        )
}

/// `name` is the name of some entry.
pub open spec fn listed(listing: Seq<NamedWeight>, name: Seq<char>) -> bool {
    exists|k: int| 0 <= k < listing.len() && (#[trigger] listing[k]).name == name
}

/// Every option whose weight in the ledger is positive has an entry.
pub open spec fn covers(events: Seq<Event>, listing: Seq<NamedWeight>) -> bool {
    forall|name: Seq<char>| #[trigger] weight_in(events, name) > 0 ==> listed(listing, name)
}

/// `listing` is the listing of the active options of `events`: exactly the
/// options of positive weight, each once and with its weight, by ascending name.
pub open spec fn is_active_listing(events: Seq<Event>, listing: Seq<NamedWeight>) -> bool {
    &&& weights_agree(events, listing)
    &&& ascending(listing)
    &&& covers(events, listing)
}

/// The listing of the active options of `events`.
pub open spec fn active_listing(events: Seq<Event>) -> Seq<NamedWeight> {
    choose|listing: Seq<NamedWeight>| is_active_listing(events, listing)
}

/// Two listings of the active options of one ledger that agree on their first
/// `i` names agree on all the names of the first.
proof fn lemma_listings_agree_from(
    events: Seq<Event>,
    a: Seq<NamedWeight>,
    b: Seq<NamedWeight>,
    i: int,
)
    requires
        is_active_listing(events, a),
        is_active_listing(events, b),
        0 <= i <= a.len(),
        i <= b.len(),
        forall|k: int| 0 <= k < i ==> (#[trigger] a[k]).name == b[k].name,
    ensures
        a.len() <= b.len(),
        forall|k: int| 0 <= k < a.len() ==> (#[trigger] a[k]).name == b[k].name,
    decreases a.len() - i,
{
    if i < a.len() {
        let x = a[i].name;
        let j = choose|j: int| 0 <= j < b.len() && (#[trigger] b[j]).name == x;
        if j < i {
            assert(a[j].name == b[j].name);
        }
        lemma_listings_agree_from(events, a, b, i + 1);
    }
}

/// A ledger has at most one listing of its active options.
pub proof fn lemma_active_listing_unique(
    events: Seq<Event>,
    a: Seq<NamedWeight>,
    b: Seq<NamedWeight>,
)
    requires
        is_active_listing(events, a),
        is_active_listing(events, b),
    ensures
        a == b,
{
    lemma_listings_agree_from(events, a, b, 0);
    lemma_listings_agree_from(events, b, a, 0);
}

/// Any listing of the active options of a ledger is the listing.
pub proof fn lemma_active_listing_is(events: Seq<Event>, listing: Seq<NamedWeight>)
    requires
        is_active_listing(events, listing),
    ensures
        listing == active_listing(events),
{
    lemma_active_listing_unique(events, listing, active_listing(events));
}

/// The event that brings an option of weight `entry.weight` to weight `target`.
pub open spec fn compensation(entry: NamedWeight, target: int, log: Option<Seq<char>>) -> Event {
    Event { name: entry.name, delta: target - entry.weight, log }
}

/// The events of a reset: one compensation per listed option, in the listing's order.
pub open spec fn compensations(listing: Seq<NamedWeight>, target: int) -> Seq<Event> {
    listing.map_values(|entry: NamedWeight| compensation(entry, target, Some("Reset"@)))
}

/// The compensations of a listing leave the weight of an unlisted name alone.
pub proof fn lemma_compensations_unlisted(listing: Seq<NamedWeight>, target: int, name: Seq<char>)
    requires
        !listed(listing, name),
    ensures
        weight_in(compensations(listing, target), name) == 0,
    decreases listing.len(),
{
    if listing.len() > 0 {
        let rest = listing.drop_last();
        assert(compensations(listing, target).drop_last() =~= compensations(rest, target));
        lemma_compensations_unlisted(rest, target, name);
    }
}

/// The compensations of a listing in ascending order add `target - weight` to
/// the weight of each listed name.
pub proof fn lemma_compensations_listed(listing: Seq<NamedWeight>, target: int, k: int)
    requires
        ascending(listing),
        0 <= k < listing.len(),
    ensures
        weight_in(compensations(listing, target), listing[k].name) == target - listing[k].weight,
    decreases listing.len(),
{
    let name = listing[k].name;
    let rest = listing.drop_last();
    assert(compensations(listing, target).drop_last() =~= compensations(rest, target));
    if k == listing.len() - 1 {
        lemma_compensations_unlisted(rest, target, name);
    } else {
        lemma_compensations_listed(rest, target, k);
    }
}

/// After a reset every option that was active weighs `target`, and every other
/// option weighs what it did.
pub proof fn lemma_reset_weight(
    events: Seq<Event>,
    listing: Seq<NamedWeight>,
    target: int,
    name: Seq<char>,
)
    requires
        is_active_listing(events, listing),
    ensures
        weight_in(events + compensations(listing, target), name) == if weight_in(events, name)
            > 0 {
            target
        } else {
            weight_in(events, name)
        },
{
    lemma_weight_concat(events, compensations(listing, target), name);
    if weight_in(events, name) > 0 {
        let k = choose|k: int| 0 <= k < listing.len() && (#[trigger] listing[k]).name == name;
        lemma_compensations_listed(listing, target, k);
    } else {
        lemma_compensations_unlisted(listing, target, name);
    }
}

/// After a reset to a positive weight the active options are those that were
/// active before, each with the weight `target`; an option that was not active
/// before is not active after.
pub proof fn lemma_reset_listing(
    events: Seq<Event>,
    target: int,
    before: Seq<NamedWeight>,
    after: Seq<NamedWeight>,
)
    requires
        target > 0,
        is_active_listing(events, before),
        is_active_listing(events + compensations(before, target), after),
    ensures
        after.len() == before.len(),
        forall|i: int|
            0 <= i < after.len() ==> (#[trigger] after[i]).name == before[i].name && after[i].weight
                == target,
        forall|name: Seq<char>| weight_in(events, name) <= 0 ==> !listed(after, name),
{
    let reset = events + compensations(before, target);
    let expected = before.map_values(|entry: NamedWeight| NamedWeight { weight: target, ..entry });
    assert forall|i: int| 0 <= i < expected.len() implies (#[trigger] expected[i]).weight
        == weight_in(reset, expected[i].name) && expected[i].weight > 0 by {
        lemma_reset_weight(events, before, target, before[i].name);
    }
    assert forall|name: Seq<char>| #[trigger] weight_in(reset, name) > 0 implies listed(
        expected,
        name,
    ) by {
        lemma_reset_weight(events, before, target, name);
        let k = choose|k: int| 0 <= k < before.len() && (#[trigger] before[k]).name == name;
        assert(expected[k].name == name);
    }
    lemma_active_listing_unique(reset, after, expected);
}

} // verus!
