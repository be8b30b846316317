//! Adding up a ledger in one pass: every name that occurs in it, once, with
//! the sum of its deltas.

use vstd::prelude::*;
use crate::events::{Event, EventRecord, events_of, weight_in, lemma_weighted_name_occurs};
use crate::names::{NameOrder, compare_names, name_precedes, lemma_name_order_transitive};
use crate::weights::{NamedWeight, ascending, listed};

verus! {

/// The entries that names and sums, held side by side, stand for.
pub open spec fn paired(names: Seq<String>, sums: Seq<i128>) -> Seq<NamedWeight> {
    Seq::new(names.len(), |k: int| NamedWeight { name: names[k]@, weight: sums[k] as int })
}

/// `tallies` holds the names that occur in `events`, each once and with its
/// weight, by ascending name.
pub open spec fn is_tally(events: Seq<Event>, tallies: Seq<NamedWeight>) -> bool {
    &&& ascending(tallies)
    &&& forall|k: int|
        0 <= k < tallies.len() ==> (#[trigger] tallies[k]).weight == weight_in(
            events,
            tallies[k].name,
        )
    &&& forall|j: int| 0 <= j < events.len() ==> listed(tallies, (#[trigger] events[j]).name)
}

/// `name` belongs at position `at` of a listing: the entries before that
/// position precede it, and the entry at the position, if there is one, comes
/// after it.
pub open spec fn belongs_at(listing: Seq<NamedWeight>, at: int, name: Seq<char>) -> bool {
    &&& 0 <= at <= listing.len()
    &&& forall|k: int| 0 <= k < at ==> name_precedes((#[trigger] listing[k]).name, name)
    &&& at == listing.len() || name_precedes(name, listing[at].name)
}

/// A name of weight zero for every name that a tally does not list.
proof fn lemma_unlisted_weighs_nothing(
    events: Seq<Event>,
    tallies: Seq<NamedWeight>,
    name: Seq<char>,
)
    requires
        is_tally(events, tallies),
        !listed(tallies, name),
    ensures
        weight_in(events, name) == 0,
{
    if weight_in(events, name) != 0 {
        lemma_weighted_name_occurs(events, name);
    }
}

/// A listing in ascending order does not hold a name where another belongs.
proof fn lemma_belongs_unlisted(listing: Seq<NamedWeight>, at: int, name: Seq<char>)
    requires
        ascending(listing),
        belongs_at(listing, at, name),
    ensures
        !listed(listing, name),
{
}

/// Putting an entry where its name belongs keeps a listing in ascending order.
proof fn lemma_insert_ascending(listing: Seq<NamedWeight>, at: int, entry: NamedWeight)
    requires
        ascending(listing),
        belongs_at(listing, at, entry.name),
    ensures
        ascending(listing.insert(at, entry)),
        forall|name: Seq<char>| listed(listing, name) ==> listed(listing.insert(at, entry), name),
        listed(listing.insert(at, entry), entry.name),
{
    let after = listing.insert(at, entry);
    assert forall|k: int| at <= k < listing.len() implies name_precedes(
        entry.name,
        (#[trigger] listing[k]).name,
    ) by {
        if k > at {
            lemma_name_order_transitive(entry.name, listing[at].name, listing[k].name);
        }
    }
    assert forall|name: Seq<char>| listed(listing, name) implies listed(after, name) by {
        let k = choose|k: int| 0 <= k < listing.len() && (#[trigger] listing[k]).name == name;
        if k < at {
            assert(after[k].name == name);
        } else {
            assert(after[k + 1].name == name);
        }
    }
    assert(after[at].name == entry.name);
}

/// Where `name` stands, or would stand, among names in ascending order: the
/// position of the first that does not precede it, and whether that one is
/// the name itself.
pub fn locate(names: &Vec<String>, name: &str) -> (at: (usize, bool))
    ensures
        at.0 <= names.len(),
        forall|k: int| 0 <= k < at.0 ==> name_precedes((#[trigger] names@[k])@, name@),
        at.1 ==> at.0 < names.len() && names@[at.0 as int]@ == name@,
        !at.1 ==> at.0 == names.len() || name_precedes(name@, names@[at.0 as int]@),
{
    let n = names.len();
    let mut i: usize = 0;
    while i < n
        invariant
            n == names.len(),
            i <= n,
            forall|k: int| 0 <= k < i ==> name_precedes((#[trigger] names@[k])@, name@),
        decreases n - i,
    {
        match compare_names(names[i].as_str(), name) {
            NameOrder::Less => {},
            NameOrder::Equal => {
                return (i, true);
            },
            NameOrder::Greater => {
                return (i, false);
            },
        }
        i = i + 1;
    }
    (n, false)
}

/// The names that occur in `records`, by ascending name, and beside each the
/// sum of its deltas.
pub fn tally(records: &Vec<EventRecord>) -> (t: (Vec<String>, Vec<i128>))
    ensures
        t.0.len() == t.1.len(),
        is_tally(events_of(records@), paired(t.0@, t.1@)),
{
    let ghost events = events_of(records@);
    let n = records.len();
    let mut names: Vec<String> = Vec::new();
    let mut sums: Vec<i128> = Vec::new();
    let mut i: usize = 0;
    while i < n
        invariant
            n == records.len(),
            i <= n,
            events == events_of(records@),
            names.len() == sums.len(),
            is_tally(events.take(i as int), paired(names@, sums@)),
            forall|k: int|
                0 <= k < sums.len() ==> -(i * 0x8000_0000_0000_0000) <= (#[trigger] sums@[k]) <= i
                    * 0x8000_0000_0000_0000,
        decreases n - i,
    {
        let record = &records[i];
        let ghost before = paired(names@, sums@);
        let ghost seen = events.take(i as int);
        let ghost next = events.take(i + 1);
        let ghost e = events[i as int];
        proof {
            assert(next.drop_last() =~= seen);
        }
        let at = locate(&names, record.name.as_str());
        let ghost p = at.0 as int;
        if at.1 {
            let sum = sums[at.0] + record.delta as i128;
            sums.set(at.0, sum);
            proof {
                let after = paired(names@, sums@);
                assert(before[p].name == e.name);
                assert forall|a: int, b: int| 0 <= a < b < after.len() implies name_precedes(
                    (#[trigger] after[a]).name,
                    (#[trigger] after[b]).name,
                ) by {
                    assert(name_precedes(before[a].name, before[b].name));
                }
                assert forall|k: int| 0 <= k < after.len() implies (#[trigger] after[k]).weight
                    == weight_in(next, after[k].name) by {
                    assert(before[k].weight == weight_in(seen, before[k].name));
                }
                assert forall|j: int| 0 <= j < next.len() implies listed(
                    after,
                    (#[trigger] next[j]).name,
                ) by {
                    if j < i {
                        let k = choose|k: int|
                            0 <= k < before.len() && (#[trigger] before[k]).name == seen[j].name;
                        assert(after[k].name == next[j].name);
                    } else {
                        assert(after[p].name == e.name);
                    }
                }
            }
        } else {
            let ghost entry = NamedWeight { name: e.name, weight: e.delta };
            proof {
                lemma_insert_ascending(before, p, entry);
                lemma_belongs_unlisted(before, p, e.name);
                lemma_unlisted_weighs_nothing(seen, before, e.name);
            }
            names.insert(at.0, record.name.clone());
            sums.insert(at.0, record.delta as i128);
            proof {
                let after = paired(names@, sums@);
                assert(after =~= before.insert(p, entry));
            }
        }
        i = i + 1;
    }
    proof {
        assert(events.take(n as int) =~= events);
    }
    (names, sums)
}

} // verus!
