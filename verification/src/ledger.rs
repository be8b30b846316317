//! The event ledger: an append-only sequence of weight deltas per option name.

use vstd::prelude::*;
use crate::error::{Error, written};
use crate::events::{Event, EventRecord, events_of, weight_in, representable, balanced,
    cancellation, slice_text_of, lemma_weight_push, lemma_weight_concat,
    lemma_weighted_name_occurs};
use crate::names::name_precedes;
use crate::tally::{tally, paired, is_tally};
use crate::weights::{OptionWeight, NamedWeight, weights_of, weights_agree, ascending, listed,
    is_active_listing, active_listing, compensation, compensations, lemma_active_listing_is,
    lemma_compensations_unlisted, lemma_reset_weight};

verus! {

/// The sum of the deltas recorded under `name`.
fn sum_deltas(records: &Vec<EventRecord>, name: &str) -> (sum: i128)
    ensures
        sum == weight_in(events_of(records@), name@),
{
    let ghost events = events_of(records@);
    let key = name.to_owned();
    let n = records.len();
    let mut sum: i128 = 0;
    let mut i: usize = 0;
    while i < n
        invariant
            n == records.len(),
            i <= n,
            key@ == name@,
            events == events_of(records@),
            sum == weight_in(events.take(i as int), name@),
            -(i * 0x8000_0000_0000_0000) <= sum <= i * 0x8000_0000_0000_0000,
        decreases n - i,
    {
        proof {
            assert(events.take(i + 1).drop_last() =~= events.take(i as int));
        }
        if records[i].name == key {
            sum = sum + records[i].delta as i128;
        }
        i = i + 1;
    }
    proof {
        assert(events.take(n as int) =~= events);
    }
    sum
}

/// The append-only ledger. Events are added at its end and never changed or
/// removed, and the weight of every option in it is representable.
pub struct Ledger {
    records: Vec<EventRecord>,
}

impl View for Ledger {
    type V = Seq<Event>;

    closed spec fn view(&self) -> Seq<Event> {
        events_of(self.records@)
    }
}

impl Ledger {
    #[verifier::type_invariant]
    spec fn inv(self) -> bool {
        balanced(self@)
    }

    /// A ledger without events.
    pub fn new() -> (ledger: Ledger)
        ensures
            ledger@ == Seq::<Event>::empty(),
    {
        let ledger = Ledger { records: Vec::new() };
        ledger
    }

    /// The number of events recorded so far.
    pub fn len(&self) -> (n: usize)
        ensures
            n == self@.len(),
    {
        self.records.len()
    }

    /// Adds `record` at the end, where the weight of its name stays representable.
    fn push_record(&mut self, record: EventRecord)
        requires
            representable(weight_in(old(self)@, record@.name) + record@.delta),
        ensures
            final(self)@ == old(self)@.push(record@),
    {
        proof {
            use_type_invariant(&*self);
        }
        let ghost before = self@;
        let mut records: Vec<EventRecord> = Vec::new();
        std::mem::swap(&mut records, &mut self.records);
        records.push(record);
        proof {
            assert(events_of(records@) =~= before.push(record@));
            assert forall|name: Seq<char>| representable(
                #[trigger] weight_in(before.push(record@), name),
            ) by {
                lemma_weight_push(before, record@, name);
            }
        }
        self.records = records;
    }

    /// Records one event under `name`. This is the only way the ledger grows.
    ///
    /// It fails, and leaves the ledger as it was, when the weight of `name`
    /// would no longer be representable.
    pub fn append(&mut self, name: &str, delta: i64, log: Option<&str>) -> (r: Result<(), Error>)
        ensures
            r == written(representable(weight_in(old(self)@, name@) + delta)),
            final(self)@ == if r is Ok {
                old(self)@.push(Event { name: name@, delta: delta as int, log: slice_text_of(log) })
            } else {
                old(self)@
            },
    {
        let current = self.weight_of(name);
        let next: i128 = current as i128 + delta as i128;
        if next < -(i64::MAX as i128) || next > i64::MAX as i128 {
            return Err(Error::Write);
        }
        let log = match log {
            Some(text) => Some(text.to_owned()),
            None => None,
        };
        let record = EventRecord { name: name.to_owned(), delta, log };
        self.push_record(record);
        Ok(())
    }

    /// The options whose weight is positive, each with its weight, by ascending name.
    pub fn active_weights(&self) -> (listing: Vec<OptionWeight>)
        ensures
            is_active_listing(self@, weights_of(listing@)),
            weights_of(listing@) == active_listing(self@),
    {
        proof {
            use_type_invariant(self);
        }
        let (names, sums) = tally(&self.records);
        let ghost all = paired(names@, sums@);
        let n = names.len();
        let mut out: Vec<OptionWeight> = Vec::new();
        let mut k: usize = 0;
        while k < n
            invariant
                n == names.len(),
                n == sums.len(),
                k <= n,
                all == paired(names@, sums@),
                is_tally(self@, all),
                balanced(self@),
                weights_agree(self@, weights_of(out@)),
                ascending(weights_of(out@)),
                forall|j: int|
                    0 <= j < k && (#[trigger] all[j]).weight > 0 ==> listed(
                        weights_of(out@),
                        all[j].name,
                    ),
                forall|a: int, j: int|
                    0 <= a < out.len() && k <= j < n ==> name_precedes(
                        (#[trigger] weights_of(out@)[a]).name,
                        (#[trigger] all[j]).name,
                    ),
            decreases n - k,
        {
            let ghost before = weights_of(out@);
            if sums[k] > 0 {
                let entry = OptionWeight { name: names[k].clone(), weight: sums[k] as u64 };
                out.push(entry);
                proof {
                    let after = weights_of(out@);
                    assert(after =~= before.push(all[k as int]));
                    assert forall|j: int| 0 <= j < k + 1 && (#[trigger] all[j]).weight
                        > 0 implies listed(after, all[j].name) by {
                        if j < k {
                            let a = choose|a: int|
                                0 <= a < before.len() && (#[trigger] before[a]).name
                                    == all[j].name;
                            assert(after[a].name == all[j].name);
                        } else {
                            assert(after[after.len() - 1].name == all[j].name);
                        }
                    }
                }
            }
            k = k + 1;
        }
        proof {
            let listing = weights_of(out@);
            assert forall|name: Seq<char>| #[trigger] weight_in(self@, name) > 0 implies listed(
                listing,
                name,
            ) by {
                lemma_weighted_name_occurs(self@, name);
            }
            lemma_active_listing_is(self@, listing);
        }
        out
    }

    /// The current weight of `name`; 0 for a name that was never recorded.
    pub fn weight_of(&self, name: &str) -> (w: i64)
        ensures
            w == weight_in(self@, name@),
            representable(w as int),
    {
        proof {
            use_type_invariant(self);
        }
        sum_deltas(&self.records, name) as i64
    }

    /// The events, oldest first.
    pub fn records(&self) -> (records: &Vec<EventRecord>)
        ensures
            events_of(records@) == self@,
    {
        &self.records
    }

    /// Adds the option `name` with the weight given to new options.
    ///
    /// It fails, and leaves the ledger as it was, when the weight of `name`
    /// would no longer be representable.
    pub fn add(&mut self, name: &str, weight: u32) -> (r: Result<(), Error>)
        ensures
            r == written(representable(weight_in(old(self)@, name@) + weight)),
            final(self)@ == if r is Ok {
                old(self)@.push(Event { name: name@, delta: weight as int, log: None })
            } else {
                old(self)@
            },
    {
        self.append(name, weight as i64, None)
    }

    /// Takes `name` out of the active options by cancelling its weight; its
    /// history stays.
    pub fn kill(&mut self, name: &str)
        ensures
            final(self)@ == old(self)@.push(cancellation(old(self)@, name@)),
            weight_in(final(self)@, name@) == 0,
    {
        proof {
            use_type_invariant(&*self);
            lemma_weight_push(self@, cancellation(self@, name@), name@);
        }
        let weight = self.weight_of(name);
        let record = EventRecord { name: name.to_owned(), delta: -weight, log: None };
        self.push_record(record);
    }

    /// Records `message` under `name` without changing its weight.
    pub fn log(&mut self, name: &str, message: &str)
        ensures
            final(self)@ == old(self)@.push(Event { name: name@, delta: 0, log: Some(message@) }),
    {
        proof {
            use_type_invariant(&*self);
        }
        let record = EventRecord { name: name.to_owned(), delta: 0, log: Some(message.to_owned()) };
        self.push_record(record);
    }

    /// Raises the weight of `name` by one.
    ///
    /// It fails, and leaves the ledger as it was, when the weight of `name`
    /// would no longer be representable.
    pub fn like(&mut self, name: &str, message: Option<&str>) -> (r: Result<(), Error>)
        ensures
            r == written(representable(weight_in(old(self)@, name@) + 1)),
            final(self)@ == if r is Ok {
                old(self)@.push(Event { name: name@, delta: 1, log: slice_text_of(message) })
            } else {
                old(self)@
            },
    {
        self.append(name, 1, message)
    }

    /// Lowers the weight of `name` by one.
    ///
    /// It fails, and leaves the ledger as it was, when the weight of `name`
    /// would no longer be representable.
    pub fn hate(&mut self, name: &str, message: Option<&str>) -> (r: Result<(), Error>)
        ensures
            r == written(representable(weight_in(old(self)@, name@) - 1)),
            final(self)@ == if r is Ok {
                old(self)@.push(Event { name: name@, delta: -1, log: slice_text_of(message) })
            } else {
                old(self)@
            },
    {
        self.append(name, -1, message)
    }

    /// Brings the weight of `name` to `target` if `name` is active; an option
    /// that is not active is left alone.
    pub fn set(&mut self, name: &str, message: Option<&str>, target: u32)
        ensures
            weight_in(old(self)@, name@) > 0 ==> final(self)@ == old(self)@.push(
                compensation(
                    NamedWeight { name: name@, weight: weight_in(old(self)@, name@) },
                    target as int,
                    slice_text_of(message),
                ),
            ) && weight_in(final(self)@, name@) == target,
            weight_in(old(self)@, name@) <= 0 ==> final(self)@ == old(self)@,
    {
        let weight = self.weight_of(name);
        if weight > 0 {
            let log = match message {
                Some(text) => Some(text.to_owned()),
                None => None,
            };
            let record = EventRecord { name: name.to_owned(), delta: target as i64 - weight, log };
            proof {
                lemma_weight_push(self@, record@, name@);
            }
            self.push_record(record);
        }
    }

    /// Brings every active option to weight `target`. The compensating events
    /// are all computed from the weights as they were before the first of them.
    pub fn reset(&mut self, target: u32)
        ensures
            final(self)@ == old(self)@ + compensations(active_listing(old(self)@), target as int),
            forall|name: Seq<char>| #[trigger]
                weight_in(final(self)@, name) == if weight_in(old(self)@, name) > 0 {
                    target as int
                } else {
                    weight_in(old(self)@, name)
                },
    {
        proof {
            use_type_invariant(&*self);
        }
        let snapshot = self.active_weights();
        let ghost before = self@;
        let ghost listing = weights_of(snapshot@);
        let m = snapshot.len();
        let mut k: usize = 0;
        while k < m
            invariant
                m == snapshot.len(),
                k <= m,
                listing == weights_of(snapshot@),
                is_active_listing(before, listing),
                balanced(before),
                self@ == before + compensations(listing.take(k as int), target as int),
            decreases m - k,
        {
            let entry = &snapshot[k];
            let ghost done = listing.take(k as int);
            proof {
                assert(listing[k as int] == entry@);
                assert(!listed(done, entry@.name)) by {
                    if listed(done, entry@.name) {
                        let j = choose|j: int|
                            0 <= j < done.len() && (#[trigger] done[j]).name == entry@.name;
                        assert(name_precedes(listing[j].name, listing[k as int].name));
                    }
                }
                lemma_compensations_unlisted(done, target as int, entry@.name);
                lemma_weight_concat(before, compensations(done, target as int), entry@.name);
            }
            let record = EventRecord {
                name: entry.name.clone(),
                delta: target as i64 - entry.weight as i64,
                log: Some("Reset".to_owned()),
            };
            self.push_record(record);
            k = k + 1;
        }
        proof {
            assert(listing.take(m as int) =~= listing);
            assert forall|name: Seq<char>| #[trigger]
                weight_in(self@, name) == if weight_in(before, name) > 0 {
                    target as int
                } else {
                    weight_in(before, name)
                } by {
                lemma_reset_weight(before, listing, target as int, name);
            }
        }
    }

    /// A ledger that holds `records`, oldest first.
    ///
    /// It fails when some option's weight is not representable.
    pub fn from_records(records: Vec<EventRecord>) -> (r: Result<Ledger, Error>)
        ensures
            r is Ok <==> balanced(events_of(records@)),
            r matches Ok(ledger) ==> ledger@ == events_of(records@),
            r matches Err(e) ==> e == Error::Query,
    {
        let ghost events = events_of(records@);
        let (names, sums) = tally(&records);
        let ghost all = paired(names@, sums@);
        let n = sums.len();
        let mut k: usize = 0;
        while k < n
            invariant
                n == sums.len(),
                n == names.len(),
                k <= n,
                events == events_of(records@),
                all == paired(names@, sums@),
                is_tally(events, all),
                forall|j: int| 0 <= j < k ==> representable((#[trigger] all[j]).weight),
            decreases n - k,
        {
            if sums[k] < -(i64::MAX as i128) || sums[k] > i64::MAX as i128 {
                proof {
                    assert(all[k as int].weight == weight_in(events, all[k as int].name));
                }
                return Err(Error::Query);
            }
            k = k + 1;
        }
        proof {
            assert forall|name: Seq<char>| representable(#[trigger] weight_in(events, name)) by {
                if weight_in(events, name) != 0 {
                    lemma_weighted_name_occurs(events, name);
                    let j = choose|j: int|
                        0 <= j < events.len() && (#[trigger] events[j]).name == name;
                    assert(listed(all, events[j].name));
                }
            }
        }
        Ok(Ledger { records })
    }
}

} // verus!
