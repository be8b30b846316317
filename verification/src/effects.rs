//! What each operation makes of a store, and what it returns.

use vstd::prelude::*;
use crate::command::{Outcome, Request};
use crate::error::Error;
use crate::events::{Event, weight_in, representable, cancellation};
use crate::schema::{Tables, DEFAULT_WEIGHT, LATEST_VERSION, schema_version, bootstrapped,
    step_applies, after_step, migrated_from, migrated};
use crate::select::is_outcome_of_choice;
use crate::weights::{NamedWeight, weights_of, active_listing, compensation, compensations};

verus! {

/// The value of the setting `name`, or `default` where the store has no such setting.
pub open spec fn setting_of(tables: Tables, name: Seq<char>, default: u32) -> u32 {
    match tables.settings {
        Some(settings) => if settings.dom().contains(name) {
            settings[name]
        } else {
            default
        },
        None => default,
    }
}

/// The weight that a new option gets.
pub open spec fn default_weight_of(tables: Tables) -> u32 {
    setting_of(tables, "default_weight"@, DEFAULT_WEIGHT)
}

/// The store with `events` for its ledger.
pub open spec fn with_events(tables: Tables, events: Seq<Event>) -> Tables {
    Tables { events: Some(events), ..tables }
}

/// Appending `event`: it is added at the end of the ledger where the ledger
/// exists and the weight of the event's name stays representable.
pub open spec fn appended(tables: Tables, event: Event) -> (Tables, Result<(), Error>) {
    match tables.events {
        Some(events) => if representable(weight_in(events, event.name) + event.delta) {
            (with_events(tables, events.push(event)), Ok(()))
        } else {
            (tables, Err(Error::Write))
        },
        None => (tables, Err(Error::Write)),
    }
}

/// Adding the option `name`: an event with the default weight of the moment.
pub open spec fn added(tables: Tables, name: Seq<char>) -> (Tables, Result<(), Error>) {
    appended(tables, Event { name, delta: default_weight_of(tables) as int, log: None })
}

/// Killing the option `name`: an event that cancels its weight.
pub open spec fn killed(tables: Tables, name: Seq<char>) -> (Tables, Result<(), Error>) {
    match tables.events {
        Some(events) => (with_events(tables, events.push(cancellation(events, name))), Ok(())),
        None => (tables, Err(Error::Query)),
    }
}

/// Changing the weight of new options to `weight`.
pub open spec fn defaulted(tables: Tables, weight: u32) -> (Tables, Result<(), Error>) {
    match tables.settings {
        Some(settings) => if settings.dom().contains("default_weight"@) {
            (
                Tables { settings: Some(settings.insert("default_weight"@, weight)), ..tables },
                Ok(()),
            )
        } else {
            (tables, Err(Error::Write))
        },
        None => (tables, Err(Error::Write)),
    }
}

/// Resetting every active option to `target`: one compensating event for each.
pub open spec fn reset_to(tables: Tables, target: u32) -> (Tables, Result<(), Error>) {
    match tables.events {
        Some(events) => (
            with_events(tables, events + compensations(active_listing(events), target as int)),
            Ok(()),
        ),
        None => (tables, Err(Error::Write)),
    }
}

/// Setting the option `name` to `target`: a compensating event where the
/// option is active, nothing where it is not.
pub open spec fn set_to(
    tables: Tables,
    name: Seq<char>,
    message: Option<Seq<char>>,
    target: u32,
) -> (Tables, Result<(), Error>) {
    match tables.events {
        Some(events) => if weight_in(events, name) > 0 {
            (
                with_events(
                    tables,
                    events.push(
                        compensation(
                            NamedWeight { name, weight: weight_in(events, name) },
                            target as int,
                            message,
                        ),
                    ),
                ),
                Ok(()),
            )
        } else {
            (tables, Ok(()))
        },
        None => (tables, Err(Error::Write)),
    }
}

/// Recording `message` under `name`, with no change of weight.
pub open spec fn logged(tables: Tables, name: Seq<char>, message: Seq<char>) -> (
    Tables,
    Result<(), Error>,
) {
    match tables.events {
        Some(events) => (
            with_events(tables, events.push(Event { name, delta: 0, log: Some(message) })),
            Ok(()),
        ),
        None => (tables, Err(Error::Write)),
    }
}

/// Liking the option `name`: an event that raises its weight by one.
pub open spec fn liked(tables: Tables, name: Seq<char>, message: Option<Seq<char>>) -> (
    Tables,
    Result<(), Error>,
) {
    appended(tables, Event { name, delta: 1, log: message })
}

/// Hating the option `name`: an event that lowers its weight by one.
pub open spec fn hated(tables: Tables, name: Seq<char>, message: Option<Seq<char>>) -> (
    Tables,
    Result<(), Error>,
) {
    appended(tables, Event { name, delta: -1, log: message })
}

/// The outcome of a command that changes the store and returns nothing else.
pub open spec fn finished(effect: (Tables, Result<(), Error>)) -> (Tables, Result<Outcome, Error>) {
    (
        effect.0,
        match effect.1 {
            Ok(_) => Ok(Outcome::Done),
            Err(e) => Err(e),
        },
    )
}

/// `after` and `r` are what carrying out `request` on the store `before` may
/// leave and return. The store is migrated first, and where that fails the
/// failure is returned. Then the request is carried out on the migrated store.
pub open spec fn ran(
    before: Tables,
    request: Request,
    after: Tables,
    r: Result<Outcome, Error>,
) -> bool {
    let (ready, migration) = migrated(before);
    match migration {
        Err(e) => after == ready && r == Err::<Outcome, Error>(e),
        Ok(_) => match request {
            Request::Add { name } => (after, r) == finished(added(ready, name)),
            Request::Kill { name } => (after, r) == finished(killed(ready, name)),
            Request::Default { weight } => (after, r) == finished(defaulted(ready, weight)),
            Request::Reset { target } => (after, r) == finished(
                reset_to(
                    ready,
                    match target {
                        Some(target) => target,
                        None => default_weight_of(ready),
                    },
                ),
            ),
            Request::List => after == ready && match ready.events {
                Some(events) => r matches Ok(Outcome::Listed(listing)) && weights_of(listing@)
                    == active_listing(events),
                None => r == Err::<Outcome, Error>(Error::Query),
            },
            Request::Choose => after == ready && match ready.events {
                Some(events) => match r {
                    Ok(Outcome::Chosen(name)) => is_outcome_of_choice(
                        active_listing(events),
                        Ok(name),
                    ),
                    Ok(_) => false,
                    Err(e) => is_outcome_of_choice(active_listing(events), Err(e)),
                },
                None => r == Err::<Outcome, Error>(Error::Query),
            },
            Request::Log { name, text } => (after, r) == finished(logged(ready, name, text)),
            Request::Like { name, message } => (after, r) == finished(liked(ready, name, message)),
            Request::Hate { name, message } => (after, r) == finished(hated(ready, name, message)),
            Request::Assign { name, weight, message } => (after, r) == finished(
                set_to(ready, name, message, weight),
            ),
        },
    }
}

/// The events that `before` held are the first events of `after`, unchanged.
pub open spec fn ledger_kept(before: Tables, after: Tables) -> bool {
    match before.events {
        Some(events) => after.events is Some && events.is_prefix_of(after.events->0),
        None => true,
    }
}

/// The steps of a migration leave the events that the store held as they were.
proof fn lemma_steps_keep_ledger(tables: Tables, version: int)
    ensures
        ledger_kept(tables, migrated_from(tables, version).0),
    decreases LATEST_VERSION + 1 - version,
{
    if version <= LATEST_VERSION && step_applies(tables, version) {
        lemma_steps_keep_ledger(after_step(tables, version), version + 1);
    }
}

/// No command changes or removes an event: whatever it does, the events that
/// the store held before are the first events that it holds after.
pub proof fn lemma_ledger_only_grows(
    before: Tables,
    request: Request,
    after: Tables,
    r: Result<Outcome, Error>,
)
    requires
        ran(before, request, after, r),
    ensures
        ledger_kept(before, after),
{
    let start = bootstrapped(before);
    lemma_steps_keep_ledger(start, schema_version(start) + 1);
}

} // verus!
