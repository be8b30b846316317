//! The store: the schema versions, the settings and the event ledger held
//! together, with the schema migrator and the operations on options.

use vstd::prelude::*;
use crate::command::{Command, Outcome};
use crate::effects::{setting_of, added, killed, defaulted, reset_to, set_to, logged, liked,
    hated, ran, ledger_kept, lemma_ledger_only_grows};
use crate::error::Error;
use crate::events::{slice_text_of, text_of};
use crate::ledger::Ledger;
use crate::schema::{Tables, DEFAULT_WEIGHT, LATEST_VERSION, greatest, schema_version, bootstrapped,
    step_applies, after_step, migrated_from, migrated};
use crate::select::{choose_weighted, is_outcome_of_choice};
use crate::settings::Settings;
use crate::weights::{OptionWeight, weights_of, active_listing};

verus! {

/// A store held in memory: the table of schema versions, the event ledger and
/// the settings, each of which may still be missing.
pub struct Store {
    versions: Option<Vec<u32>>,
    ledger: Option<Ledger>,
    settings: Option<Settings>,
}

impl View for Store {
    type V = Tables;

    closed spec fn view(&self) -> Tables {
        Tables {
            versions: match self.versions {
                Some(versions) => Some(versions@),
                None => None,
            },
            events: match self.ledger {
                Some(ledger) => Some(ledger@),
                None => None,
            },
            settings: match self.settings {
                Some(settings) => Some(settings@),
                None => None,
            },
        }
    }
}

impl Store {
    /// A store without any table, as a new file is.
    pub fn new() -> (store: Store)
        ensures
            store@ == (Tables { versions: None, events: None, settings: None }),
    {
        Store { versions: None, ledger: None, settings: None }
    }

    /// The store that holds the given tables.
    pub fn from_tables(
        versions: Option<Vec<u32>>,
        ledger: Option<Ledger>,
        settings: Option<Settings>,
    ) -> (store: Store)
        ensures
            store@.versions == match versions {
                Some(v) => Some(v@),
                None => None,
            },
            store@.events == match ledger {
                Some(l) => Some(l@),
                None => None,
            },
            store@.settings == match settings {
                Some(s) => Some(s@),
                None => None,
            },
    {
        Store { versions, ledger, settings }
    }

    /// The versions that were installed, where their table exists.
    pub fn versions(&self) -> (r: Option<&Vec<u32>>)
        ensures
            match r {
                Some(versions) => self@.versions == Some(versions@),
                None => self@.versions is None,
            },
    {
        self.versions.as_ref()
    }

    /// The event ledger, where it exists.
    pub fn ledger(&self) -> (r: Option<&Ledger>)
        ensures
            match r {
                Some(ledger) => self@.events == Some(ledger@),
                None => self@.events is None,
            },
    {
        self.ledger.as_ref()
    }

    /// The settings, where they exist.
    pub fn settings(&self) -> (r: Option<&Settings>)
        ensures
            match r {
                Some(settings) => self@.settings == Some(settings@),
                None => self@.settings is None,
            },
    {
        self.settings.as_ref()
    }

    /// The schema version of the store.
    pub fn schema_version(&self) -> (version: u32)
        ensures
            version == schema_version(self@),
    {
        match &self.versions {
            Some(versions) => {
                let n = versions.len();
                let mut best: u32 = 0;
                let mut i: usize = 0;
                while i < n
                    invariant
                        n == versions.len(),
                        i <= n,
                        best == greatest(versions@.take(i as int)),
                    decreases n - i,
                {
                    proof {
                        assert(versions@.take(i + 1).drop_last() =~= versions@.take(i as int));
                    }
                    if versions[i] > best {
                        best = versions[i];
                    }
                    i = i + 1;
                }
                proof {
                    assert(versions@.take(n as int) =~= versions@);
                }
                best
            },
            None => 0,
        }
    }

    /// Creates the table of schema versions and records version 0 in it.
    ///
    /// It fails, and changes nothing, when the table exists.
    pub fn initialise_db(&mut self) -> (r: Result<(), Error>)
        ensures
            r is Ok <==> old(self)@.versions is None,
            r is Ok ==> final(self)@ == bootstrapped(old(self)@),
            r is Err ==> r == Err::<(), Error>(Error::Migration { version: 0 }) && final(self)@
                == old(self)@,
    {
        if self.versions.is_some() {
            return Err(Error::Migration { version: 0 });
        }
        let mut versions: Vec<u32> = Vec::new();
        versions.push(0);
        self.versions = Some(versions);
        Ok(())
    }

    /// Applies the step that installs `version` and records the version.
    ///
    /// It fails, and changes nothing, when the step cannot be applied.
    pub fn apply_step(&mut self, version: u32) -> (r: Result<(), Error>)
        ensures
            r is Ok <==> step_applies(old(self)@, version as int),
            r is Ok ==> final(self)@ == after_step(old(self)@, version as int),
            r is Err ==> r == Err::<(), Error>(Error::Migration { version }) && final(self)@
                == old(self)@,
    {
        if self.versions.is_none() {
            return Err(Error::Migration { version });
        }
        if version == 1 {
            if self.ledger.is_some() {
                return Err(Error::Migration { version });
            }
            self.ledger = Some(Ledger::new());
        } else if version == 2 {
            if self.settings.is_some() {
                return Err(Error::Migration { version });
            }
            let mut settings = Settings::new();
            let seeded = settings.insert("default_weight", DEFAULT_WEIGHT);
            self.settings = Some(settings);
        } else {
            return Err(Error::Migration { version });
        }
        let mut versions = self.versions.take().unwrap();
        versions.push(version);
        self.versions = Some(versions);
        Ok(())
    }

    /// Brings the store to the latest schema version and returns the version
    /// that it is at.
    ///
    /// Where the table of schema versions is missing it is created first. Then
    /// each step above the store's version is applied, in increasing order. A
    /// step that fails ends the migration: the store stays as the steps before
    /// it left it.
    pub fn migrate(&mut self) -> (r: Result<u32, Error>)
        ensures
            (final(self)@, r) == migrated(old(self)@),
    {
        if self.versions.is_none() {
            let _ = self.initialise_db();
        }
        let ghost start = self@;
        let current = self.schema_version();
        let mut version: u32 = current;
        while version < LATEST_VERSION
            invariant
                start == bootstrapped(old(self)@),
                current == schema_version(start),
                self@.versions is Some,
                version == schema_version(self@),
                migrated_from(self@, version + 1) == migrated_from(start, current + 1),
            decreases LATEST_VERSION - version,
        {
            let ghost before = self@;
            version = version + 1;
            match self.apply_step(version) {
                Ok(()) => {},
                Err(e) => {
                    return Err(e);
                },
            }
            proof {
                assert(self@.versions->0.drop_last() =~= before.versions->0);
            }
        }
        Ok(version)
    }

    /// The value of the setting `name`; `default` where the store has no such
    /// setting or no settings at all.
    pub fn setting(&self, name: &str, default: u32) -> (value: u32)
        ensures
            value == setting_of(self@, name@, default),
    {
        match &self.settings {
            Some(settings) => settings.get(name, default),
            None => default,
        }
    }

    /// Adds the option `name` with the default weight of the moment. A later
    /// change of the default weight does not touch the option.
    ///
    /// It fails, and changes nothing, when there is no ledger or the weight of
    /// `name` would no longer be representable.
    pub fn add(&mut self, name: &str) -> (r: Result<(), Error>)
        ensures
            (final(self)@, r) == added(old(self)@, name@),
    {
        let weight = self.setting("default_weight", DEFAULT_WEIGHT);
        match &mut self.ledger {
            Some(ledger) => ledger.add(name, weight),
            None => Err(Error::Write),
        }
    }

    /// Takes the option `name` out of the active options. Its events stay, and
    /// one more cancels their sum.
    ///
    /// It fails, and changes nothing, when there is no ledger.
    pub fn kill(&mut self, name: &str) -> (r: Result<(), Error>)
        ensures
            (final(self)@, r) == killed(old(self)@, name@),
    {
        match &mut self.ledger {
            Some(ledger) => {
                ledger.kill(name);
                Ok(())
            },
            None => Err(Error::Query),
        }
    }

    /// Changes the weight that new options get.
    ///
    /// It fails, and changes nothing, when the store has no default weight to change.
    pub fn default(&mut self, weight: u32) -> (r: Result<(), Error>)
        ensures
            (final(self)@, r) == defaulted(old(self)@, weight),
    {
        match &mut self.settings {
            Some(settings) => settings.set("default_weight", weight),
            None => Err(Error::Write),
        }
    }

    /// Brings every active option to the weight `target`; the others are left alone.
    ///
    /// It fails, and changes nothing, when there is no ledger.
    pub fn reset(&mut self, target: u32) -> (r: Result<(), Error>)
        ensures
            (final(self)@, r) == reset_to(old(self)@, target),
    {
        match &mut self.ledger {
            Some(ledger) => {
                ledger.reset(target);
                Ok(())
            },
            None => Err(Error::Write),
        }
    }

    /// The active options with their weights, by ascending name.
    ///
    /// It fails when there is no ledger.
    pub fn list(&self) -> (r: Result<Vec<OptionWeight>, Error>)
        ensures
            match self@.events {
                Some(events) => r matches Ok(listing) && weights_of(listing@) == active_listing(
                    events,
                ),
                None => r == Err::<Vec<OptionWeight>, Error>(Error::Query),
            },
    {
        match &self.ledger {
            Some(ledger) => Ok(ledger.active_weights()),
            None => Err(Error::Query),
        }
    }

    /// Draws one active option with probability proportional to its weight.
    ///
    /// It fails with `EmptySelection` when no option is active, and with `Query`
    /// when there is no ledger or the weights add up to more than a draw can cover.
    pub fn choose_option(&self) -> (r: Result<String, Error>)
        ensures
            match self@.events {
                Some(events) => is_outcome_of_choice(active_listing(events), r),
                None => r == Err::<String, Error>(Error::Query),
            },
    {
        match &self.ledger {
            Some(ledger) => {
                let listing = ledger.active_weights();
                choose_weighted(&listing)
            },
            None => Err(Error::Query),
        }
    }

    /// Records `message` under `name` without changing its weight.
    ///
    /// It fails, and changes nothing, when there is no ledger.
    pub fn log(&mut self, name: &str, message: &str) -> (r: Result<(), Error>)
        ensures
            (final(self)@, r) == logged(old(self)@, name@, message@),
    {
        match &mut self.ledger {
            Some(ledger) => {
                ledger.log(name, message);
                Ok(())
            },
            None => Err(Error::Write),
        }
    }

    /// Raises the weight of `name` by one.
    ///
    /// It fails, and changes nothing, when there is no ledger or the weight of
    /// `name` would no longer be representable.
    pub fn like(&mut self, name: &str, message: Option<&str>) -> (r: Result<(), Error>)
        ensures
            (final(self)@, r) == liked(old(self)@, name@, slice_text_of(message)),
    {
        match &mut self.ledger {
            Some(ledger) => ledger.like(name, message),
            None => Err(Error::Write),
        }
    }

    /// Lowers the weight of `name` by one.
    ///
    /// It fails, and changes nothing, when there is no ledger or the weight of
    /// `name` would no longer be representable.
    pub fn hate(&mut self, name: &str, message: Option<&str>) -> (r: Result<(), Error>)
        ensures
            (final(self)@, r) == hated(old(self)@, name@, slice_text_of(message)),
    {
        match &mut self.ledger {
            Some(ledger) => ledger.hate(name, message),
            None => Err(Error::Write),
        }
    }

    /// Brings the weight of `name` to `target` if the option is active. An
    /// option that is not active stays as it is: setting does not revive it.
    ///
    /// It fails, and changes nothing, when there is no ledger.
    pub fn set(&mut self, name: &str, message: Option<&str>, target: u32) -> (r: Result<
        (),
        Error,
    >)
        ensures
            (final(self)@, r) == set_to(old(self)@, name@, slice_text_of(message), target),
    {
        match &mut self.ledger {
            Some(ledger) => {
                ledger.set(name, message, target);
                Ok(())
            },
            None => Err(Error::Write),
        }
    }

    /// Carries out one command: brings the store to the latest schema version,
    /// then does what the command asks.
    ///
    /// No event that the store held is changed or removed by it.
    pub fn run(&mut self, command: &Command) -> (r: Result<Outcome, Error>)
        ensures
            ran(old(self)@, command@, final(self)@, r),
            ledger_kept(old(self)@, final(self)@),
    {
        match self.migrate() {
            Ok(_) => {},
            Err(e) => {
                proof {
                    lemma_ledger_only_grows(old(self)@, command@, self@, Err(e));
                }
                return Err(e);
            },
        }
        let done: Result<(), Error> = match command {
            Command::Add { name } => self.add(name.as_str()),
            Command::Kill { name } => self.kill(name.as_str()),
            Command::Default { weight } => self.default(*weight),
            Command::Reset { target } => {
                let target = match target {
                    Some(target) => *target,
                    None => self.setting("default_weight", DEFAULT_WEIGHT),
                };
                self.reset(target)
            },
            Command::List => {
                let r = match self.list() {
                    Ok(listing) => Ok(Outcome::Listed(listing)),
                    Err(e) => Err(e),
                };
                proof {
                    lemma_ledger_only_grows(old(self)@, command@, self@, r);
                }
                return r;
            },
            Command::Choose => {
                let r = match self.choose_option() {
                    Ok(name) => Ok(Outcome::Chosen(name)),
                    Err(e) => Err(e),
                };
                proof {
                    lemma_ledger_only_grows(old(self)@, command@, self@, r);
                }
                return r;
            },
            Command::Log { name, text } => self.log(name.as_str(), text.as_str()),
            Command::Like { name, message } => self.like(name.as_str(), borrowed(message)),
            Command::Hate { name, message } => self.hate(name.as_str(), borrowed(message)),
            Command::Assign { name, weight, message } => self.set(
                name.as_str(),
                borrowed(message),
                *weight,
            ),
        };
        let r = match done {
            Ok(()) => Ok(Outcome::Done),
            Err(e) => Err(e),
        };
        proof {
            lemma_ledger_only_grows(old(self)@, command@, self@, r);
        }
        r
    }
}

/// An optional text, borrowed.
fn borrowed(text: &Option<String>) -> (r: Option<&str>)
    ensures
        slice_text_of(r) == text_of(*text),
{
    match text {
        Some(text) => Some(text.as_str()),
        None => None,
    }
}

} // verus!
