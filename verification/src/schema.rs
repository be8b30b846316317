//! The tables of a store, its schema version, and what a migration makes of it.

use vstd::prelude::*;
use crate::error::Error;
use crate::events::Event;

verus! {

/// The schema version that the migrator brings a store to.
pub const LATEST_VERSION: u32 = 2;

/// The weight of a new option where the settings do not say otherwise.
pub const DEFAULT_WEIGHT: u32 = 5;

/// The mathematical content of a store: each table, where it exists.
pub struct Tables {
    /// The versions that were installed, in the order of their installation.
    pub versions: Option<Seq<u32>>,
    /// The events, oldest first.
    pub events: Option<Seq<Event>>,
    /// The settings.
    pub settings: Option<Map<Seq<char>, u32>>,
}

/// The greatest of the versions, 0 when there is none.
pub open spec fn greatest(versions: Seq<u32>) -> u32
    decreases versions.len(),
{
    if versions.len() == 0 {
        0
    } else if greatest(versions.drop_last()) >= versions.last() {
        greatest(versions.drop_last())
    } else {
        versions.last()
    }
}

/// The schema version of a store: the greatest version installed, 0 before any was.
pub open spec fn schema_version(tables: Tables) -> u32 {
    match tables.versions {
        Some(versions) => greatest(versions),
        None => 0,
    }
}

/// The store with the table of schema versions, created with version 0 where it was missing.
pub open spec fn bootstrapped(tables: Tables) -> Tables {
    match tables.versions {
        Some(_) => tables,
        None => Tables { versions: Some(seq![0u32]), ..tables },
    }
}

/// The settings that a new settings table holds.
pub open spec fn seeded_settings() -> Map<Seq<char>, u32> {
    Map::<Seq<char>, u32>::empty().insert("default_weight"@, DEFAULT_WEIGHT)
}

/// Whether the step that installs `version` can be applied: the step is known,
/// the table of schema versions exists and the table that the step creates does not.
pub open spec fn step_applies(tables: Tables, version: int) -> bool {
    &&& tables.versions is Some
    &&& if version == 1 {
        tables.events is None
    } else if version == 2 {
        tables.settings is None
    } else {
        false
    }
}

/// The store after the step that installs `version`: version 1 creates the
/// event ledger, version 2 creates the settings and seeds the default weight;
/// each records its version.
pub open spec fn after_step(tables: Tables, version: int) -> Tables {
    if version == 1 {
        Tables {
            versions: Some(tables.versions->0.push(1u32)),
            events: Some(Seq::<Event>::empty()),
            ..tables
        }
    } else if version == 2 {
        Tables {
            versions: Some(tables.versions->0.push(2u32)),
            settings: Some(seeded_settings()),
            ..tables
        }
    } else {
        tables
    }
}

/// The store after the steps from `version` up to the latest, applied in
/// increasing order until one fails, and the failure if there was one.
pub open spec fn migrated_from(tables: Tables, version: int) -> (Tables, Option<Error>)
    decreases LATEST_VERSION + 1 - version,
{
    if version > LATEST_VERSION {
        (tables, None)
    } else if !step_applies(tables, version) {
        (tables, Some(Error::Migration { version: version as u32 }))
    } else {
        migrated_from(after_step(tables, version), version + 1)
    }
}

/// What the migrator makes of a store, and what it returns: the schema
/// version reached, or the failure of the first step that could not be applied.
pub open spec fn migrated(tables: Tables) -> (Tables, Result<u32, Error>) {
    let start = bootstrapped(tables);
    let (end, failure) = migrated_from(start, schema_version(start) + 1);
    (
        end,
        match failure {
            None => Ok(schema_version(end)),
            Some(e) => Err(e),
        },
    )
}

/// No version is greater than the greatest.
pub proof fn lemma_greatest_bounds(versions: Seq<u32>, i: int)
    requires
        0 <= i < versions.len(),
    ensures
        versions[i] <= greatest(versions),
    decreases versions.len(),
{
    if i < versions.len() - 1 {
        lemma_greatest_bounds(versions.drop_last(), i);
    }
}

/// Once the steps from the version after the store's own are done, doing
/// the steps from the version after the store's own changes nothing more,
/// and ends as they did.
proof fn lemma_steps_settle(tables: Tables, version: int)
    requires
        tables.versions is Some,
        version == schema_version(tables) + 1,
    ensures
        migrated_from(tables, version).0.versions is Some,
        migrated_from(
            migrated_from(tables, version).0,
            schema_version(migrated_from(tables, version).0) + 1,
        ) == migrated_from(tables, version),
    decreases LATEST_VERSION + 1 - version,
{
    if version <= LATEST_VERSION && step_applies(tables, version) {
        let next = after_step(tables, version);
        assert(next.versions->0.drop_last() =~= tables.versions->0);
        lemma_steps_settle(next, version + 1);
    }
}

/// Migrating a store that was just migrated changes nothing and returns what
/// the first migration returned: no step is applied again and no version is
/// recorded twice.
pub proof fn lemma_migration_idempotent(tables: Tables)
    ensures
        migrated(migrated(tables).0) == migrated(tables),
{
    let start = bootstrapped(tables);
    lemma_steps_settle(start, schema_version(start) + 1);
}

/// No version occurs twice among the versions installed.
pub open spec fn distinct_versions(tables: Tables) -> bool {
    match tables.versions {
        Some(versions) => versions.no_duplicates(),
        None => true,
    }
}

/// The steps from the version after the store's own record no version that
/// the store holds already.
proof fn lemma_steps_keep_versions_distinct(tables: Tables, version: int)
    requires
        distinct_versions(tables),
        tables.versions is Some,
        version == schema_version(tables) + 1,
    ensures
        distinct_versions(migrated_from(tables, version).0),
    decreases LATEST_VERSION + 1 - version,
{
    if version <= LATEST_VERSION && step_applies(tables, version) {
        let next = after_step(tables, version);
        let before = tables.versions->0;
        let after = next.versions->0;
        assert(after.drop_last() =~= before);
        assert forall|i: int, j: int|
            0 <= i < after.len() && 0 <= j < after.len() && i != j implies after[i]
            != after[j] by {
            if i < before.len() {
                lemma_greatest_bounds(before, i);
            }
            if j < before.len() {
                lemma_greatest_bounds(before, j);
            }
        }
        lemma_steps_keep_versions_distinct(next, version + 1);
    }
}

/// A migration records no version twice: where the versions of a store are
/// distinct before it, they are distinct after it.
pub proof fn lemma_migration_keeps_versions_distinct(tables: Tables)
    requires
        distinct_versions(tables),
    ensures
        distinct_versions(migrated(tables).0),
{
    let start = bootstrapped(tables);
    lemma_steps_keep_versions_distinct(start, schema_version(start) + 1);
}

} // verus!
