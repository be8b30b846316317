//! An append-only ledger of named options and their weights, with weighted
//! random selection among the options that are active.
//!
//! Every change of an option's weight is an event that is appended to the
//! ledger and never touched again. The weight of an option is the sum of the
//! deltas of its events; an option is active while its weight is positive.
//!
//! - [`events`]: the events and the weight that they give each option.
//! - [`ledger`]: the ledger and the operations that append to it.
//! - [`tally`]: adding up a ledger in one pass.
//! - [`weights`]: the listing of the active options.
//! - [`names`]: the order in which options are listed.
//! - [`select`]: weighted selection.
//! - [`settings`]: the settings store.
//! - [`schema`]: the tables of a store and its migration.
//! - [`effects`]: what each operation makes of a store.
//! - [`store`]: the store itself.
//! - [`command`], [`parse`]: commands and the words that make them.
//! - [`error`]: the failures.
//!
//! A store lives in memory. Reading it from a database and writing back what
//! a command has appended is left to the program that uses the engine.

pub mod command;
pub mod effects;
pub mod error;
pub mod events;
pub mod ledger;
pub mod names;
pub mod parse;
pub mod schema;
pub mod select;
pub mod settings;
pub mod store;
pub mod tally;
pub mod weights;
