//! The state of a desktop front end for BitTorrent downloads.
//!
//! [`tasks`] keeps the list of download tasks and what each of them is doing, [`frame`]
//! turns it into what the window shows and takes over what the user asks for, and
//! [`listener`] decides on the snapshots that a running download reports; [`history`] follows
//! tasks and downloads over time. A snapshot is a JSON document ([`json`], [`snapshot`]) that
//! updates the [`progress`] of its task. Amounts are shown by [`sizes`] and [`percent`], which
//! compute with integers what double precision ([`double`]) would give. [`startup`] holds the
//! settings to start with.
pub mod decimal;
pub mod double;
pub mod frame;
pub mod history;
pub mod json;
pub mod listener;
pub mod paths;
pub mod percent;
pub mod progress;
pub mod sizes;
pub mod snapshot;
pub mod startup;
pub mod tasks;
