//! Host telemetry: a time-windowed store of samples of system vitals, a
//! threshold alert engine over the same tables, and readers of what the
//! diagnostic commands of the platform print.
//!
//! The store and the engine hold their tables in memory; what they state of
//! an operation, they state over the content of the tables before and
//! after it. Figures that are fractions elsewhere are held here in
//! thousandths, as whole numbers.
//!
//! - `records`, `database`, `loading`, `store`, `csv`, `export`, `commands`:
//!   the telemetry store.
//! - `alerts`, `engine`: the alert rules and their history.
//! - `laws`: what holds of several operations together.
//! - `diagnostics`, `ping`, `traceroute`, `connections`: the readers of
//!   command output, for the two dialects.
//! - `host`, `gpu`, `processes`: descriptions of the host.
//! - `text`, `numbers`, `time`, `ids`: what the others are built on.

pub mod alerts;
pub mod commands;
pub mod connections;
pub mod csv;
pub mod database;
pub mod diagnostics;
pub mod engine;
pub mod export;
pub mod gpu;
pub mod host;
pub mod ids;
pub mod laws;
pub mod loading;
pub mod numbers;
pub mod ping;
pub mod processes;
pub mod records;
pub mod store;
pub mod text;
pub mod time;
pub mod traceroute;
