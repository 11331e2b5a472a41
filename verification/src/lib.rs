//! Core library of a Solana validator monitor.
//!
//! The library holds the logic of the monitor: derivation of metrics from
//! fetched network data (skip rate, epoch arithmetic, slot-to-wallclock
//! projection, time-delta formatting), scanning a block's transactions for
//! voting activity, construction of a validator's leader schedule, and a
//! bounded append-only log of request/response events.  Network I/O itself is
//! left to the caller: every function here works on plain values that the
//! caller fetched, so each one is deterministic and carries a contract.

pub mod decimal;
pub mod logs;
pub mod solana;
pub mod tabs;
pub mod textops;
pub mod updater;
pub mod utils;
