//! DELILA-RS: data acquisition pipeline components for nuclear physics
//! experiments — the verified control and bookkeeping core.

pub mod command;
pub mod text;
pub mod state;
pub mod header;
pub mod queue_accounting;
pub mod metrics;
pub mod map_totals;
pub mod merger;
pub mod data_sink;
pub mod emulator;
pub mod config;
pub mod common;
pub mod monitor;
pub mod chars;
pub mod amax;
pub mod cli;
pub mod startup;
