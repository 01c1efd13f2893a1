//! Footprint order-flow library: exchange-event 1m clock, per-venue integrity,
//! live gates and the decisions around them.
#![allow(unused_imports)]

pub mod text;
pub mod lex;
pub mod domain;
pub mod clock;
pub mod book;
pub mod footprint;
pub mod context;
pub mod exec;
pub mod ingest;
pub mod ops;
pub mod calibrate;
pub mod cli;
