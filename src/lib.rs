//! A polling pipeline for stock quotes: a scheduler of fetch windows, a
//! fetch stage, an aggregation stage that derives rolling statistics, a
//! persistence sink, and a shutdown coordinator. Every decision these stages
//! make is a verified function from plain values to plain values; timers,
//! network access and files are left to the caller.
pub mod common;
pub mod signals;
pub mod aggregate;
pub mod schedule;
pub mod fetch;
pub mod persist;
pub mod shutdown;
pub mod config;
pub mod text;
