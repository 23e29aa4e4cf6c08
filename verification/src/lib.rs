//! The core of a DNS query load generator, free of I/O.
//!
//! A run fans out over a number of workers. Each worker owns a socket and
//! drives it through a fixed number of request/response cycles; every step of
//! a cycle is reported as a [`status::WorkerStatus`], and one aggregator folds
//! the reports of all workers into running totals.
//!
//! This crate holds the decisions of such a run and proves them: which
//! transaction id a query carries, which lines of a domain list enter the
//! pool, what the bytes of a query are, how a reply is matched to the query
//! it answers, which status each step reports, and when the run is over.
//! Sockets, threads, clocks and the command line stay with the caller.

pub mod ids;
pub mod status;
pub mod codec;
pub mod domains;
pub mod aggregator;
pub mod worker;
pub mod run;
pub mod verbosity;
