//! A small record service: operations on single `Person` records and a
//! bulk-load pipeline that generates synthetic records and hands them to
//! batched, transactional writers.
//!
//! This library holds the service's logic; everything in it is verified.
//! Sockets, threads, the clock and the database are left to the program
//! that uses it. Where work alternates between the two, the library offers
//! a state machine: it says what to do next, the program does it and
//! reports what happened.
//!
//! - `model`: the `Person` record.
//! - `text`: characters, decimal numerals, scanning, splitting, joining.
//! - `data_generator`: the record factory.
//! - `data_inserter_with_tokio`: the pipeline's settings, its partition
//!   plan, and the order of one run.
//! - `handoff_queue`: the queue between generators and writers.
//! - `batch_writer`: the decisions of one writer.
//! - `pipeline`: what holds of a queue and its writers together, in every
//!   interleaving.
//! - `request`, `server`, `server_state`: requests, routing, responses and
//!   the stored persons.
//! - `config`: the configuration as plain values.

pub mod batch_writer;
pub mod config;
pub mod data_generator;
pub mod data_inserter_with_tokio;
pub mod handoff_queue;
pub mod model;
pub mod pipeline;
pub mod request;
pub mod server;
pub mod server_state;
pub mod text;
