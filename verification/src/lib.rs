//! An observability service as a library: observations of tenants, the queue through which they come
//! in, traces that are taken in as observations, investigations on them, usage and what it costs,
//! and the rules by which requests are let in and answered.
pub mod access;
pub mod attribute;
pub mod billing;
pub mod bounded;
pub mod cli;
pub mod completion;
pub mod durable;
pub mod identity;
pub mod investigation;
pub mod json;
pub mod jsonl;
pub mod metrics;
pub mod number;
pub mod observation;
pub mod ordered;
pub mod otlp;
pub mod provider;
pub mod query;
pub mod reply;
pub mod repository;
pub mod runtime;
pub mod select;
pub mod service;
pub mod sorting;
pub mod storage;
pub mod table;
pub mod text;
pub mod trace;
pub mod usage;
pub mod wire;
pub mod worker;
