//! Receiver-side logic of an OpenTelemetry logger for coding agents.

pub mod agent;
pub mod aggregator;
pub mod cli;
pub mod clock;
pub mod config;
pub mod double;
pub mod format;
pub mod forward;
pub mod grpc;
pub mod http;
pub mod jsonl;
pub mod number;
pub mod otlp;
pub mod path;
pub mod proto;
pub mod server;
pub mod sink;
pub mod sorted;
pub mod table;
pub mod text;
