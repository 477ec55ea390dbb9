//! Statistics parsing and Prometheus metric encoding for an `unbound`
//! DNS resolver telemetry exporter.
//!
//! The crate decodes the line-oriented `key=value` text emitted by the
//! resolver's remote-control interface into a typed [`Statistics`]
//! snapshot, and re-serialises a snapshot into the Prometheus text
//! exposition format.

pub mod bytes;
pub mod codes;
pub mod histogram;
pub mod metrics;
pub mod numbers;
pub mod parser;
pub mod statistics;
pub mod transport;

pub use crate::metrics::{observe_text, Measurement};
pub use crate::parser::{ParseError, Parser};
pub use crate::statistics::Statistics;
pub use crate::transport::{TextTransport, UdsSource, UdsTransport};
