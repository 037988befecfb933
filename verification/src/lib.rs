//! A load-generation engine: it dispatches a fixed number of HTTP requests
//! under a concurrency ceiling, folds the per-request outcomes into an
//! accumulator and derives latency and throughput statistics from it.
//!
//! The library decides and computes; sending requests, awaiting them and
//! printing reports is left to the program built around it.

pub mod accumulator;
pub mod admission;
pub mod auth;
pub mod config;
pub mod error;
pub mod header;
pub mod histogram;
pub mod outcome;
pub mod percentile;
pub mod phase;
pub mod rates;
pub mod requestbuilder;
pub mod saturator;
pub mod summary;
pub mod text;

pub use accumulator::{ResultAccumulator, StatusCount};
pub use admission::AdmissionController;
pub use auth::{AuthMethods, OAuth2Config};
pub use config::{Config, HttpMethods};
pub use error::SetupError;
pub use header::CustomHeaders;
pub use histogram::{histogram, HistogramBucket};
pub use outcome::{Outcome, ResponseMeta, StatusLabel, TransportError};
pub use percentile::{average_latency, calculate_percentiles, Percentiles};
pub use phase::{Phase, PhaseController, Step};
pub use requestbuilder::{create_builder, Authorization, RequestDescriptor, RequestHeader};
pub use saturator::{BuiltClient, ConnSaturator};
pub use summary::{summarize, SummaryStatistics};
