//! Batching-and-acknowledgment engine for a queue-to-columnar-store loader.
//!
//! Events pulled from a durable message queue are routed by topic to a
//! destination table, accumulated into per-topic batches, and flushed to the
//! sink in bulk. Every event's acknowledgment handle receives exactly one
//! terminal disposition: acknowledge on durable insert, negative-acknowledge
//! on a transient sink failure, terminal-reject on a permanent one or on an
//! unroutable topic.

mod batch;
mod classify;
mod config;
mod ingest;
mod route;
mod sink;

pub use batch::BatchEntry;
pub use batch::Batcher;
pub use batch::BatcherEvent;
pub use batch::Disposition;
pub use batch::FlushJob;
pub use batch::Resolution;
pub use batch::SinkResult;
pub use batch::SubjectBatch;
pub use batch::resolve_flush;
pub use classify::contains_substring;
pub use classify::is_permanent_ch_error;
pub use config::AppConfig;
pub use config::BatcherConfig;
pub use config::ClickHouseConfig;
pub use config::DiscardPolicyDef;
pub use config::LogFormat;
pub use config::NatsConfig;
pub use config::NatsStreamConfig;
pub use config::RetentionPolicyDef;
pub use config::StorageTypeDef;
pub use config::TracingConfig;
pub use config::should_create_stream;
pub use config::worker_count;
pub use ingest::IngestDecision;
pub use ingest::ingest_decision;
pub use ingest::undeliverable_disposition;
pub use route::Route;
pub use route::route_for_subject;
pub use route::str_eq;
pub use sink::build_insert_query;
pub use sink::concat_rows;
pub use sink::ping_response_ok;
