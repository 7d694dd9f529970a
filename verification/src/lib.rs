//! A per-event transformation stage for a streaming observability pipeline.
//!
//! The stage runs a user-supplied script against every log, metric, and trace
//! event, mutating or replacing the event, and routes the result to one of
//! several named outputs based on a success/failure policy. The script
//! language's compiler and runtime are opaque collaborators: this crate
//! covers the static schema-propagation algorithm that predicts the shapes of
//! events leaving the stage, and the per-event dispatch state machine that
//! decides whether to clone, mutate, drop, or reroute each event.

pub mod config;
pub mod engine;
pub mod event;
pub mod kind;
pub mod projection;
pub mod schema;
pub mod value;

pub use kind::Kind;
pub use config::{BuildError, MetricTagValues, RemapConfig, SourceInput, TimeZone};
pub use engine::{push_default, push_dropped, ExpressionError, Note, Program, Remap, Terminate, TransformContext, TransformOutputsBuf, VrlRunner, VrlTarget};
pub use event::{Event, EventMetadata, LogEvent, Metric, TraceEvent};
pub use projection::{DataType, FinalTypeState, TransformOutput};
pub use schema::{Definition, FieldPath, LogNamespace};
pub use value::Value;
