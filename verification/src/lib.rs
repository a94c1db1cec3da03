//! Keeps an in-process listing of a directory tree in step with the file
//! system: the decisions of a watch-and-snapshot pipeline, with proofs.
//!
//! Nothing here touches the file system, a clock or a channel. A driver
//! performs that work and reports what happened; the types of this crate
//! decide what to do next and say, in their contracts, what they decide.
//!
//! - [`scanner`] makes a listing of what a walk of the tree reported.
//! - [`watcher`] coalesces bursts of raw change notifications.
//! - [`pipeline`] is the state machine that ties the two together.
//! - [`trace`] states what holds of whole runs of the pipeline.
//! - [`sink`] is the consumer's side: a model brought up to date.

pub mod file_details;
pub mod file_object;
pub mod integer_object;
pub mod pipeline;
pub mod scanner;
pub mod sink;
pub mod trace;
pub mod update;
pub mod watcher;

pub use file_details::FileDetails;
pub use file_object::FileObject;
pub use integer_object::IntegerObject;
pub use pipeline::{Action, Directive, Event, Phase, PipelineState, Report, WatchPipeline};
pub use scanner::{scan, ScanError, WalkItem};
pub use sink::apply;
pub use update::Update;
pub use watcher::{ChangeWatcher, Patience, Verdict, DEFAULT_WINDOW_MS};
