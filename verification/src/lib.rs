//! Management of scheduled service/timer unit pairs: a persisted record store
//! with a verified line-oriented codec, pure renderers for the two unit files,
//! an allow-list gate for lifecycle verbs, and planners that turn a requested
//! operation into the exact files to write and commands to issue.
pub mod codec;
pub mod lifecycle;
pub mod orchestrate;
pub mod record;
pub mod render;
pub mod store;
pub mod text;

pub use record::TaskRecord;
pub use record::TaskRecordModel;
