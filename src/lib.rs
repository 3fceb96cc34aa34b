//! Lifecycle of named event-log sources and structured emission through them.
//!
//! The operating system's registry and event-log calls are made by the
//! application shell; this library holds the logic around them: how a source
//! is named in the configuration store, how text is handed to the facility,
//! how store status codes become errors, and in-memory counterparts of both
//! facilities on which the lifecycle laws are proved.
use vstd::prelude::*;

pub mod error;
pub mod logger;
pub mod path;
pub mod record;
pub mod store;
pub mod wide;

pub use error::{
    check_status, open_status_exists, StoreError, StoreOp, ERROR_ACCESS_DENIED,
    ERROR_FILE_NOT_FOUND, ERROR_SUCCESS,
};
pub use logger::{
    write_event, EmitError, EventFacility, EventLogger, LogEntry, WriteError, EVENT_TYPE_ERROR,
    EVENT_TYPE_INFORMATION, EVENT_TYPE_WARNING,
};
pub use path::{build_source_registry_path, is_valid_identifier, EVENT_LOG_ROOT, PATH_SEPARATOR};
pub use record::{
    emit_record, entry_text, task_record, TaskExecutionLog, Timestamp, DEFAULT_RECORD_LEVEL,
    SERIALIZATION_PLACEHOLDER,
};
pub use store::{create_event_source, delete_event_source, source_exists, ConfigStore};
pub use wide::to_wide;

verus! {

/// Log group under which the agent's sources are kept.
pub const COMPANY_NAME: &'static str = "Infopercept";

/// Source name of the agent itself.
pub const IVS_AGENT_NAME: &'static str = "IvsAgent";

} // verus!
