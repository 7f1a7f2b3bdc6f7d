//! # Cloudberry Database (CDB) Support
//!
//! Support for Cloudberry Database specific functionality: what is sent when a command is
//! dispatched to the segments of the cluster, and what is made of their answers.

pub mod c_string;
pub mod dispatch;
pub mod error;
pub mod flags;
pub mod laws;
pub mod managed;
pub mod pg_result;
pub mod results;
pub mod text;

pub use crate::c_string::NulError;
pub use crate::dispatch::{
    cdb_dispatch_command, cdb_dispatch_commands, dispatch_if_coordinator, dispatched, get_gp_role,
    get_int64_sum_from_segments, is_coordinator, BatchStep, DispatchBatch, DispatchRequest,
    PendingDispatch,
};
pub use crate::error::DispatchError;
pub use crate::flags::DispatchFlags;
pub use crate::managed::ManagedCdbPgResults;
pub use crate::pg_result::{ExecStatusType, PgField, PgResult};
pub use crate::results::{CdbPgResults, CdbResultIterator};
