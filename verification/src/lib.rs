//! A task list kept as one JSON document: the task record, the rules by which
//! records are created, found, edited, completed, removed and searched, and the
//! mapping between a list of records and its document.

pub mod calendar;
pub mod codec;
pub mod identity;
pub mod json;
pub mod store;
pub mod task;
pub mod text;

pub use crate::codec::{decode, encode};
pub use crate::store::TaskStore;
pub use crate::task::{parse_id, Assignees, Field, Priority, Status, Task, TaskError, DATE_FORMAT};
