//! An in-memory task store with verified invariants: unique, monotonically
//! assigned ids, atomic multi-field updates, and listings in ascending id order.

pub mod error;
pub mod gateway;
pub mod laws;
pub mod shared;
pub mod store;
pub mod task;

pub use error::{AppError, ErrorKind};
pub use gateway::{affected_reply, Reply, Request};
pub use shared::TodoList;
pub use store::RAMTodoList;
pub use task::Task;
