//! Task shutdown bookkeeping, asynchronous file requests and the byte-stream
//! interface of a callback-driven I/O stack.
//!
//! The crate holds the decisions and none of the blocking: a caller performs
//! the locking, the system calls and the posting that the functions here ask
//! for, and hands the outcomes back.

pub mod blocking;
pub mod file_calls;
pub mod file_operations;
pub mod file_posix;
pub mod file_runs;
pub mod file_system;
pub mod stream_socket;
pub mod task_traits;
pub mod thread_pool;

pub use crate::file_posix::FilePosix;
pub use crate::stream_socket::StreamSocket;
pub use crate::task_traits::{TaskPriority, TaskShutdownBehavior, TaskTraits, ThreadPolicy};
pub use crate::thread_pool::task_tracker::TaskTracker;
