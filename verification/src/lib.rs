//! A background job dispatcher: named handlers, a queue of work items, and a
//! bounded number of retries for work that fails.
//!
//! The crate holds the rules of the dispatcher and proves them: what a work
//! item is, how handlers are registered, and what the worker does with each
//! item it takes from the queue. Threads and channels are left to the caller,
//! who feeds the worker one item at a time and carries out what it decides.

pub mod error;
pub mod message;
pub mod model;
pub mod registry;
pub mod text;
pub mod worker;

pub use error::Error;
pub use message::{Message, MessageView, DEFAULT_RETRIES, EXIT};
pub use registry::InitialConfig;
pub use worker::{Action, ActionView};
