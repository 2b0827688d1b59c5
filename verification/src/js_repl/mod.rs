//! JavaScript that the model runs in sessions of its own.

pub mod args;
pub mod stderr_tail;
pub mod exec_buffer;
pub mod diagnostics;
pub mod node;
pub mod messages;
pub mod manager;
pub mod ids;
pub mod kernel;
pub mod sessions;
pub mod handlers;
