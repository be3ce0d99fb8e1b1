//! A small distributed task framework.
//!
//! Clients put objects and submit tasks; the head node stores the objects and schedules the tasks;
//! workers lease tasks, run them and report back.
pub mod actors;
pub mod client;
pub mod clock;
pub mod codec;
pub mod error;
pub mod head;
pub mod ids;
pub mod laws;
pub mod maps;
pub mod messages;
pub mod object_store;
pub mod refs;
pub mod runtime;
pub mod scheduler;
pub mod string_table;
pub mod task;
pub mod text;
pub mod uuid_text;
pub mod worker;
