//! Named task queues with bounded parallelism: the rules of the queue daemon,
//! stated as contracts and proved.

pub mod args;
pub mod client;
pub mod common;
pub mod connection;
pub mod daemon;
pub mod duration;
pub mod ffi;
pub mod output;
pub mod path;
pub mod process;
pub mod queue;
pub mod request;
pub mod response;
pub mod server;
pub mod shell;
pub mod sync;
pub mod template;
pub mod templates;
pub mod text;
pub mod utils;
pub mod worker;
