//! What a client asks of the server.

use std::path::PathBuf;
use std::time::Duration;
use vstd::prelude::*;
use vstd::std_specs::convert::FromSpecImpl;
use crate::template::Template;

verus! {

/// Asks for a new queue.
#[derive(Debug)]
pub struct CreateQueue {
    pub name: String,
    pub max_parallel: usize,
    pub output: Option<PathBuf>,
    pub timeout: Option<Duration>,
    pub dir: Option<PathBuf>,
    pub template: Option<Template>,
}

/// Asks for a queue to be removed.
#[derive(Debug)]
pub struct RemoveQueue {
    pub name: String,
}

/// Sends a task to a queue.
#[derive(Debug)]
pub struct Send {
    pub name: String,
    pub timeout: Option<Duration>,
    pub dir: Option<PathBuf>,
    pub args: Vec<String>,
}

/// Asks for the tasks that wait in a queue.
#[derive(Debug)]
pub struct ListTasks {
    pub name: String,
}

/// A request.
#[derive(Debug)]
pub enum Request {
    StopServer,
    CreateQueue(CreateQueue),
    RemoveQueue(RemoveQueue),
    Send(Send),
    ListQueues,
    ListTasks(ListTasks),
}

impl From<CreateQueue> for Request {
    fn from(req: CreateQueue) -> (r: Request) {
        Request::CreateQueue(req)
    }
}

impl FromSpecImpl<CreateQueue> for Request {
    open spec fn obeys_from_spec() -> bool {
        true
    }

    open spec fn from_spec(req: CreateQueue) -> Request {
        Request::CreateQueue(req)
    }
}

impl From<RemoveQueue> for Request {
    fn from(req: RemoveQueue) -> (r: Request) {
        Request::RemoveQueue(req)
    }
}

impl FromSpecImpl<RemoveQueue> for Request {
    open spec fn obeys_from_spec() -> bool {
        true
    }

    open spec fn from_spec(req: RemoveQueue) -> Request {
        Request::RemoveQueue(req)
    }
}

impl From<Send> for Request {
    fn from(req: Send) -> (r: Request) {
        Request::Send(req)
    }
}

impl FromSpecImpl<Send> for Request {
    open spec fn obeys_from_spec() -> bool {
        true
    }

    open spec fn from_spec(req: Send) -> Request {
        Request::Send(req)
    }
}

impl From<ListTasks> for Request {
    fn from(req: ListTasks) -> (r: Request) {
        Request::ListTasks(req)
    }
}

impl FromSpecImpl<ListTasks> for Request {
    open spec fn obeys_from_spec() -> bool {
        true
    }

    open spec fn from_spec(req: ListTasks) -> Request {
        Request::ListTasks(req)
    }
}

} // verus!
