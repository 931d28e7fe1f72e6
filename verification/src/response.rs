//! What the server answers.

use vstd::prelude::*;
use vstd::std_specs::convert::FromSpecImpl;

verus! {

/// The answer that holds nothing, as a success.
pub fn ok<E>() -> (r: Result<Empty, E>)
    ensures
        r == Ok::<Empty, E>(Empty {  }),
{
    Ok(Empty {  })
}

/// An answer that holds nothing.
#[derive(Debug)]
pub struct Empty {}

/// A queue, by its name.
#[derive(Debug)]
pub struct Queue {
    pub name: String,
}

/// The queues that there are.
#[derive(Debug)]
pub struct ListQueues {
    pub queues: Vec<Queue>,
}

/// A task that waits: its command line, the program first.
#[derive(Debug)]
pub struct Task {
    pub args: Vec<String>,
}

/// The tasks that wait in a queue.
#[derive(Debug)]
pub struct ListTasks {
    pub tasks: Vec<Task>,
}

/// Any of the answers to a request that went well.
#[derive(Debug)]
pub enum Any {
    Empty(Empty),
    ListQueues(ListQueues),
    ListTasks(ListTasks),
}

/// The answers that `Any` can hold.
pub trait ToAny: Into<Any> {

}

impl ToAny for Empty {

}

impl ToAny for ListQueues {

}

impl ToAny for ListTasks {

}

impl From<Empty> for Any {
    fn from(resp: Empty) -> (r: Any) {
        Any::Empty(resp)
    }
}

impl FromSpecImpl<Empty> for Any {
    open spec fn obeys_from_spec() -> bool {
        true
    }

    open spec fn from_spec(resp: Empty) -> Any {
        Any::Empty(resp)
    }
}

impl From<ListQueues> for Any {
    fn from(resp: ListQueues) -> (r: Any) {
        Any::ListQueues(resp)
    }
}

impl FromSpecImpl<ListQueues> for Any {
    open spec fn obeys_from_spec() -> bool {
        true
    }

    open spec fn from_spec(resp: ListQueues) -> Any {
        Any::ListQueues(resp)
    }
}

impl From<ListTasks> for Any {
    fn from(resp: ListTasks) -> (r: Any) {
        Any::ListTasks(resp)
    }
}

impl FromSpecImpl<ListTasks> for Any {
    open spec fn obeys_from_spec() -> bool {
        true
    }

    open spec fn from_spec(resp: ListTasks) -> Any {
        Any::ListTasks(resp)
    }
}

/// An answer to a request that failed: why, in words.
#[derive(Debug)]
pub struct Error {
    pub message: String,
}

impl From<String> for Error {
    fn from(message: String) -> (r: Error) {
        Error { message }
    }
}

impl FromSpecImpl<String> for Error {
    open spec fn obeys_from_spec() -> bool {
        true
    }

    open spec fn from_spec(message: String) -> Error {
        Error { message }
    }
}

/// An answer: what was asked for, or why it failed.
#[derive(Debug)]
pub enum Response<T = Any> {
    Success(T),
    Error(Error),
}

impl<T> From<Response<T>> for Result<T, Error> {
    fn from(resp: Response<T>) -> (r: Result<T, Error>) {
        match resp {
            Response::Success(v) => Ok(v),
            Response::Error(err) => Err(err),
        }
    }
}

impl<T> FromSpecImpl<Response<T>> for Result<T, Error> {
    open spec fn obeys_from_spec() -> bool {
        true
    }

    open spec fn from_spec(resp: Response<T>) -> Result<T, Error> {
        match resp {
            Response::Success(v) => Ok(v),
            Response::Error(err) => Err(err),
        }
    }
}

impl From<Result<Empty, Error>> for Response<Any> {
    fn from(res: Result<Empty, Error>) -> (r: Response<Any>) {
        match res {
            Ok(v) => Response::Success(Any::Empty(v)),
            Err(err) => Response::Error(err),
        }
    }
}

impl FromSpecImpl<Result<Empty, Error>> for Response<Any> {
    open spec fn obeys_from_spec() -> bool {
        true
    }

    open spec fn from_spec(res: Result<Empty, Error>) -> Response<Any> {
        match res {
            Ok(v) => Response::Success(Any::Empty(v)),
            Err(err) => Response::Error(err),
        }
    }
}

impl From<Result<ListQueues, Error>> for Response<Any> {
    fn from(res: Result<ListQueues, Error>) -> (r: Response<Any>) {
        match res {
            Ok(v) => Response::Success(Any::ListQueues(v)),
            Err(err) => Response::Error(err),
        }
    }
}

impl FromSpecImpl<Result<ListQueues, Error>> for Response<Any> {
    open spec fn obeys_from_spec() -> bool {
        true
    }

    open spec fn from_spec(res: Result<ListQueues, Error>) -> Response<Any> {
        match res {
            Ok(v) => Response::Success(Any::ListQueues(v)),
            Err(err) => Response::Error(err),
        }
    }
}

impl From<Result<ListTasks, Error>> for Response<Any> {
    fn from(res: Result<ListTasks, Error>) -> (r: Response<Any>) {
        match res {
            Ok(v) => Response::Success(Any::ListTasks(v)),
            Err(err) => Response::Error(err),
        }
    }
}

impl FromSpecImpl<Result<ListTasks, Error>> for Response<Any> {
    open spec fn obeys_from_spec() -> bool {
        true
    }

    open spec fn from_spec(res: Result<ListTasks, Error>) -> Response<Any> {
        match res {
            Ok(v) => Response::Success(Any::ListTasks(v)),
            Err(err) => Response::Error(err),
        }
    }
}

} // verus!
