//! The client of the server: the requests that it sends, and what it makes of
//! what comes back.

use std::path::PathBuf;
use std::time::Duration;
use vstd::prelude::*;
use crate::request;
use crate::response::Response;
use crate::template::Template;

verus! {

/// Why a connection to the server could not be made.
#[derive(Debug, Clone, Copy, PartialEq, Eq, Structural)]
pub enum ConnectFailure {
    /// Nobody listens on the socket.
    ConnectionRefused,
    /// The socket is not there.
    NotFound,
    /// Anything else.
    Other,
}

/// Why a request to the server failed.
#[derive(Debug)]
pub enum ClientError {
    /// The server is not running; with what the system said.
    NotRunning(String),
    /// The connection failed otherwise; with what the system said.
    Io(String),
    /// The server closed the connection without an answer.
    NoResponse,
    /// The server answered that the request failed; with its reason.
    Server(String),
}

/// Why a request to the server failed, with its texts as sequences of
/// characters.
pub enum ClientErrorView {
    NotRunning(Seq<char>),
    Io(Seq<char>),
    NoResponse,
    Server(Seq<char>),
}

impl View for ClientError {
    type V = ClientErrorView;

    open spec fn view(&self) -> ClientErrorView {
        match self {
            ClientError::NotRunning(detail) => ClientErrorView::NotRunning(detail@),
            ClientError::Io(detail) => ClientErrorView::Io(detail@),
            ClientError::NoResponse => ClientErrorView::NoResponse,
            ClientError::Server(message) => ClientErrorView::Server(message@),
        }
    }
}

impl ClientErrorView {
    /// The error in words.
    pub open spec fn text(self) -> Seq<char> {
        match self {
            ClientErrorView::NotRunning(_) => "server is not running"@,
            ClientErrorView::Io(detail) => detail,
            ClientErrorView::NoResponse => "server did not respond"@,
            ClientErrorView::Server(message) => message,
        }
    }
}

impl ClientError {
    /// The error in words.
    pub fn message(&self) -> (text: String)
        ensures
            text@ == self@.text(),
    {
        match self {
            ClientError::NotRunning(_) => "server is not running".to_owned(),
            ClientError::Io(detail) => detail.clone(),
            ClientError::NoResponse => "server did not respond".to_owned(),
            ClientError::Server(message) => message.clone(),
        }
    }
}

/// The client of a server.
#[derive(Debug)]
pub struct QueueClient {}

impl QueueClient {
    /// What a failed connection means: a socket that is not there, or on
    /// which nobody listens, means that the server is not running.
    pub fn connect(failure: ConnectFailure, detail: String) -> (e: ClientError)
        ensures
            e@ == match failure {
                ConnectFailure::ConnectionRefused => ClientErrorView::NotRunning(detail@),
                ConnectFailure::NotFound => ClientErrorView::NotRunning(detail@),
                ConnectFailure::Other => ClientErrorView::Io(detail@),
            },
    {
        match failure {
            ConnectFailure::ConnectionRefused => ClientError::NotRunning(detail),
            ConnectFailure::NotFound => ClientError::NotRunning(detail),
            ConnectFailure::Other => ClientError::Io(detail),
        }
    }

    /// The request that stops the server.
    pub fn stop_server() -> (req: request::Request)
        ensures
            req == request::Request::StopServer,
    {
        request::Request::StopServer
    }

    /// The request that makes a queue.
    pub fn create_queue(
        name: String,
        max_parallel: usize,
        output: Option<PathBuf>,
        timeout: Option<Duration>,
        dir: Option<PathBuf>,
        template: Option<Template>,
    ) -> (req: request::Request)
        ensures
            req == request::Request::CreateQueue(
                request::CreateQueue { name, max_parallel, output, timeout, dir, template },
            ),
    {
        request::Request::CreateQueue(
            request::CreateQueue { name, max_parallel, output, timeout, dir, template },
        )
    }

    /// The request that removes a queue.
    pub fn remove_queue(name: String) -> (req: request::Request)
        ensures
            req == request::Request::RemoveQueue(request::RemoveQueue { name }),
    {
        request::Request::RemoveQueue(request::RemoveQueue { name })
    }

    /// The request that sends a task to a queue.
    pub fn send(
        name: String,
        timeout: Option<Duration>,
        dir: Option<PathBuf>,
        args: Vec<String>,
    ) -> (req: request::Request)
        ensures
            req == request::Request::Send(request::Send { name, timeout, dir, args }),
    {
        request::Request::Send(request::Send { name, timeout, dir, args })
    }

    /// The request that lists the queues.
    pub fn list_queues() -> (req: request::Request)
        ensures
            req == request::Request::ListQueues,
    {
        request::Request::ListQueues
    }

    /// The request that lists the tasks that wait in a queue.
    pub fn list_tasks(name: String) -> (req: request::Request)
        ensures
            req == request::Request::ListTasks(request::ListTasks { name }),
    {
        request::Request::ListTasks(request::ListTasks { name })
    }

    /// What the client makes of what came back: the answer of a request that
    /// went well, the reason of one that failed, and an error of its own where
    /// the server closed the connection instead of answering.
    pub fn request<T>(message: Option<Response<T>>) -> (r: Result<T, ClientError>)
        ensures
            match message {
                None => r is Err && r->Err_0@ == ClientErrorView::NoResponse,
                Some(Response::Success(v)) => r == Ok::<T, ClientError>(v),
                Some(Response::Error(e)) => r is Err && r->Err_0@ == ClientErrorView::Server(
                    e.message@,
                ),
            },
    {
        match message {
            None => Err(ClientError::NoResponse),
            Some(Response::Success(v)) => Ok(v),
            Some(Response::Error(e)) => Err(ClientError::Server(e.message)),
        }
    }
}

} // verus!
