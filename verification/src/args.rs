//! What a user asks for on the command line, and the request that it becomes.

use std::path::PathBuf;
use std::time::Duration;
use vstd::prelude::*;
use crate::request;
use crate::template::Template;
use crate::text::{decimal, push_decimal};

verus! {

/// How much the server writes to its log.
#[derive(Debug, Clone, Copy, PartialEq, Eq, Structural)]
pub enum LogLevel {
    Off,
    Error,
    Warn,
    Info,
    Debug,
    Trace,
}

/// Starts the server.
#[derive(Debug)]
pub struct StartServerCommand {
    pub foreground: bool,
    pub log_level: LogLevel,
    pub log_file: Option<PathBuf>,
}

/// Makes a queue.
#[derive(Debug)]
pub struct CreateQueueCommand {
    pub name: String,
    pub max_parallel: usize,
    pub file: Option<PathBuf>,
    pub stdout: bool,
    pub dir: Option<PathBuf>,
    pub timeout: Option<Duration>,
    pub template: Option<Template>,
}

/// Removes a queue.
#[derive(Debug)]
pub struct RemoveQueueCommand {
    pub name: String,
}

/// Sends a task to a queue.
#[derive(Debug)]
pub struct SendTaskCommand {
    pub name: String,
    pub dir: Option<PathBuf>,
    pub timeout: Option<Duration>,
    pub args: Vec<String>,
}

/// Lists the tasks that wait in a queue.
#[derive(Debug)]
pub struct ListTasksCommand {
    pub name: String,
}

/// What the user asks for.
#[derive(Debug)]
pub enum Command {
    StartServer(StartServerCommand),
    StopServer,
    CreateQueue(CreateQueueCommand),
    RemoveQueue(RemoveQueueCommand),
    ListQueues,
    SendTask(SendTaskCommand),
    ListTasks(ListTasksCommand),
}

/// What holds whatever is asked for.
#[derive(Debug)]
pub struct GlobalArgs {
    pub socket: Option<PathBuf>,
}

/// The command line as a whole.
#[derive(Debug)]
pub struct Args {
    pub global: GlobalArgs,
    pub command: Command,
}

/// Where the log of the server goes.
#[derive(Debug)]
pub enum LogSink {
    /// To the file named.
    File(PathBuf),
    /// To the standard error of the server.
    Stderr,
    /// Nowhere: nothing is logged.
    Nowhere,
}

impl StartServerCommand {
    /// Whether the server goes to the background before it serves.
    pub fn daemonizes(&self) -> (r: bool)
        ensures
            r == !self.foreground,
    {
        !self.foreground
    }

    /// Where the log goes: to the file that the command names; without one,
    /// to the standard error of a server that stays in the foreground, and
    /// nowhere for one that does not.
    pub fn log_sink(&self) -> (sink: LogSink)
        ensures
            match self.log_file {
                Some(path) => sink == LogSink::File(path),
                None => if self.foreground {
                    sink == LogSink::Stderr
                } else {
                    sink == LogSink::Nowhere
                },
            },
    {
        match &self.log_file {
            Some(path) => LogSink::File(path.clone()),
            None => if self.foreground {
                LogSink::Stderr
            } else {
                LogSink::Nowhere
            },
        }
    }
}

impl GlobalArgs {
    /// The socket of the server: the one that the user names, or else
    /// `default`.
    pub fn socket(&self, default: PathBuf) -> (path: PathBuf)
        ensures
            path == match self.socket {
                Some(socket) => socket,
                None => default,
            },
    {
        match &self.socket {
            Some(socket) => socket.clone(),
            None => default,
        }
    }
}

/// The name of the socket of the user `uid` in the directory for temporary
/// files: `pqueue-` and the number of the user.
pub fn default_socket_path(uid: u32) -> (name: String)
    ensures
        name@ == "pqueue-"@ + decimal(uid as nat),
{
    let mut name = "pqueue-".to_owned();
    push_decimal(&mut name, uid as u64);
    name
}

/// How much goes to the log when `-v` is given `occurrences` times: nothing
/// without it, more with each, and everything from five on.
pub fn parse_log_level(occurrences: u64) -> (level: LogLevel)
    ensures
        level == match occurrences {
            0 => LogLevel::Off,
            1 => LogLevel::Error,
            2 => LogLevel::Warn,
            3 => LogLevel::Info,
            4 => LogLevel::Debug,
            _ => LogLevel::Trace,
        },
{
    match occurrences {
        0 => LogLevel::Off,
        1 => LogLevel::Error,
        2 => LogLevel::Warn,
        3 => LogLevel::Info,
        4 => LogLevel::Debug,
        _ => LogLevel::Trace,
    }
}

impl Command {
    /// The request that the command sends to the server. Starting the server
    /// sends none. The output of a new queue is the file that the command
    /// names; without one it is the standard output of the server.
    pub fn request(self) -> (r: Option<request::Request>)
        ensures
            r == match self {
                Command::StartServer(_) => None,
                Command::StopServer => Some(request::Request::StopServer),
                Command::CreateQueue(create) => Some(
                    request::Request::CreateQueue(
                        request::CreateQueue {
                            name: create.name,
                            max_parallel: create.max_parallel,
                            output: create.file,
                            timeout: create.timeout,
                            dir: create.dir,
                            template: create.template,
                        },
                    ),
                ),
                Command::RemoveQueue(remove) => Some(
                    request::Request::RemoveQueue(request::RemoveQueue { name: remove.name }),
                ),
                Command::ListQueues => Some(request::Request::ListQueues),
                Command::SendTask(send) => Some(
                    request::Request::Send(
                        request::Send {
                            name: send.name,
                            timeout: send.timeout,
                            dir: send.dir,
                            args: send.args,
                        },
                    ),
                ),
                Command::ListTasks(list) => Some(
                    request::Request::ListTasks(request::ListTasks { name: list.name }),
                ),
            },
    {
        match self {
            Command::StartServer(_) => None,
            Command::StopServer => Some(request::Request::StopServer),
            Command::CreateQueue(create) => Some(
                request::Request::CreateQueue(
                    request::CreateQueue {
                        name: create.name,
                        max_parallel: create.max_parallel,
                        output: create.file,
                        timeout: create.timeout,
                        dir: create.dir,
                        template: create.template,
                    },
                ),
            ),
            Command::RemoveQueue(remove) => Some(
                request::Request::RemoveQueue(request::RemoveQueue { name: remove.name }),
            ),
            Command::ListQueues => Some(request::Request::ListQueues),
            Command::SendTask(send) => Some(
                request::Request::Send(
                    request::Send {
                        name: send.name,
                        timeout: send.timeout,
                        dir: send.dir,
                        args: send.args,
                    },
                ),
            ),
            Command::ListTasks(list) => Some(
                request::Request::ListTasks(request::ListTasks { name: list.name }),
            ),
        }
    }
}

} // verus!
