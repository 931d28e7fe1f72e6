//! One process of a queue: how it is started, what happens while it runs, and
//! which open files it must not inherit.

use std::path::PathBuf;
use std::time::Duration;
use vstd::prelude::*;
use crate::output::{prefix, prefix_spec, Stream};
use crate::shell::shell_line;
use crate::text::{
    all_digits, chars_of, decimal_value, is_ascii_digit, is_digit, lemma_decimal_value_grows, strs,
};
use crate::worker::{Task, TaskView};

verus! {

/// The descriptors that a process keeps: its standard input, output and error.
pub open spec fn kept() -> Seq<i32> {
    seq![0i32, 1i32, 2i32]
}

/// A name in the table of open descriptors is no number.
#[derive(Debug, PartialEq, Eq, Structural)]
pub struct InvalidFd;

/// The descriptor that `name` stands for: digits, with or without a sign in
/// front, that give a number of 32 bits.
pub open spec fn fd_of(name: Seq<char>) -> Option<i32> {
    let signed = name.len() > 0 && (name[0] == '+' || name[0] == '-');
    let digits = if signed {
        name.skip(1)
    } else {
        name
    };
    let value = if name.len() > 0 && name[0] == '-' {
        -(decimal_value(digits) as int)
    } else {
        decimal_value(digits) as int
    };
    if digits.len() > 0 && all_digits(digits) && i32::MIN <= value <= i32::MAX {
        Some(value as i32)
    } else {
        None
    }
}

/// Reads the name of a descriptor.
#[verifier::loop_isolation(false)]
pub fn parse_fd(name: &str) -> (r: Option<i32>)
    ensures
        r == fd_of(name@),
{
    let chars = chars_of(name);
    if chars.len() == 0 {
        return None;
    }
    let negative = chars[0] == '-';
    let start: usize = if chars[0] == '+' || chars[0] == '-' {
        1
    } else {
        0
    };
    if start == chars.len() {
        return None;
    }
    let ghost digits = chars@.skip(start as int);
    assert(chars@.skip(0) =~= chars@);
    let mut i: usize = start;
    while i < chars.len()
        invariant
            start <= i <= chars@.len(),
            digits == chars@.skip(start as int),
            forall|j: int| 0 <= j < i - start ==> is_digit(#[trigger] digits[j]),
        decreases chars@.len() - i,
    {
        if !is_ascii_digit(chars[i]) {
            assert(!is_digit(digits[i - start]));
            assert(!all_digits(digits));
            return None;
        }
        i += 1;
    }
    let limit: i64 = if negative {
        2147483648
    } else {
        2147483647
    };
    let mut value: i64 = 0;
    let mut k: usize = start;
    assert(digits.take(0).len() == 0);
    while k < chars.len()
        invariant
            start <= k <= chars@.len(),
            digits == chars@.skip(start as int),
            forall|j: int| 0 <= j < digits.len() ==> is_digit(#[trigger] digits[j]),
            value == decimal_value(digits.take(k - start)),
            0 <= value <= limit <= 2147483648,
            limit == if negative { 2147483648i64 } else { 2147483647i64 },
        decreases chars@.len() - k,
    {
        let c = chars[k];
        assert(c == digits[k - start]);
        assert(is_digit(c));
        let digit: i64 = (c as u32 - '0' as u32) as i64;
        proof {
            assert(digits.take(k - start + 1).drop_last() =~= digits.take(k - start));
            lemma_decimal_value_grows(digits, k - start + 1);
        }
        value = value * 10 + digit;
        if value > limit {
            return None;
        }
        k += 1;
    }
    assert(digits.take(digits.len() as int) =~= digits);
    if negative {
        Some((0 - value) as i32)
    } else {
        Some(value as i32)
    }
}

/// The descriptors among `open` that are not in `keep`, in the order of
/// `open`: the ones to close before a program is run.
pub open spec fn to_close(open: Seq<i32>, keep: Seq<i32>) -> Seq<i32> {
    open.filter(|fd: i32| !keep.contains(fd))
}

/// The descriptors that `names` stand for, or `None` where one of them stands
/// for none.
pub open spec fn fds_of(names: Seq<Seq<char>>) -> Option<Seq<i32>> {
    if forall|i: int| 0 <= i < names.len() ==> (#[trigger] fd_of(names[i])) is Some {
        Some(Seq::new(names.len(), |i: int| fd_of(names[i])->Some_0))
    } else {
        None
    }
}

/// Whether `fd` is among `keep`.
fn contains(keep: &[i32], fd: i32) -> (r: bool)
    ensures
        r == keep@.contains(fd),
{
    let mut i: usize = 0;
    while i < keep.len()
        invariant
            i <= keep@.len(),
            forall|j: int| 0 <= j < i ==> keep@[j] != fd,
        decreases keep@.len() - i,
    {
        if keep[i] == fd {
            return true;
        }
        i += 1;
    }
    false
}

/// The descriptors to close before a program is run: all that are open, by
/// the names under which the system lists them, but those to keep. Nothing is
/// to be closed where a name is no number.
pub fn close_fds(names: &Vec<String>, keep: &[i32]) -> (r: Result<Vec<i32>, InvalidFd>)
    ensures
        match fds_of(strs(names@)) {
            Some(open) => r is Ok && r->Ok_0@ == to_close(open, keep@),
            None => r is Err,
        },
{
    let ghost all = strs(names@);
    let mut open: Vec<i32> = Vec::new();
    let mut i: usize = 0;
    while i < names.len()
        invariant
            i <= names@.len(),
            all == strs(names@),
            open@.len() == i,
            forall|j: int| 0 <= j < i ==> fd_of(all[j]) == Some(#[trigger] open@[j]),
        decreases names@.len() - i,
    {
        match parse_fd(names[i].as_str()) {
            None => {
                assert(fd_of(all[i as int]) is None);
                return Err(InvalidFd);
            },
            Some(fd) => {
                open.push(fd);
            },
        }
        i += 1;
    }
    assert(fds_of(all) == Some(open@)) by {
        assert forall|j: int| 0 <= j < all.len() implies (#[trigger] fd_of(all[j])) is Some by {
            assert(fd_of(all[j]) == Some(open@[j]));
        }
        assert(Seq::new(all.len(), |j: int| fd_of(all[j])->Some_0) =~= open@);
    }
    let mut closing: Vec<i32> = Vec::new();
    let mut k: usize = 0;
    assert(open@.take(0) =~= Seq::<i32>::empty());
    while k < open.len()
        invariant
            k <= open@.len(),
            closing@ == to_close(open@.take(k as int), keep@),
        decreases open@.len() - k,
    {
        proof {
            assert(open@.take(k + 1).drop_last() =~= open@.take(k as int));
            reveal(Seq::filter);
        }
        if !contains(keep, open[k]) {
            closing.push(open[k]);
        }
        k += 1;
    }
    assert(open@.take(open@.len() as int) =~= open@);
    Ok(closing)
}


/// How much a record in the log matters.
#[derive(Debug, Clone, Copy, PartialEq, Eq, Structural)]
pub enum Level {
    Error,
    Warn,
    Info,
}

/// What happens to a process that runs: it ends by itself, waiting for it
/// fails, its queue or the server shuts down, or its time is up.
#[derive(Debug)]
pub enum WaitEvent {
    Exited { status: String },
    Failed { error: String },
    WorkerShutdown,
    ServerShutdown,
    TimedOut,
}

/// What is done about a process after an event: whether it is killed, and what
/// goes to the log. Either way the process is waited for no longer.
#[derive(Debug)]
pub struct WaitOutcome {
    pub kill: bool,
    pub log: Option<(Level, String)>,
}

/// What goes to the log after `event` for the process with the command line
/// `command`.
pub open spec fn log_of(command: Seq<char>, event: WaitEvent) -> Option<(Level, Seq<char>)> {
    match event {
        WaitEvent::Exited { status } => Some(
            (Level::Info, "execution of '"@ + command + "' finished: "@ + status@),
        ),
        WaitEvent::Failed { error } => Some(
            (Level::Error, "error executing '"@ + command + "': "@ + error@),
        ),
        WaitEvent::TimedOut => Some((Level::Warn, "execution of '"@ + command + "' timed out"@)),
        WaitEvent::WorkerShutdown => None,
        WaitEvent::ServerShutdown => None,
    }
}

/// Whether the process is killed after `event`: when its time is up and when
/// its queue or the server shuts down, not when it has ended by itself.
pub open spec fn kills(event: WaitEvent) -> bool {
    event is TimedOut || event is WorkerShutdown || event is ServerShutdown
}

/// The prefixes of the lines of a process, one for each of its streams.
#[derive(Debug)]
pub struct Prefixes {
    /// For the source that reads the standard output.
    pub stdout: String,
    /// For the source that reads the standard error.
    pub stderr: String,
}

/// A process of a queue.
#[derive(Debug)]
pub struct Process {
    task: Task,
}

impl Process {
    /// The task that the process runs.
    pub closed spec fn task(&self) -> TaskView {
        self.task@
    }

    /// The process for `task`. Its program is the `binary` of the task, its
    /// arguments are those of the task, it runs in the directory of the task
    /// where the task has one, and it keeps no open file but its standard
    /// input, output and error.
    pub fn new(task: Task) -> (process: Process)
        ensures
            process.task() == task@,
    {
        Process { task }
    }

    /// The program to run.
    pub fn binary(&self) -> (binary: &String)
        ensures
            binary@ == self.task().binary,
    {
        &self.task.binary
    }

    /// The arguments of the program.
    pub fn args(&self) -> (args: &Vec<String>)
        ensures
            strs(args@) == self.task().args,
    {
        &self.task.args
    }

    /// The directory to run the program in, if not that of the server.
    pub fn dir(&self) -> (dir: &Option<PathBuf>)
        ensures
            *dir == self.task().dir,
    {
        &self.task.dir
    }

    /// The descriptors that the program keeps.
    pub fn keep(&self) -> (keep: [i32; 3])
        ensures
            keep@ == kept(),
    {
        let keep: [i32; 3] = [0, 1, 2];
        assert(keep@ =~= kept());
        keep
    }

    /// The prefixes for the two streams of the process, once it has been
    /// started and has the number `pid`: the lines of its standard output get
    /// `[<pid>:stdout]: `, and those of its standard error `[<pid>:stderr]: `.
    pub fn prefixes(&self, pid: u32) -> (r: Prefixes)
        ensures
            r.stdout@ == prefix_spec(pid, Stream::Stdout),
            r.stderr@ == prefix_spec(pid, Stream::Stderr),
    {
        Prefixes { stdout: prefix(pid, Stream::Stdout), stderr: prefix(pid, Stream::Stderr) }
    }

    /// How long the process is waited for, if not for ever. The time counts
    /// from when the waiting starts, not from when the process started.
    pub fn timeout(&self) -> (timeout: Option<Duration>)
        ensures
            timeout == self.task().timeout,
    {
        self.task.timeout
    }

    /// What is done after `event`: the process is killed unless it has ended
    /// by itself, and how it ended goes to the log. The process is not waited
    /// for after it has been killed.
    pub fn wait(&self, event: WaitEvent) -> (outcome: WaitOutcome)
        ensures
            outcome.kill == kills(event),
            match log_of(shell_line(self.task().argv()), event) {
                Some((level, text)) => outcome.log is Some && outcome.log->Some_0.0 == level
                    && outcome.log->Some_0.1@ == text,
                None => outcome.log is None,
            },
    {
        match event {
            WaitEvent::Exited { status } => {
                let mut text = "execution of '".to_owned();
                text.append(self.task.to_string().as_str());
                text.append("' finished: ");
                text.append(status.as_str());
                WaitOutcome { kill: false, log: Some((Level::Info, text)) }
            },
            WaitEvent::Failed { error } => {
                let text = spawn_error(&self.task, error.as_str());
                WaitOutcome { kill: false, log: Some((Level::Error, text)) }
            },
            WaitEvent::TimedOut => {
                let mut text = "execution of '".to_owned();
                text.append(self.task.to_string().as_str());
                text.append("' timed out");
                WaitOutcome { kill: true, log: Some((Level::Warn, text)) }
            },
            WaitEvent::WorkerShutdown => WaitOutcome { kill: true, log: None },
            WaitEvent::ServerShutdown => WaitOutcome { kill: true, log: None },
        }
    }
}

/// What goes to the log when the program of `task` could not be run.
pub fn spawn_error(task: &Task, error: &str) -> (text: String)
    ensures
        text@ == "error executing '"@ + shell_line(task@.argv()) + "': "@ + error@,
{
    let mut text = "error executing '".to_owned();
    text.append(task.to_string().as_str());
    text.append("': ");
    text.append(error);
    text
}

} // verus!
