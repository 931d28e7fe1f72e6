//! Tasks, and the worker of a queue: it hands out the tasks that wait, first
//! come first served, and never lets more of them run than the queue allows.

use std::path::PathBuf;
use std::time::Duration;
use vstd::prelude::*;
use crate::queue::Queue;
use crate::shell::{command_line, shell_line};
use crate::text::{clone_words, strs};

verus! {

/// A command to run.
#[derive(Debug)]
pub struct Task {
    pub binary: String,
    pub timeout: Option<Duration>,
    pub dir: Option<PathBuf>,
    pub args: Vec<String>,
}

/// A task, with its texts as sequences of characters.
pub struct TaskView {
    pub binary: Seq<char>,
    pub timeout: Option<Duration>,
    pub dir: Option<PathBuf>,
    pub args: Seq<Seq<char>>,
}

impl View for Task {
    type V = TaskView;

    open spec fn view(&self) -> TaskView {
        TaskView {
            binary: self.binary@,
            timeout: self.timeout,
            dir: self.dir,
            args: strs(self.args@),
        }
    }
}

impl TaskView {
    /// The command line of the task: the program, then its arguments.
    pub open spec fn argv(self) -> Seq<Seq<char>> {
        seq![self.binary] + self.args
    }

    /// The task with the defaults of its queue: a timeout and a directory of
    /// its own stay, a missing one is taken from the queue.
    pub open spec fn with_defaults(self, timeout: Option<Duration>, dir: Option<PathBuf>) -> TaskView {
        TaskView {
            binary: self.binary,
            timeout: if self.timeout is Some {
                self.timeout
            } else {
                timeout
            },
            dir: if self.dir is Some {
                self.dir
            } else {
                dir
            },
            args: self.args,
        }
    }
}

/// A copy of an optional path.
fn clone_dir(dir: &Option<PathBuf>) -> (copy: Option<PathBuf>)
    ensures
        copy == *dir,
{
    match dir {
        Some(path) => Some(path.clone()),
        None => None,
    }
}

impl Clone for Task {
    fn clone(&self) -> (copy: Task)
        ensures
            copy@ == self@,
    {
        Task {
            binary: self.binary.clone(),
            timeout: self.timeout,
            dir: clone_dir(&self.dir),
            args: clone_words(&self.args),
        }
    }
}

impl Task {
    /// The command line of the task: the program, then its arguments.
    pub fn argv(&self) -> (words: Vec<String>)
        ensures
            strs(words@) == self@.argv(),
    {
        let mut words: Vec<String> = Vec::new();
        words.push(self.binary.clone());
        let mut i: usize = 0;
        while i < self.args.len()
            invariant
                i <= self.args@.len(),
                words@.len() == i + 1,
                words@[0]@ == self.binary@,
                forall|j: int| 1 <= j <= i ==> (#[trigger] words@[j])@ == self.args@[j - 1]@,
            decreases self.args@.len() - i,
        {
            words.push(self.args[i].clone());
            i += 1;
        }
        assert(strs(words@) =~= self@.argv());
        words
    }

    /// The task as a command line for a reader: each word quoted for the
    /// shell, single spaces between.
    pub fn to_string(&self) -> (line: String)
        ensures
            line@ == shell_line(self@.argv()),
    {
        let words = self.argv();
        command_line(&words)
    }
}

/// The waiting line of a queue.
pub type TaskQueue = Queue<Task>;


/// What happens to a worker: it looks for work, while a task waits or while
/// none does, or a process that it started has ended.
pub enum Event {
    Poll { waiting: bool },
    Finished,
}

/// The number of processes that run after `event`, where `live` ran before it
/// and at most `limit` may run: looking for work starts one more if a task
/// waits and the limit is not reached, and a process that ends is one less.
pub open spec fn live_after(limit: nat, live: nat, event: Event) -> nat {
    match event {
        Event::Poll { waiting } => if waiting && live < limit {
            live + 1
        } else {
            live
        },
        Event::Finished => if live > 0 {
            (live - 1) as nat
        } else {
            0
        },
    }
}

/// The number of processes that run after all of `events`, in order.
pub open spec fn live_after_all(limit: nat, live: nat, events: Seq<Event>) -> nat
    decreases events.len(),
{
    if events.len() == 0 {
        live
    } else {
        live_after(limit, live_after_all(limit, live, events.drop_last()), events.last())
    }
}

/// At most as many processes run as the queue allows, at every instant:
/// whatever happens to a worker that starts with none running, and in
/// whatever order, after each event no more than `limit` processes run.
pub proof fn lemma_at_most_limit(limit: nat, events: Seq<Event>, n: int)
    requires
        0 <= n <= events.len(),
    ensures
        live_after_all(limit, 0, events.take(n)) <= limit,
    decreases n,
{
    if n > 0 {
        assert(events.take(n).drop_last() =~= events.take(n - 1));
        lemma_at_most_limit(limit, events, n - 1);
    }
}

/// What happens to a queue: a task is sent to it, its worker takes a turn, or
/// one of its processes ends.
pub enum Happening<T> {
    Sent(T),
    Turn,
    Ended,
}

/// What has become of the tasks of a queue: all that were sent, those that
/// were handed out to be started, those that wait, and how many run.
pub struct History<T> {
    pub sent: Seq<T>,
    pub spawned: Seq<T>,
    pub waiting: Seq<T>,
    pub live: nat,
}

/// The history of a queue to which nothing has happened.
pub open spec fn no_history<T>() -> History<T> {
    History { sent: Seq::empty(), spawned: Seq::empty(), waiting: Seq::empty(), live: 0 }
}

/// The history after `event`: a task that is sent joins the end of the line; a
/// turn of the worker hands out the task in front, if one waits and one more
/// may run; and a process that ends is one less that runs.
pub open spec fn history_after<T>(limit: nat, history: History<T>, event: Happening<T>) -> History<
    T,
> {
    match event {
        Happening::Sent(task) => History {
            sent: history.sent.push(task),
            waiting: history.waiting.push(task),
            ..history
        },
        Happening::Turn => if history.waiting.len() > 0 && history.live < limit {
            History {
                spawned: history.spawned.push(history.waiting[0]),
                waiting: history.waiting.drop_first(),
                live: history.live + 1,
                ..history
            }
        } else {
            history
        },
        Happening::Ended => History {
            live: live_after(limit, history.live, Event::Finished),
            ..history
        },
    }
}

/// The history after all of `events`, in order.
pub open spec fn history_after_all<T>(limit: nat, events: Seq<Happening<T>>) -> History<T>
    decreases events.len(),
{
    if events.len() == 0 {
        no_history()
    } else {
        history_after(limit, history_after_all(limit, events.drop_last()), events.last())
    }
}

/// Whatever happens to a queue, and in whatever order: at every instant the
/// tasks that were handed out, followed by those that wait, are the tasks that
/// were sent, in the order in which they were sent. So tasks are handed out
/// first come first served, no task is handed out twice, none is lost, and
/// what waits is what was sent and not yet handed out. And never do more
/// processes run than may.
pub proof fn lemma_history<T>(limit: nat, events: Seq<Happening<T>>, n: int)
    requires
        0 <= n <= events.len(),
    ensures
        ({
            let history = history_after_all(limit, events.take(n));
            &&& history.spawned + history.waiting == history.sent
            &&& history.live <= limit
            &&& history.live <= history.spawned.len()
        }),
    decreases n,
{
    if n == 0 {
        let history = history_after_all(limit, events.take(0));
        assert(history.spawned + history.waiting =~= history.sent);
    } else {
        assert(events.take(n).drop_last() =~= events.take(n - 1));
        lemma_history(limit, events, n - 1);
        let before = history_after_all(limit, events.take(n - 1));
        let after = history_after_all(limit, events.take(n));
        assert(after == history_after(limit, before, events[n - 1]));
        match events[n - 1] {
            Happening::Sent(task) => {
                assert(after.spawned + after.waiting =~= (before.spawned + before.waiting).push(
                    task,
                ));
            },
            Happening::Turn => {
                if before.waiting.len() > 0 && before.live < limit {
                    assert(after.spawned + after.waiting =~= before.spawned + before.waiting);
                }
            },
            Happening::Ended => {},
        }
    }
}

/// What a worker does next.
#[derive(Debug)]
pub enum Dispatch {
    /// Start a process that runs the command given.
    Spawn(Task),
    /// Nothing waits: wait for a task.
    WaitForTask,
    /// As many processes run as may: wait for one to end.
    WaitForPermit,
}

/// The worker of a queue: how many processes may run and how many do, and the
/// timeout and directory that a task gets where it names none.
#[derive(Debug)]
pub struct Worker {
    max_parallel: usize,
    running: usize,
    timeout: Option<Duration>,
    dir: Option<PathBuf>,
}

impl Worker {
    #[verifier::type_invariant]
    spec fn inv(&self) -> bool {
        self.running <= self.max_parallel
    }

    /// The number of processes that may run at a time.
    pub closed spec fn limit(&self) -> nat {
        self.max_parallel as nat
    }

    /// The number of processes that run.
    pub closed spec fn live(&self) -> nat {
        self.running as nat
    }

    /// The timeout of a task that names none.
    pub closed spec fn default_timeout(&self) -> Option<Duration> {
        self.timeout
    }

    /// The directory of a task that names none.
    pub closed spec fn default_dir(&self) -> Option<PathBuf> {
        self.dir
    }

    /// A worker with nothing running.
    pub fn new(max_parallel: usize, timeout: Option<Duration>, dir: Option<PathBuf>) -> (worker:
        Worker)
        ensures
            worker.limit() == max_parallel,
            worker.live() == 0,
            worker.default_timeout() == timeout,
            worker.default_dir() == dir,
    {
        Worker { max_parallel, running: 0, timeout, dir }
    }

    /// The number of processes that may run at a time.
    pub fn max_parallel(&self) -> (n: usize)
        ensures
            n == self.limit(),
    {
        self.max_parallel
    }

    /// The number of processes that run; never more than may.
    pub fn running(&self) -> (n: usize)
        ensures
            n == self.live(),
            n <= self.limit(),
    {
        proof {
            use_type_invariant(self);
        }
        self.running
    }

    /// One turn of the worker. Where a process may still start and a task
    /// waits, the task in front leaves the line, gets the defaults of the
    /// queue and is handed out to be started, and counts as running from then
    /// on. Otherwise nothing changes, and the answer says what to wait for.
    pub fn process_inner(&mut self, queue: &mut TaskQueue) -> (next: Dispatch)
        ensures
            final(self).limit() == old(self).limit(),
            final(self).default_timeout() == old(self).default_timeout(),
            final(self).default_dir() == old(self).default_dir(),
            final(self).live() == live_after(
                old(self).limit(),
                old(self).live(),
                Event::Poll { waiting: old(queue)@.len() > 0 },
            ),
            final(self).live() <= final(self).limit(),
            match next {
                Dispatch::Spawn(task) => {
                    &&& old(self).live() < old(self).limit()
                    &&& old(queue)@.len() > 0
                    &&& task@ == old(queue)@[0]@.with_defaults(
                        old(self).default_timeout(),
                        old(self).default_dir(),
                    )
                    &&& final(queue)@ == old(queue)@.drop_first()
                },
                Dispatch::WaitForTask => {
                    &&& old(self).live() < old(self).limit()
                    &&& old(queue)@.len() == 0
                    &&& final(queue)@ == old(queue)@
                },
                Dispatch::WaitForPermit => {
                    &&& old(self).live() == old(self).limit()
                    &&& final(queue)@ == old(queue)@
                },
            },
    {
        proof {
            use_type_invariant(&*self);
        }
        if self.running >= self.max_parallel {
            return Dispatch::WaitForPermit;
        }
        match queue.pop() {
            None => Dispatch::WaitForTask,
            Some(task) => {
                let mut task = task;
                if task.timeout.is_none() {
                    task.timeout = self.timeout;
                }
                if task.dir.is_none() {
                    task.dir = clone_dir(&self.dir);
                }
                self.running = self.running + 1;
                Dispatch::Spawn(task)
            },
        }
    }

    /// One turn of the worker, unless its queue or the server shuts down: then
    /// the worker stops at once, whatever waits, and the answer is `None`.
    pub fn process(
        &mut self,
        queue: &mut TaskQueue,
        worker_shutdown: bool,
        server_shutdown: bool,
    ) -> (next: Option<Dispatch>)
        ensures
            final(self).limit() == old(self).limit(),
            final(self).default_timeout() == old(self).default_timeout(),
            final(self).default_dir() == old(self).default_dir(),
            final(self).live() <= final(self).limit(),
            next is None <==> worker_shutdown || server_shutdown,
            next is None ==> final(self).live() == old(self).live() && final(queue)@ == old(queue)@,
            next is Some ==> final(self).live() == live_after(
                old(self).limit(),
                old(self).live(),
                Event::Poll { waiting: old(queue)@.len() > 0 },
            ),
            match next {
                Some(Dispatch::Spawn(task)) => {
                    &&& old(self).live() < old(self).limit()
                    &&& old(queue)@.len() > 0
                    &&& task@ == old(queue)@[0]@.with_defaults(
                        old(self).default_timeout(),
                        old(self).default_dir(),
                    )
                    &&& final(queue)@ == old(queue)@.drop_first()
                },
                Some(Dispatch::WaitForTask) => {
                    &&& old(self).live() < old(self).limit()
                    &&& old(queue)@.len() == 0
                    &&& final(queue)@ == old(queue)@
                },
                Some(Dispatch::WaitForPermit) => {
                    &&& old(self).live() == old(self).limit()
                    &&& final(queue)@ == old(queue)@
                },
                None => true,
            },
    {
        proof {
            use_type_invariant(&*self);
        }
        if worker_shutdown || server_shutdown {
            None
        } else {
            Some(self.process_inner(queue))
        }
    }

    /// A process that this worker started has ended, however it ended: one
    /// more may start.
    pub fn finished(&mut self)
        requires
            old(self).live() > 0,
        ensures
            final(self).limit() == old(self).limit(),
            final(self).default_timeout() == old(self).default_timeout(),
            final(self).default_dir() == old(self).default_dir(),
            final(self).live() == live_after(old(self).limit(), old(self).live(), Event::Finished),
            final(self).live() == old(self).live() - 1,
            final(self).live() < final(self).limit(),
    {
        proof {
            use_type_invariant(&*self);
        }
        self.running = self.running - 1;
    }
}

} // verus!
