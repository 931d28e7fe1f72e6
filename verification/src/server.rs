//! The queues of a server and what each request does to them.
//!
//! The server keeps its queues in a `QueueMap`, each under a name that no
//! other queue has. A `ClientHandler` serves one client: it takes one request
//! at a time, changes the queues as the request says, and gives back the
//! response together with what is left to do outside: start a worker, stop
//! one, or wake one up.

use std::path::PathBuf;
use std::time::Duration;
use vstd::prelude::*;
use crate::queue::Queue;
use crate::request;
use crate::response;
use crate::sync::{condition, DropGuard, DropWaiter, Trigger};
use crate::template::{instantiate_spec, ArityError, PieceView, Template};
use crate::text::{decimal, strs};
use crate::worker::{
    history_after, live_after, Dispatch, Event, Happening, History, Task, TaskQueue, TaskView, Worker,
};

verus! {

/// A queue as the server keeps it: its number and name, the tasks that wait,
/// the template for its tasks, and its worker.
pub struct WorkerHandle {
    pub id: u64,
    pub name: String,
    pub queue: TaskQueue,
    pub template: Option<Template>,
    pub worker: Worker,
}

/// A queue, with its texts as sequences of characters.
pub struct HandleView {
    pub id: u64,
    pub name: Seq<char>,
    pub tasks: Seq<TaskView>,
    pub template: Option<Seq<PieceView>>,
    pub limit: nat,
    pub live: nat,
    pub timeout: Option<Duration>,
    pub dir: Option<PathBuf>,
}

/// The views of the tasks in a line.
pub open spec fn task_views(line: Seq<Task>) -> Seq<TaskView> {
    Seq::new(line.len(), |i: int| line[i]@)
}

impl View for WorkerHandle {
    type V = HandleView;

    open spec fn view(&self) -> HandleView {
        HandleView {
            id: self.id,
            name: self.name@,
            tasks: task_views(self.queue@),
            template: match self.template {
                Some(t) => Some(t@),
                None => None,
            },
            limit: self.worker.limit(),
            live: self.worker.live(),
            timeout: self.worker.default_timeout(),
            dir: self.worker.default_dir(),
        }
    }
}

/// Whether a queue of `queues` has the name `name`.
pub open spec fn has_queue(queues: Seq<HandleView>, name: Seq<char>) -> bool {
    exists|i: int| 0 <= i < queues.len() && #[trigger] queues[i].name == name
}

/// The place in `queues` of the queue named `name`, where there is one.
pub open spec fn index_of(queues: Seq<HandleView>, name: Seq<char>) -> int {
    choose|i: int| 0 <= i < queues.len() && #[trigger] queues[i].name == name
}

/// Whether a queue of `queues` has the number `id`.
pub open spec fn has_id(queues: Seq<HandleView>, id: u64) -> bool {
    exists|i: int| 0 <= i < queues.len() && #[trigger] queues[i].id == id
}

/// The place in `queues` of the queue with the number `id`, where there is one.
pub open spec fn index_of_id(queues: Seq<HandleView>, id: u64) -> int {
    choose|i: int| 0 <= i < queues.len() && #[trigger] queues[i].id == id
}

/// No two queues have the same name or the same number, and no queue runs
/// more processes than it may.
pub open spec fn well_formed(queues: Seq<HandleView>) -> bool {
    &&& forall|i: int, j: int|
        0 <= i < j < queues.len() ==> (#[trigger] queues[i]).name != (#[trigger] queues[j]).name
    &&& forall|i: int, j: int|
        0 <= i < j < queues.len() ==> (#[trigger] queues[i]).id != (#[trigger] queues[j]).id
    &&& forall|i: int| 0 <= i < queues.len() ==> (#[trigger] queues[i]).live <= queues[i].limit
}

/// A queue just made: nothing waits and nothing runs.
pub open spec fn fresh(
    id: u64,
    name: Seq<char>,
    template: Option<Seq<PieceView>>,
    limit: nat,
    timeout: Option<Duration>,
    dir: Option<PathBuf>,
) -> HandleView {
    HandleView { id, name, tasks: Seq::empty(), template, limit, live: 0, timeout, dir }
}

/// The command line that a queue makes of the arguments sent to it: its
/// template filled with them, or the arguments as they are where it has none.
pub open spec fn command_of(queue: HandleView, args: Seq<Seq<char>>) -> Result<
    Seq<Seq<char>>,
    ArityError,
> {
    match queue.template {
        Some(pieces) => instantiate_spec(pieces, args),
        None => Ok(args),
    }
}

/// The task that a command line stands for: the program first, then its
/// arguments.
pub open spec fn task_of(
    command: Seq<Seq<char>>,
    timeout: Option<Duration>,
    dir: Option<PathBuf>,
) -> TaskView {
    TaskView { binary: command[0], timeout, dir, args: command.skip(1) }
}

/// `queues` after `task` has joined the line of the queue at `i`.
pub open spec fn with_task(queues: Seq<HandleView>, i: int, task: TaskView) -> Seq<HandleView> {
    queues.update(i, HandleView { tasks: queues[i].tasks.push(task), ..queues[i] })
}

/// Why a request failed.
#[derive(Debug)]
pub enum HandlerError {
    /// A queue of that name is there already.
    AlreadyExists(String),
    /// No queue has that name.
    NotFound(String),
    /// The task has no program to run.
    EmptyCommand,
    /// The arguments do not fit the template of the queue.
    Arity(ArityError),
    /// The server has run out of numbers for its queues.
    TooManyQueues,
}

/// Why a request failed, with its texts as sequences of characters.
pub enum HandlerErrorView {
    AlreadyExists(Seq<char>),
    NotFound(Seq<char>),
    EmptyCommand,
    Arity(ArityError),
    TooManyQueues,
}

impl View for HandlerError {
    type V = HandlerErrorView;

    open spec fn view(&self) -> HandlerErrorView {
        match self {
            HandlerError::AlreadyExists(name) => HandlerErrorView::AlreadyExists(name@),
            HandlerError::NotFound(name) => HandlerErrorView::NotFound(name@),
            HandlerError::EmptyCommand => HandlerErrorView::EmptyCommand,
            HandlerError::Arity(e) => HandlerErrorView::Arity(*e),
            HandlerError::TooManyQueues => HandlerErrorView::TooManyQueues,
        }
    }
}

/// The queues of a server.
pub struct QueueMap {
    handles: Vec<WorkerHandle>,
    next_id: u64,
}

impl View for QueueMap {
    type V = Seq<HandleView>;

    closed spec fn view(&self) -> Seq<HandleView> {
        Seq::new(self.handles@.len(), |i: int| self.handles@[i]@)
    }
}

impl QueueMap {
    /// What holds of the queues of a server at all times: no two have the same
    /// name or number, none runs more processes than it may, and the number of
    /// the next queue is not in use.
    pub closed spec fn wf(&self) -> bool {
        &&& well_formed(self@)
        &&& forall|i: int| 0 <= i < self@.len() ==> (#[trigger] self@[i]).id < self.next_id
    }

    /// Queues in order are well formed.
    pub proof fn lemma_wf(&self)
        requires
            self.wf(),
        ensures
            well_formed(self@),
    {
    }

    /// Whether every number below `u64::MAX` has been given to a queue, so
    /// that no further queue can be made.
    pub open spec fn exhausted(&self) -> bool {
        self.next_id() == u64::MAX
    }

    /// The number that the next queue gets.
    pub closed spec fn next_id(&self) -> u64 {
        self.next_id
    }

    /// No queues.
    pub fn new() -> (queues: QueueMap)
        ensures
            queues.wf(),
            queues@ == Seq::<HandleView>::empty(),
            queues.next_id() == 0,
    {
        let queues = QueueMap { handles: Vec::new(), next_id: 0 };
        assert(queues@ =~= Seq::<HandleView>::empty());
        queues
    }

    /// Where the queue named `name` stands.
    pub fn find(&self, name: &String) -> (r: Option<usize>)
        requires
            self.wf(),
        ensures
            match r {
                Some(i) => has_queue(self@, name@) && i == index_of(self@, name@) && i
                    < self@.len() && self@[i as int].name == name@,
                None => !has_queue(self@, name@),
            },
    {
        let mut i: usize = 0;
        while i < self.handles.len()
            invariant
                i <= self.handles@.len(),
                well_formed(self@),
                forall|j: int| 0 <= j < i ==> (#[trigger] self@[j]).name != name@,
            decreases self.handles@.len() - i,
        {
            if self.handles[i].name == *name {
                assert(self@[i as int].name == name@);
                proof {
                    let k = index_of(self@, name@);
                    assert(self@[k].name == name@);
                    assert(k == i);
                }
                return Some(i);
            }
            i += 1;
        }
        None
    }

    /// Where the queue with the number `id` stands.
    pub fn find_id(&self, id: u64) -> (r: Option<usize>)
        requires
            self.wf(),
        ensures
            match r {
                Some(i) => has_id(self@, id) && i == index_of_id(self@, id) && i < self@.len()
                    && self@[i as int].id == id,
                None => !has_id(self@, id),
            },
    {
        let mut i: usize = 0;
        while i < self.handles.len()
            invariant
                i <= self.handles@.len(),
                well_formed(self@),
                forall|j: int| 0 <= j < i ==> (#[trigger] self@[j]).id != id,
            decreases self.handles@.len() - i,
        {
            if self.handles[i].id == id {
                assert(self@[i as int].id == id);
                proof {
                    let k = index_of_id(self@, id);
                    assert(self@[k].id == id);
                    assert(k == i);
                }
                return Some(i);
            }
            i += 1;
        }
        None
    }
}


impl QueueMap {
    /// Takes the queue at `i` out of the map.
    fn take_out(&mut self, i: usize) -> (handle: WorkerHandle)
        requires
            old(self).wf(),
            i < old(self)@.len(),
        ensures
            final(self).wf(),
            handle@ == old(self)@[i as int],
            final(self)@ == old(self)@.remove(i as int),
            final(self).next_id() == old(self).next_id(),
            handle.id < old(self).next_id(),
    {
        let ghost before = self@;
        let ghost after = before.remove(i as int);
        assert(Seq::new(
            self.handles@.remove(i as int).len(),
            |j: int| self.handles@.remove(i as int)[j]@,
        ) =~= after);
        assert(well_formed(after) && forall|j: int|
            0 <= j < after.len() ==> (#[trigger] after[j]).id < self.next_id) by {
            assert forall|j: int| 0 <= j < after.len() implies #[trigger] after[j] == before[if j
                < i {
                j
            } else {
                j + 1
            }] by {}
        }
        self.handles.remove(i)
    }

    /// Puts a queue into the map at `i`.
    fn put_in(&mut self, i: usize, handle: WorkerHandle)
        requires
            old(self).wf(),
            i <= old(self)@.len(),
            well_formed(old(self)@.insert(i as int, handle@)),
            handle.id < old(self).next_id(),
        ensures
            final(self).wf(),
            final(self)@ == old(self)@.insert(i as int, handle@),
            final(self).next_id() == old(self).next_id(),
    {
        let ghost before = self@;
        let ghost after = before.insert(i as int, handle@);
        assert(Seq::new(
            self.handles@.insert(i as int, handle).len(),
            |j: int| self.handles@.insert(i as int, handle)[j]@,
        ) =~= after);
        assert forall|j: int| 0 <= j < after.len() implies (#[trigger] after[j]).id
            < self.next_id by {
            if j < i {
                assert(after[j] == before[j]);
            } else if j > i {
                assert(after[j] == before[j - 1]);
            }
        }
        self.handles.insert(i, handle);
    }
}


/// The queues after one named `name` has been removed, or the error where
/// there is none.
pub open spec fn remove_spec(queues: Seq<HandleView>, name: Seq<char>) -> Result<
    Seq<HandleView>,
    HandlerErrorView,
> {
    if has_queue(queues, name) {
        Ok(queues.remove(index_of(queues, name)))
    } else {
        Err(HandlerErrorView::NotFound(name))
    }
}

/// The queues after arguments have been sent to the one named `name`: its
/// command line is made of them, the program is parted from its arguments,
/// and the task joins the end of the line. Or the error: no such queue,
/// arguments that do not fit the template, or no program to run.
pub open spec fn send_spec(
    queues: Seq<HandleView>,
    name: Seq<char>,
    args: Seq<Seq<char>>,
    timeout: Option<Duration>,
    dir: Option<PathBuf>,
) -> Result<Seq<HandleView>, HandlerErrorView> {
    if !has_queue(queues, name) {
        Err(HandlerErrorView::NotFound(name))
    } else {
        let i = index_of(queues, name);
        match command_of(queues[i], args) {
            Err(e) => Err(HandlerErrorView::Arity(e)),
            Ok(command) => if command.len() == 0 {
                Err(HandlerErrorView::EmptyCommand)
            } else {
                Ok(with_task(queues, i, task_of(command, timeout, dir)))
            },
        }
    }
}

/// The command lines of the tasks that wait in the queue named `name`, the
/// one in front first, or the error where there is no such queue.
pub open spec fn list_tasks_spec(queues: Seq<HandleView>, name: Seq<char>) -> Result<
    Seq<Seq<Seq<char>>>,
    HandlerErrorView,
> {
    if has_queue(queues, name) {
        let tasks = queues[index_of(queues, name)].tasks;
        Ok(Seq::new(tasks.len(), |k: int| tasks[k].argv()))
    } else {
        Err(HandlerErrorView::NotFound(name))
    }
}

/// The names of `queues`, in the order in which the queues were made.
pub open spec fn names_of(queues: Seq<HandleView>) -> Seq<Seq<char>> {
    Seq::new(queues.len(), |i: int| queues[i].name)
}

/// The queues after the worker of the queue at `i` has taken its turn.
pub open spec fn after_turn(queues: Seq<HandleView>, i: int) -> Seq<HandleView> {
    let queue = queues[i];
    if queue.tasks.len() > 0 && queue.live < queue.limit {
        queues.update(
            i,
            HandleView { tasks: queue.tasks.drop_first(), live: queue.live + 1, ..queue },
        )
    } else {
        queues
    }
}

/// The queues after a process of the queue at `i` has ended.
pub open spec fn after_end(queues: Seq<HandleView>, i: int) -> Seq<HandleView> {
    let queue = queues[i];
    queues.update(
        i,
        HandleView { live: live_after(queue.limit, queue.live, Event::Finished), ..queue },
    )
}

/// Changing what waits and what runs in one queue leaves the queues well
/// formed, as long as no more runs than may.
proof fn lemma_update_well_formed(queues: Seq<HandleView>, i: int, tasks: Seq<TaskView>, live: nat)
    requires
        well_formed(queues),
        0 <= i < queues.len(),
        live <= queues[i].limit,
    ensures
        well_formed(queues.update(i, HandleView { tasks, live, ..queues[i] })),
        queues.remove(i).insert(i, HandleView { tasks, live, ..queues[i] }) == queues.update(
            i,
            HandleView { tasks, live, ..queues[i] },
        ),
{
    let changed = HandleView { tasks, live, ..queues[i] };
    let after = queues.update(i, changed);
    assert(queues.remove(i).insert(i, changed) =~= after);
    assert forall|a: int, b: int| 0 <= a < b < after.len() implies (#[trigger] after[a]).name != (
    #[trigger] after[b]).name && after[a].id != after[b].id by {
        assert(after[a].name == queues[a].name && after[a].id == queues[a].id);
        assert(after[b].name == queues[b].name && after[b].id == queues[b].id);
    }
}

impl QueueMap {
    /// Makes a queue named `name`, with nothing waiting and nothing running,
    /// unless a queue of that name is there already. The answer is the number
    /// of the new queue, which no queue has had before.
    pub fn create(
        &mut self,
        name: String,
        max_parallel: usize,
        timeout: Option<Duration>,
        dir: Option<PathBuf>,
        template: Option<Template>,
    ) -> (r: Result<u64, HandlerError>)
        requires
            old(self).wf(),
        ensures
            final(self).wf(),
            match r {
                Ok(id) => {
                    &&& !has_queue(old(self)@, name@)
                    &&& !old(self).exhausted()
                    &&& id == old(self).next_id()
                    &&& final(self).next_id() == id + 1
                    &&& final(self)@ == old(self)@.push(
                        fresh(
                            id,
                            name@,
                            match template {
                                Some(t) => Some(t@),
                                None => None,
                            },
                            max_parallel as nat,
                            timeout,
                            dir,
                        ),
                    )
                },
                Err(e) => {
                    &&& final(self)@ == old(self)@
                    &&& final(self).next_id() == old(self).next_id()
                    &&& e@ == if has_queue(old(self)@, name@) {
                        HandlerErrorView::AlreadyExists(name@)
                    } else {
                        HandlerErrorView::TooManyQueues
                    }
                    &&& has_queue(old(self)@, name@) || old(self).exhausted()
                },
            },
    {
        if self.find(&name).is_some() {
            return Err(HandlerError::AlreadyExists(name));
        }
        if self.next_id == u64::MAX {
            return Err(HandlerError::TooManyQueues);
        }
        let id = self.next_id;
        let queue: TaskQueue = Queue::new();
        let worker = Worker::new(max_parallel, timeout, dir);
        let handle = WorkerHandle { id, name, queue, template, worker };
        let ghost before = self@;
        let ghost after = before.push(handle@);
        proof {
            assert(task_views(queue@) =~= Seq::<TaskView>::empty());
            assert(Seq::new(
                self.handles@.push(handle).len(),
                |j: int| self.handles@.push(handle)[j]@,
            ) =~= after);
            assert forall|i: int, j: int| 0 <= i < j < after.len() implies (#[trigger] after[i]).name
                != (#[trigger] after[j]).name && after[i].id != after[j].id by {
                assert(after[i] == before[i]);
                if j < before.len() {
                    assert(after[j] == before[j]);
                }
            }
            assert forall|i: int| 0 <= i < after.len() implies (#[trigger] after[i]).live
                <= after[i].limit && after[i].id < id + 1 by {
                if i < before.len() {
                    assert(after[i] == before[i]);
                }
            }
        }
        self.handles.push(handle);
        self.next_id = id + 1;
        Ok(id)
    }

    /// Removes the queue named `name`, with all that waits in it. The answer
    /// is the number of the queue, so that its worker can be stopped.
    pub fn remove(&mut self, name: &String) -> (r: Result<u64, HandlerError>)
        requires
            old(self).wf(),
        ensures
            final(self).wf(),
            final(self).next_id() == old(self).next_id(),
            match remove_spec(old(self)@, name@) {
                Ok(queues) => r is Ok && final(self)@ == queues && r->Ok_0 == old(self)@[index_of(
                    old(self)@,
                    name@,
                )].id,
                Err(e) => r is Err && r->Err_0@ == e && final(self)@ == old(self)@,
            },
    {
        match self.find(name) {
            None => Err(HandlerError::NotFound(name.clone())),
            Some(i) => {
                let handle = self.take_out(i);
                Ok(handle.id)
            },
        }
    }

    /// Sends a task to the queue named `name`: `args` go through the template
    /// of the queue, the first word of the result is the program, and the task
    /// joins the end of the line. The answer is the number of the queue, so
    /// that its worker can be woken up.
    pub fn send(
        &mut self,
        name: &String,
        args: Vec<String>,
        timeout: Option<Duration>,
        dir: Option<PathBuf>,
    ) -> (r: Result<u64, HandlerError>)
        requires
            old(self).wf(),
        ensures
            final(self).wf(),
            final(self).next_id() == old(self).next_id(),
            match send_spec(old(self)@, name@, strs(args@), timeout, dir) {
                Ok(queues) => r is Ok && final(self)@ == queues && r->Ok_0 == old(self)@[index_of(
                    old(self)@,
                    name@,
                )].id,
                Err(e) => r is Err && r->Err_0@ == e && final(self)@ == old(self)@,
            },
    {
        let i = match self.find(name) {
            None => {
                return Err(HandlerError::NotFound(name.clone()));
            },
            Some(i) => i,
        };
        let mut command = match self.handles[i].expand_args(args) {
            Err(e) => {
                return Err(HandlerError::Arity(e));
            },
            Ok(command) => command,
        };
        if command.len() == 0 {
            return Err(HandlerError::EmptyCommand);
        }
        let ghost words = strs(command@);
        let binary = command.remove(0);
        assert(strs(command@) =~= words.skip(1));
        let task = Task { binary, timeout, dir, args: command };
        let ghost before = self@;
        let mut handle = self.take_out(i);
        let ghost line = task_views(handle.queue@);
        handle.queue.push(task);
        proof {
            assert(task_views(handle.queue@) =~= line.push(task@));
            lemma_update_well_formed(before, i as int, line.push(task@), before[i as int].live);
        }
        let id = handle.id;
        self.put_in(i, handle);
        Ok(id)
    }
}

impl WorkerHandle {
    /// The command line that the queue makes of `args`: its template filled
    /// with them, or `args` as they are where it has none.
    pub fn expand_args(&self, args: Vec<String>) -> (r: Result<Vec<String>, ArityError>)
        ensures
            match command_of(self@, strs(args@)) {
                Ok(command) => r is Ok && strs(r->Ok_0@) == command,
                Err(e) => r is Err && r->Err_0 == e,
            },
    {
        match &self.template {
            Some(template) => template.instantiate(args.as_slice()),
            None => Ok(args),
        }
    }
}


impl QueueMap {
    /// The names of the queues, in the order in which the queues were made.
    pub fn names(&self) -> (names: Vec<String>)
        requires
            self.wf(),
        ensures
            strs(names@) == names_of(self@),
    {
        let mut names: Vec<String> = Vec::new();
        let mut i: usize = 0;
        while i < self.handles.len()
            invariant
                i <= self.handles@.len(),
                names@.len() == i,
                forall|j: int| 0 <= j < i ==> (#[trigger] names@[j])@ == self@[j].name,
            decreases self.handles@.len() - i,
        {
            names.push(self.handles[i].name.clone());
            i += 1;
        }
        assert(strs(names@) =~= names_of(self@));
        names
    }

    /// The command lines of the tasks that wait in the queue named `name`, the
    /// one in front first. Tasks that run already are not among them, and
    /// nothing leaves the line.
    pub fn tasks(&self, name: &String) -> (r: Result<Vec<Vec<String>>, HandlerError>)
        requires
            self.wf(),
        ensures
            match list_tasks_spec(self@, name@) {
                Ok(lines) => {
                    &&& r is Ok
                    &&& r->Ok_0@.len() == lines.len()
                    &&& forall|k: int|
                        0 <= k < lines.len() ==> strs((#[trigger] r->Ok_0@[k])@) == lines[k]
                },
                Err(e) => r is Err && r->Err_0@ == e,
            },
    {
        let i = match self.find(name) {
            None => {
                return Err(HandlerError::NotFound(name.clone()));
            },
            Some(i) => i,
        };
        let waiting = self.handles[i].queue.collect();
        let ghost line = self@[i as int].tasks;
        let mut lines: Vec<Vec<String>> = Vec::new();
        let mut k: usize = 0;
        while k < waiting.len()
            invariant
                k <= waiting@.len(),
                waiting@.len() == line.len(),
                forall|j: int| 0 <= j < line.len() ==> (#[trigger] waiting@[j])@ == line[j],
                lines@.len() == k,
                forall|j: int| 0 <= j < k ==> strs((#[trigger] lines@[j])@) == line[j].argv(),
            decreases waiting@.len() - k,
        {
            lines.push(waiting[k].argv());
            k += 1;
        }
        Ok(lines)
    }

    /// One turn of the worker of the queue with the number `id`: where a
    /// process may still start and a task waits, the task in front leaves the
    /// line and is handed out to be started. `None` means that the queue is
    /// gone and its worker has nothing more to do.
    pub fn dispatch(&mut self, id: u64) -> (r: Option<Dispatch>)
        requires
            old(self).wf(),
        ensures
            final(self).wf(),
            final(self).next_id() == old(self).next_id(),
            r is Some <==> has_id(old(self)@, id),
            !has_id(old(self)@, id) ==> final(self)@ == old(self)@,
            has_id(old(self)@, id) ==> {
                let i = index_of_id(old(self)@, id);
                let queue = old(self)@[i];
                &&& final(self)@ == after_turn(old(self)@, i)
                &&& match r->Some_0 {
                    Dispatch::Spawn(task) => {
                        &&& queue.tasks.len() > 0
                        &&& queue.live < queue.limit
                        &&& task@ == queue.tasks[0].with_defaults(queue.timeout, queue.dir)
                    },
                    Dispatch::WaitForTask => queue.tasks.len() == 0 && queue.live < queue.limit,
                    Dispatch::WaitForPermit => queue.live == queue.limit,
                }
            },
    {
        let i = match self.find_id(id) {
            None => {
                return None;
            },
            Some(i) => i,
        };
        let ghost before = self@;
        let mut handle = self.take_out(i);
        let ghost line = handle.queue@;
        let next = handle.worker.process_inner(&mut handle.queue);
        proof {
            if next is Spawn {
                assert(task_views(handle.queue@) =~= task_views(line).drop_first());
                assert(task_views(line)[0] == line[0]@);
            } else {
                assert(task_views(handle.queue@) =~= task_views(line));
            }
            lemma_update_well_formed(
                before,
                i as int,
                task_views(handle.queue@),
                handle.worker.live(),
            );
            assert(handle@ == HandleView {
                tasks: task_views(handle.queue@),
                live: handle.worker.live(),
                ..before[i as int]
            });
            if !(next is Spawn) {
                assert(before.update(i as int, handle@) =~= before);
            }
        }
        self.put_in(i, handle);
        Some(next)
    }

    /// A process of the queue with the number `id` has ended, however it
    /// ended: one more may start. Where the queue is gone, nothing changes.
    pub fn finished(&mut self, id: u64)
        requires
            old(self).wf(),
        ensures
            final(self).wf(),
            final(self).next_id() == old(self).next_id(),
            final(self)@ == if has_id(old(self)@, id) {
                after_end(old(self)@, index_of_id(old(self)@, id))
            } else {
                old(self)@
            },
    {
        let i = match self.find_id(id) {
            None => {
                return ;
            },
            Some(i) => i,
        };
        let ghost before = self@;
        let mut handle = self.take_out(i);
        if handle.worker.running() > 0 {
            handle.worker.finished();
        }
        proof {
            lemma_update_well_formed(
                before,
                i as int,
                before[i as int].tasks,
                handle.worker.live(),
            );
            assert(handle@ == HandleView {
                tasks: before[i as int].tasks,
                live: handle.worker.live(),
                ..before[i as int]
            });
        }
        self.put_in(i, handle);
    }

    /// Takes back the making of the queue with the number `id`, whose worker
    /// could not be started. Where no queue has that number, nothing changes.
    pub fn discard(&mut self, id: u64)
        requires
            old(self).wf(),
        ensures
            final(self).wf(),
            final(self).next_id() == old(self).next_id(),
            final(self)@ == if has_id(old(self)@, id) {
                old(self)@.remove(index_of_id(old(self)@, id))
            } else {
                old(self)@
            },
    {
        match self.find_id(id) {
            None => {},
            Some(i) => {
                let _ = self.take_out(i);
            },
        }
    }
}

/// Whether `history` tells of the queue `queue`: the same tasks wait, and as
/// many processes run.
pub open spec fn tells_of(history: History<TaskView>, queue: HandleView) -> bool {
    history.waiting == queue.tasks && history.live == queue.live
}

/// What is done to a queue is what happens in its history: a task sent to it,
/// a turn of its worker and the end of one of its processes change what waits
/// in the queue and what runs as the history says.
pub proof fn lemma_queue_follows_history(
    queues: Seq<HandleView>,
    i: int,
    history: History<TaskView>,
    task: TaskView,
)
    requires
        0 <= i < queues.len(),
        tells_of(history, queues[i]),
    ensures
        tells_of(
            history_after(queues[i].limit, history, Happening::Sent(task)),
            with_task(queues, i, task)[i],
        ),
        tells_of(
            history_after(queues[i].limit, history, Happening::Turn),
            after_turn(queues, i)[i],
        ),
        tells_of(
            history_after(queues[i].limit, history, Happening::Ended),
            after_end(queues, i)[i],
        ),
{
}

/// A queue that has been removed is gone: no queue has its name any more, so
/// that sending to it and listing its tasks both fail, as for a queue that
/// never was.
pub proof fn lemma_removed_is_gone(
    queues: Seq<HandleView>,
    name: Seq<char>,
    args: Seq<Seq<char>>,
    timeout: Option<Duration>,
    dir: Option<PathBuf>,
)
    requires
        well_formed(queues),
        remove_spec(queues, name) is Ok,
    ensures
        !has_queue(remove_spec(queues, name)->Ok_0, name),
        send_spec(remove_spec(queues, name)->Ok_0, name, args, timeout, dir) == Err::<
            Seq<HandleView>,
            HandlerErrorView,
        >(HandlerErrorView::NotFound(name)),
        list_tasks_spec(remove_spec(queues, name)->Ok_0, name) == Err::<
            Seq<Seq<Seq<char>>>,
            HandlerErrorView,
        >(HandlerErrorView::NotFound(name)),
{
    let i = index_of(queues, name);
    let after = queues.remove(i);
    assert forall|j: int| 0 <= j < after.len() implies (#[trigger] after[j]).name != name by {
        let k = if j < i {
            j
        } else {
            j + 1
        };
        assert(after[j] == queues[k]);
        assert(queues[i].name == name);
        if k < i {
            assert(queues[k].name != queues[i].name);
        } else {
            assert(queues[i].name != queues[k].name);
        }
    }
}

/// What is listed is what waits: a task that has been sent to a queue is the
/// last of those listed, after all that waited before it, and a task that the
/// worker has taken is listed no more.
pub proof fn lemma_list_follows_line(
    queues: Seq<HandleView>,
    name: Seq<char>,
    args: Seq<Seq<char>>,
    timeout: Option<Duration>,
    dir: Option<PathBuf>,
)
    requires
        well_formed(queues),
        send_spec(queues, name, args, timeout, dir) is Ok,
    ensures
        list_tasks_spec(queues, name) is Ok,
        command_of(queues[index_of(queues, name)], args) is Ok,
        list_tasks_spec(send_spec(queues, name, args, timeout, dir)->Ok_0, name) == Ok::<
            Seq<Seq<Seq<char>>>,
            HandlerErrorView,
        >(
            list_tasks_spec(queues, name)->Ok_0.push(
                command_of(queues[index_of(queues, name)], args)->Ok_0,
            ),
        ),
{
    let i = index_of(queues, name);
    let command = command_of(queues[i], args)->Ok_0;
    let task = task_of(command, timeout, dir);
    let after = with_task(queues, i, task);
    assert(after[i].name == name);
    assert(has_queue(after, name));
    let k = index_of(after, name);
    assert(after[k].name == name);
    assert(k == i) by {
        if k != i {
            assert(after[k] == queues[k]);
            if k < i {
                assert(queues[k].name != queues[i].name);
            } else {
                assert(queues[i].name != queues[k].name);
            }
        }
    }
    assert(task.argv() =~= command);
    let tasks = queues[i].tasks;
    assert(Seq::new(after[i].tasks.len(), |k: int| after[i].tasks[k].argv()) =~= Seq::new(
        tasks.len(),
        |k: int| tasks[k].argv(),
    ).push(command));
}


impl HandlerErrorView {
    /// The error in words, as the client is told it.
    pub open spec fn text(self) -> Seq<char> {
        match self {
            HandlerErrorView::AlreadyExists(name) => "queue '"@ + name + "' already exists"@,
            HandlerErrorView::NotFound(name) => "queue '"@ + name + "' does not exist"@,
            HandlerErrorView::EmptyCommand => "command cannot be empty"@,
            HandlerErrorView::Arity(e) => e.text(),
            HandlerErrorView::TooManyQueues => "too many queues"@,
        }
    }
}

impl HandlerError {
    /// The error in words, as the client is told it.
    pub fn message(&self) -> (text: String)
        ensures
            text@ == self@.text(),
    {
        match self {
            HandlerError::AlreadyExists(name) => {
                let mut text = "queue '".to_owned();
                text.append(name.as_str());
                text.append("' already exists");
                text
            },
            HandlerError::NotFound(name) => {
                let mut text = "queue '".to_owned();
                text.append(name.as_str());
                text.append("' does not exist");
                text
            },
            HandlerError::EmptyCommand => "command cannot be empty".to_owned(),
            HandlerError::Arity(e) => e.message(),
            HandlerError::TooManyQueues => "too many queues".to_owned(),
        }
    }
}

/// What is left to do outside once a request has been handled.
#[derive(Debug)]
pub enum Effect {
    /// Nothing.
    Nothing,
    /// Start the worker of the queue just made; its output goes to the file
    /// named, or to the standard output of the server.
    StartWorker { id: u64, output: Option<PathBuf> },
    /// Stop the worker of the queue just removed, and the processes it started.
    StopWorker { id: u64 },
    /// Tell the worker of the queue that a task has come.
    WakeWorker { id: u64 },
}

/// A response and what is left to do outside.
#[derive(Debug)]
pub struct Outcome {
    pub response: response::Response,
    pub effect: Effect,
}

/// A response, with its texts as sequences of characters.
pub enum ResponseView {
    Empty,
    Queues(Seq<Seq<char>>),
    Tasks(Seq<Seq<Seq<char>>>),
    Error(Seq<char>),
}

/// What a response says.
pub open spec fn response_view(resp: response::Response) -> ResponseView {
    match resp {
        response::Response::Success(response::Any::Empty(_)) => ResponseView::Empty,
        response::Response::Success(response::Any::ListQueues(list)) => ResponseView::Queues(
            Seq::new(list.queues@.len(), |i: int| list.queues@[i].name@),
        ),
        response::Response::Success(response::Any::ListTasks(list)) => ResponseView::Tasks(
            Seq::new(list.tasks@.len(), |i: int| strs(list.tasks@[i].args@)),
        ),
        response::Response::Error(e) => ResponseView::Error(e.message@),
    }
}

/// The template of a request, as its pieces.
pub open spec fn template_view(template: Option<Template>) -> Option<Seq<PieceView>> {
    match template {
        Some(t) => Some(t@),
        None => None,
    }
}

/// The queues after one has been made as `req` asks, with the number
/// `next_id`; or the error: the name is taken, or the numbers have run out.
pub open spec fn create_spec(queues: Seq<HandleView>, next_id: u64, req: request::CreateQueue)
    -> Result<Seq<HandleView>, HandlerErrorView> {
    if has_queue(queues, req.name@) {
        Err(HandlerErrorView::AlreadyExists(req.name@))
    } else if next_id == u64::MAX {
        Err(HandlerErrorView::TooManyQueues)
    } else {
        Ok(
            queues.push(
                fresh(
                    next_id,
                    req.name@,
                    template_view(req.template),
                    req.max_parallel as nat,
                    req.timeout,
                    req.dir,
                ),
            ),
        )
    }
}

/// The queues after `req`, or the error with which `req` fails.
pub open spec fn apply(queues: Seq<HandleView>, next_id: u64, req: request::Request) -> Result<
    Seq<HandleView>,
    HandlerErrorView,
> {
    match req {
        request::Request::StopServer => Ok(queues),
        request::Request::CreateQueue(create) => create_spec(queues, next_id, create),
        request::Request::RemoveQueue(remove) => remove_spec(queues, remove.name@),
        request::Request::Send(send) => send_spec(
            queues,
            send.name@,
            strs(send.args@),
            send.timeout,
            send.dir,
        ),
        request::Request::ListQueues => Ok(queues),
        request::Request::ListTasks(list) => match list_tasks_spec(queues, list.name@) {
            Ok(_) => Ok(queues),
            Err(e) => Err(e),
        },
    }
}

/// What the client is told in answer to `req`.
pub open spec fn answer(queues: Seq<HandleView>, next_id: u64, req: request::Request)
    -> ResponseView {
    match apply(queues, next_id, req) {
        Err(e) => ResponseView::Error(e.text()),
        Ok(_) => match req {
            request::Request::ListQueues => ResponseView::Queues(names_of(queues)),
            request::Request::ListTasks(list) => ResponseView::Tasks(
                list_tasks_spec(queues, list.name@)->Ok_0,
            ),
            _ => ResponseView::Empty,
        },
    }
}

/// What is left to do outside after `req`.
pub open spec fn effect_of(queues: Seq<HandleView>, next_id: u64, req: request::Request)
    -> Effect {
    match apply(queues, next_id, req) {
        Err(_) => Effect::Nothing,
        Ok(_) => match req {
            request::Request::CreateQueue(create) => Effect::StartWorker {
                id: next_id,
                output: create.output,
            },
            request::Request::RemoveQueue(remove) => Effect::StopWorker {
                id: queues[index_of(queues, remove.name@)].id,
            },
            request::Request::Send(send) => Effect::WakeWorker {
                id: queues[index_of(queues, send.name@)].id,
            },
            _ => Effect::Nothing,
        },
    }
}


/// What a session does next.
#[derive(Debug, PartialEq, Eq, Structural)]
pub enum Step {
    /// Read the next request.
    Read,
    /// End the session; with `shutdown`, shut the server down on the way out.
    Finish { shutdown: bool },
}

/// The session of one client: one request at a time, each answered before the
/// next is read.
#[derive(Debug)]
pub struct ClientHandler {
    shutdown_requested: bool,
}

/// The response that tells of a failure.
fn failure(e: &HandlerError) -> (resp: response::Response)
    ensures
        response_view(resp) == ResponseView::Error(e@.text()),
{
    response::Response::Error(response::Error { message: e.message() })
}

/// The response that holds nothing.
fn done() -> (resp: response::Response)
    ensures
        response_view(resp) == ResponseView::Empty,
{
    response::Response::Success(response::Any::Empty(response::Empty {  }))
}

impl ClientHandler {
    /// Whether the client has asked for the server to stop.
    pub closed spec fn stopping(&self) -> bool {
        self.shutdown_requested
    }

    /// A session in which nothing has been asked yet.
    pub fn new() -> (handler: ClientHandler)
        ensures
            !handler.stopping(),
    {
        ClientHandler { shutdown_requested: false }
    }

    /// Whether the client has asked for the server to stop.
    pub fn shutdown_requested(&self) -> (r: bool)
        ensures
            r == self.stopping(),
    {
        self.shutdown_requested
    }

    /// What the session does next: it ends when the server shuts down, and it
    /// ends and shuts the server down when its client has asked for that and
    /// has had the answer; otherwise it reads on.
    pub fn serve(&self, server_shutdown: bool) -> (step: Step)
        ensures
            step == if server_shutdown {
                Step::Finish { shutdown: false }
            } else if self.stopping() {
                Step::Finish { shutdown: true }
            } else {
                Step::Read
            },
    {
        if server_shutdown {
            Step::Finish { shutdown: false }
        } else if self.shutdown_requested {
            Step::Finish { shutdown: true }
        } else {
            Step::Read
        }
    }

    /// Takes what was read from the client: a request is handled and gives a
    /// response, and the end of the stream ends the session with nothing to
    /// write and nothing changed.
    pub fn serve_inner(&mut self, queues: &mut QueueMap, message: Option<request::Request>) -> (r:
        Option<Outcome>)
        requires
            old(queues).wf(),
        ensures
            final(queues).wf(),
            r is Some <==> message is Some,
            message is None ==> final(queues)@ == old(queues)@ && final(self).stopping() == old(
                self,
            ).stopping(),
            message matches Some(req) ==> {
                &&& final(queues)@ == match apply(old(queues)@, old(queues).next_id(), req) {
                    Ok(q) => q,
                    Err(_) => old(queues)@,
                }
                &&& response_view(r->Some_0.response) == answer(
                    old(queues)@,
                    old(queues).next_id(),
                    req,
                )
                &&& r->Some_0.effect == effect_of(old(queues)@, old(queues).next_id(), req)
                &&& final(self).stopping() == (old(self).stopping() || req is StopServer)
            },
    {
        match message {
            None => None,
            Some(req) => Some(self.handle_request(queues, req)),
        }
    }

    /// Handles one request: the queues change as the request says, and the
    /// response tells what came of it.
    pub fn handle_request(&mut self, queues: &mut QueueMap, req: request::Request) -> (out: Outcome)
        requires
            old(queues).wf(),
        ensures
            final(queues).wf(),
            final(queues)@ == match apply(old(queues)@, old(queues).next_id(), req) {
                Ok(q) => q,
                Err(_) => old(queues)@,
            },
            response_view(out.response) == answer(old(queues)@, old(queues).next_id(), req),
            out.effect == effect_of(old(queues)@, old(queues).next_id(), req),
            final(self).stopping() == (old(self).stopping() || req is StopServer),
    {
        match req {
            request::Request::StopServer => {
                let _ = self.handle_stop_server();
                Outcome { response: done(), effect: Effect::Nothing }
            },
            request::Request::CreateQueue(create) => {
                let (r, effect) = self.handle_create_queue(queues, create);
                match r {
                    Ok(_) => Outcome { response: done(), effect },
                    Err(e) => Outcome { response: failure(&e), effect },
                }
            },
            request::Request::RemoveQueue(remove) => {
                let (r, effect) = self.handle_remove_queue(queues, remove);
                match r {
                    Ok(_) => Outcome { response: done(), effect },
                    Err(e) => Outcome { response: failure(&e), effect },
                }
            },
            request::Request::Send(send) => {
                let (r, effect) = self.handle_send(queues, send);
                match r {
                    Ok(_) => Outcome { response: done(), effect },
                    Err(e) => Outcome { response: failure(&e), effect },
                }
            },
            request::Request::ListQueues => {
                let list = self.handle_list_queues(queues);
                Outcome {
                    response: response::Response::Success(response::Any::ListQueues(list)),
                    effect: Effect::Nothing,
                }
            },
            request::Request::ListTasks(list) => {
                match self.handle_list_tasks(queues, list) {
                    Ok(tasks) => Outcome {
                        response: response::Response::Success(response::Any::ListTasks(tasks)),
                        effect: Effect::Nothing,
                    },
                    Err(e) => Outcome { response: failure(&e), effect: Effect::Nothing },
                }
            },
        }
    }

    /// The client asks for the server to stop: the session remembers it, and
    /// the answer is a success. The server is shut down after the answer has
    /// been written.
    pub fn handle_stop_server(&mut self) -> (r: Result<response::Empty, HandlerError>)
        ensures
            r is Ok,
            final(self).stopping(),
    {
        self.shutdown_requested = true;
        response::ok()
    }

    /// Makes a queue, unless one of that name is there already. Its worker is
    /// left to be started.
    pub fn handle_create_queue(&self, queues: &mut QueueMap, req: request::CreateQueue) -> (r: (
        Result<response::Empty, HandlerError>,
        Effect,
    ))
        requires
            old(queues).wf(),
        ensures
            final(queues).wf(),
            match create_spec(old(queues)@, old(queues).next_id(), req) {
                Ok(q) => r.0 is Ok && final(queues)@ == q && final(queues).next_id() == old(
                    queues,
                ).next_id() + 1,
                Err(e) => r.0 is Err && r.0->Err_0@ == e && final(queues)@ == old(queues)@
                    && final(queues).next_id() == old(queues).next_id(),
            },
            r.1 == effect_of(
                old(queues)@,
                old(queues).next_id(),
                request::Request::CreateQueue(req),
            ),
    {
        let request::CreateQueue { name, max_parallel, output, timeout, dir, template } = req;
        match queues.create(name, max_parallel, timeout, dir, template) {
            Ok(id) => (response::ok(), Effect::StartWorker { id, output }),
            Err(e) => (Err(e), Effect::Nothing),
        }
    }

    /// Removes a queue, with all that waits in it. Its worker is left to be
    /// stopped, and with it the processes that it started.
    pub fn handle_remove_queue(&self, queues: &mut QueueMap, req: request::RemoveQueue) -> (r: (
        Result<response::Empty, HandlerError>,
        Effect,
    ))
        requires
            old(queues).wf(),
        ensures
            final(queues).wf(),
            final(queues).next_id() == old(queues).next_id(),
            match remove_spec(old(queues)@, req.name@) {
                Ok(q) => r.0 is Ok && final(queues)@ == q,
                Err(e) => r.0 is Err && r.0->Err_0@ == e && final(queues)@ == old(queues)@,
            },
            r.1 == effect_of(
                old(queues)@,
                old(queues).next_id(),
                request::Request::RemoveQueue(req),
            ),
    {
        match queues.remove(&req.name) {
            Ok(id) => (response::ok(), Effect::StopWorker { id }),
            Err(e) => (Err(e), Effect::Nothing),
        }
    }

    /// Sends a task to a queue. The answer means that the task waits in the
    /// line, not that it runs; the worker of the queue is left to be told.
    pub fn handle_send(&self, queues: &mut QueueMap, req: request::Send) -> (r: (
        Result<response::Empty, HandlerError>,
        Effect,
    ))
        requires
            old(queues).wf(),
        ensures
            final(queues).wf(),
            final(queues).next_id() == old(queues).next_id(),
            match send_spec(old(queues)@, req.name@, strs(req.args@), req.timeout, req.dir) {
                Ok(q) => r.0 is Ok && final(queues)@ == q,
                Err(e) => r.0 is Err && r.0->Err_0@ == e && final(queues)@ == old(queues)@,
            },
            r.1 == effect_of(old(queues)@, old(queues).next_id(), request::Request::Send(req)),
    {
        let request::Send { name, timeout, dir, args } = req;
        match queues.send(&name, args, timeout, dir) {
            Ok(id) => (response::ok(), Effect::WakeWorker { id }),
            Err(e) => (Err(e), Effect::Nothing),
        }
    }

    /// The queues that there are, by name.
    pub fn handle_list_queues(&self, queues: &QueueMap) -> (list: response::ListQueues)
        requires
            queues.wf(),
        ensures
            response_view(response::Response::Success(response::Any::ListQueues(list)))
                == ResponseView::Queues(names_of(queues@)),
    {
        let names = queues.names();
        let ghost texts = strs(names@);
        let mut list: Vec<response::Queue> = Vec::new();
        let mut names = names;
        let mut i: usize = 0;
        while i < names.len()
            invariant
                i <= names@.len(),
                strs(names@) == texts,
                list@.len() == i,
                forall|j: int| 0 <= j < i ==> (#[trigger] list@[j]).name@ == texts[j],
            decreases names@.len() - i,
        {
            assert(texts[i as int] == names@[i as int]@);
            list.push(response::Queue { name: names[i].clone() });
            i += 1;
        }
        let list = response::ListQueues { queues: list };
        assert(Seq::new(list.queues@.len(), |i: int| list.queues@[i].name@) =~= names_of(queues@));
        list
    }

    /// The tasks that wait in a queue, each as its command line with the
    /// program first. Tasks that run already are not listed.
    pub fn handle_list_tasks(&self, queues: &QueueMap, req: request::ListTasks) -> (r: Result<
        response::ListTasks,
        HandlerError,
    >)
        requires
            queues.wf(),
        ensures
            match list_tasks_spec(queues@, req.name@) {
                Ok(lines) => r is Ok && response_view(
                    response::Response::Success(response::Any::ListTasks(r->Ok_0)),
                ) == ResponseView::Tasks(lines),
                Err(e) => r is Err && r->Err_0@ == e,
            },
    {
        let mut lines = match queues.tasks(&req.name) {
            Err(e) => {
                return Err(e);
            },
            Ok(lines) => lines,
        };
        let ghost wanted = list_tasks_spec(queues@, req.name@)->Ok_0;
        let mut tasks: Vec<response::Task> = Vec::new();
        let mut i: usize = 0;
        while i < lines.len()
            invariant
                i <= lines@.len(),
                lines@.len() == wanted.len(),
                forall|k: int| 0 <= k < wanted.len() ==> strs((#[trigger] lines@[k])@) == wanted[k],
                tasks@.len() == i,
                forall|j: int| 0 <= j < i ==> strs((#[trigger] tasks@[j]).args@) == wanted[j],
            decreases lines@.len() - i,
        {
            let args = crate::text::clone_words(&lines[i]);
            tasks.push(response::Task { args });
            i += 1;
        }
        let list = response::ListTasks { tasks };
        assert(Seq::new(list.tasks@.len(), |i: int| strs(list.tasks@[i].args@)) =~= wanted);
        Ok(list)
    }
}


/// What the server does next.
#[derive(Debug, PartialEq, Eq, Structural)]
pub enum ServerStep {
    /// Take the next client.
    Accept,
    /// Take no more clients, and wait for the sessions that are open to end.
    Drain,
    /// Return: the server has been shut down and every session has ended.
    Return,
}

/// The server: its queues, the trigger that shuts it down, and the barrier
/// that its sessions hold open.
pub struct QueueServer {
    queues: QueueMap,
    shutdown: Trigger,
    shutdown_waiter: DropWaiter,
}

impl QueueServer {
    /// The server is usable: its queues are in order.
    pub closed spec fn wf(&self) -> bool {
        self.queues.wf()
    }

    /// The queues of the server.
    pub closed spec fn queues(&self) -> Seq<HandleView> {
        self.queues@
    }

    /// Whether the server has been told to shut down.
    pub closed spec fn stopping(&self) -> bool {
        self.shutdown.is_set()
    }

    /// The number of sessions that are open.
    pub closed spec fn sessions(&self) -> nat {
        self.shutdown_waiter.outstanding()
    }

    /// A server without queues or sessions, which has not been told to shut
    /// down.
    pub fn new() -> (server: QueueServer)
        ensures
            server.wf(),
            server.queues() == Seq::<HandleView>::empty(),
            server.next_id() == 0,
            !server.stopping(),
            server.sessions() == 0,
    {
        let (shutdown, _) = condition();
        QueueServer { queues: QueueMap::new(), shutdown, shutdown_waiter: DropWaiter::new() }
    }

    /// The number of sessions that are open.
    pub fn open_sessions(&self) -> (n: usize)
        ensures
            n == self.sessions(),
    {
        self.shutdown_waiter.guards()
    }

    /// Whether the server has been told to shut down.
    pub fn is_stopping(&self) -> (r: bool)
        ensures
            r == self.stopping(),
    {
        self.shutdown.fired()
    }

    /// Tells the server to shut down. Telling it again changes nothing.
    pub fn shutdown_notifer(&mut self)
        ensures
            final(self).stopping(),
            final(self).wf() == old(self).wf(),
            final(self).queues() == old(self).queues(),
            final(self).sessions() == old(self).sessions(),
    {
        self.shutdown.set();
    }

    /// What the server does next: it takes clients until it is told to shut
    /// down, then waits for the sessions that are open, and returns when the
    /// last of them has ended, not before.
    pub fn serve(&self) -> (step: ServerStep)
        ensures
            step == if !self.stopping() {
                ServerStep::Accept
            } else if self.sessions() > 0 {
                ServerStep::Drain
            } else {
                ServerStep::Return
            },
    {
        if !self.shutdown.fired() {
            ServerStep::Accept
        } else if !self.shutdown_waiter.wait() {
            ServerStep::Drain
        } else {
            ServerStep::Return
        }
    }

    /// A client has come: a session is opened for it. The session holds a
    /// guard of the barrier until it ends.
    pub fn serve_inner(&mut self) -> (r: (ClientHandler, DropGuard))
        requires
            old(self).sessions() < usize::MAX,
        ensures
            !r.0.stopping(),
            final(self).sessions() == old(self).sessions() + 1,
            final(self).stopping() == old(self).stopping(),
            final(self).wf() == old(self).wf(),
            final(self).queues() == old(self).queues(),
    {
        let guard = self.shutdown_waiter.guard();
        (ClientHandler::new(), guard)
    }

    /// A session has ended and gives its guard back. Where its client had
    /// asked for the server to stop, the server is told to shut down.
    pub fn session_ended(&mut self, handler: ClientHandler, guard: DropGuard)
        requires
            old(self).sessions() > 0,
        ensures
            final(self).sessions() == old(self).sessions() - 1,
            final(self).stopping() == (old(self).stopping() || handler.stopping()),
            final(self).wf() == old(self).wf(),
            final(self).queues() == old(self).queues(),
    {
        if handler.shutdown_requested() {
            self.shutdown.set();
        }
        self.shutdown_waiter.release(guard);
    }

    /// Handles one request of the session `handler`.
    pub fn handle_request(&mut self, handler: &mut ClientHandler, req: request::Request) -> (out:
        Outcome)
        requires
            old(self).wf(),
        ensures
            final(self).wf(),
            final(self).sessions() == old(self).sessions(),
            final(self).stopping() == old(self).stopping(),
            final(self).queues() == match apply(
                old(self).queues(),
                old(self).next_id(),
                req,
            ) {
                Ok(q) => q,
                Err(_) => old(self).queues(),
            },
            response_view(out.response) == answer(old(self).queues(), old(self).next_id(), req),
            out.effect == effect_of(old(self).queues(), old(self).next_id(), req),
            final(handler).stopping() == (old(handler).stopping() || req is StopServer),
    {
        handler.handle_request(&mut self.queues, req)
    }

    /// The number that the next queue gets.
    pub closed spec fn next_id(&self) -> u64 {
        self.queues.next_id()
    }

    /// One turn of the worker of the queue with the number `id`, unless the
    /// server shuts down: then every worker stops.
    pub fn dispatch(&mut self, id: u64) -> (r: Option<Dispatch>)
        requires
            old(self).wf(),
        ensures
            final(self).wf(),
            final(self).sessions() == old(self).sessions(),
            final(self).stopping() == old(self).stopping(),
            final(self).next_id() == old(self).next_id(),
            r is Some <==> !old(self).stopping() && has_id(old(self).queues(), id),
            r is None ==> final(self).queues() == old(self).queues(),
            r is Some ==> {
                let i = index_of_id(old(self).queues(), id);
                let queue = old(self).queues()[i];
                &&& final(self).queues() == after_turn(old(self).queues(), i)
                &&& match r->Some_0 {
                    Dispatch::Spawn(task) => {
                        &&& queue.tasks.len() > 0
                        &&& queue.live < queue.limit
                        &&& task@ == queue.tasks[0].with_defaults(queue.timeout, queue.dir)
                    },
                    Dispatch::WaitForTask => queue.tasks.len() == 0 && queue.live < queue.limit,
                    Dispatch::WaitForPermit => queue.live == queue.limit,
                }
            },
    {
        if self.shutdown.fired() {
            None
        } else {
            self.queues.dispatch(id)
        }
    }

    /// A process of the queue with the number `id` has ended.
    pub fn finished(&mut self, id: u64)
        requires
            old(self).wf(),
        ensures
            final(self).wf(),
            final(self).sessions() == old(self).sessions(),
            final(self).stopping() == old(self).stopping(),
            final(self).next_id() == old(self).next_id(),
            final(self).queues() == if has_id(old(self).queues(), id) {
                after_end(old(self).queues(), index_of_id(old(self).queues(), id))
            } else {
                old(self).queues()
            },
    {
        self.queues.finished(id);
    }

    /// Takes back the making of the queue with the number `id`, whose worker
    /// could not be started, and gives the response that tells the client why.
    pub fn worker_failed(&mut self, id: u64, message: String) -> (resp: response::Response)
        requires
            old(self).wf(),
        ensures
            final(self).wf(),
            final(self).sessions() == old(self).sessions(),
            final(self).stopping() == old(self).stopping(),
            final(self).next_id() == old(self).next_id(),
            final(self).queues() == if has_id(old(self).queues(), id) {
                old(self).queues().remove(index_of_id(old(self).queues(), id))
            } else {
                old(self).queues()
            },
            response_view(resp) == ResponseView::Error(message@),
    {
        self.queues.discard(id);
        response::Response::Error(response::Error { message })
    }
}

} // verus!
