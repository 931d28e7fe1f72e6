use pqueue::queue::Queue;
use pqueue::shell::command_line;
use pqueue::sync::{condition, DropWaiter};
use pqueue::worker::{Dispatch, Task, TaskQueue, Worker};
use std::path::PathBuf;
use std::time::Duration;

fn task(binary: &str) -> Task {
    Task {
        binary: binary.to_string(),
        timeout: None,
        dir: None,
        args: vec!["a b".to_string(), "c".to_string()],
    }
}

#[test]
fn first_in_first_out() {
    let mut q: Queue<u32> = Queue::new();
    assert_eq!(q.pop(), None);
    q.push(1);
    q.push(2);
    q.push(3);
    assert_eq!(q.len(), 3);
    assert_eq!(q.collect(), vec![1, 2, 3]);
    assert_eq!(q.len(), 3);
    assert_eq!(q.pop(), Some(1));
    q.push(4);
    assert_eq!(q.collect(), vec![2, 3, 4]);
    assert_eq!(q.pop(), Some(2));
    assert_eq!(q.pop(), Some(3));
    assert_eq!(q.pop(), Some(4));
    assert_eq!(q.pop(), None);
    assert_eq!(q.collect(), Vec::<u32>::new());
}

#[test]
fn tasks_show_as_command_lines() {
    let t = task("/bin/echo");
    assert_eq!(t.argv(), vec!["/bin/echo", "a b", "c"]);
    assert_eq!(t.to_string(), "/bin/echo 'a b' c");
    let copy = t.clone();
    assert_eq!(copy.binary, t.binary);
    assert_eq!(copy.args, t.args);
    assert_eq!(copy.timeout, t.timeout);
    assert_eq!(copy.dir, t.dir);
    assert_eq!(
        command_line(&vec!["a".to_string(), "".to_string(), "b c".to_string()]),
        "a '' 'b c'"
    );
    assert_eq!(command_line(&Vec::new()), "");
}

#[test]
fn the_worker_never_exceeds_its_limit() {
    let mut worker = Worker::new(2, Some(Duration::from_secs(3)), Some(PathBuf::from("/w")));
    let mut queue: TaskQueue = Queue::new();
    assert_eq!(worker.max_parallel(), 2);
    assert_eq!(worker.running(), 0);
    assert!(matches!(
        worker.process_inner(&mut queue),
        Dispatch::WaitForTask
    ));
    assert_eq!(worker.running(), 0);
    for name in ["one", "two", "three"] {
        queue.push(task(name));
    }
    match worker.process_inner(&mut queue) {
        Dispatch::Spawn(t) => {
            assert_eq!(t.binary, "one");
            assert_eq!(t.timeout, Some(Duration::from_secs(3)));
            assert_eq!(t.dir, Some(PathBuf::from("/w")));
        }
        _ => panic!("nothing to start"),
    }
    assert!(matches!(
        worker.process_inner(&mut queue),
        Dispatch::Spawn(_)
    ));
    assert_eq!(worker.running(), 2);
    assert!(matches!(
        worker.process_inner(&mut queue),
        Dispatch::WaitForPermit
    ));
    assert_eq!(worker.running(), 2);
    assert_eq!(queue.len(), 1);
    worker.finished();
    assert_eq!(worker.running(), 1);
    assert!(worker.process(&mut queue, true, false).is_none());
    assert!(worker.process(&mut queue, false, true).is_none());
    assert_eq!(queue.len(), 1);
    match worker.process(&mut queue, false, false) {
        Some(Dispatch::Spawn(t)) => assert_eq!(t.binary, "three"),
        _ => panic!("nothing to start"),
    }
    assert_eq!(worker.running(), 2);
}

#[test]
fn a_worker_that_may_run_nothing_runs_nothing() {
    let mut worker = Worker::new(0, None, None);
    let mut queue: TaskQueue = Queue::new();
    queue.push(task("x"));
    assert!(matches!(
        worker.process_inner(&mut queue),
        Dispatch::WaitForPermit
    ));
    assert_eq!(queue.len(), 1);
}

#[test]
fn triggers_stay_set() {
    let (mut trigger, mut waiter) = condition();
    let mut late = trigger.waiter();
    assert!(!trigger.fired());
    assert!(!waiter.wait(&trigger));
    trigger.set();
    trigger.set();
    assert!(trigger.fired());
    assert!(waiter.wait(&trigger));
    assert!(late.wait(&trigger));
    let (fresh, _) = condition();
    assert!(waiter.wait(&fresh));
    assert!(trigger.waiter().wait(&trigger));
    assert!(trigger.waiter().wait(&fresh));
    assert!(!fresh.waiter().wait(&fresh));
}

#[test]
fn the_barrier_opens_when_all_guards_are_back() {
    let mut barrier = DropWaiter::new();
    assert!(barrier.wait());
    let a = barrier.guard();
    let b = barrier.guard();
    assert_eq!(barrier.guards(), 2);
    assert!(!barrier.wait());
    barrier.release(a);
    assert!(!barrier.wait());
    barrier.release(b);
    assert!(barrier.wait());
}
