use pqueue::process::{
    close_fds, parse_fd, spawn_error, InvalidFd, Level, Process, WaitEvent,
};
use pqueue::worker::Task;
use std::path::PathBuf;
use std::time::Duration;

fn strings(items: &[&str]) -> Vec<String> {
    items.iter().map(|s| s.to_string()).collect()
}

fn task() -> Task {
    Task {
        binary: "/bin/echo".to_string(),
        timeout: Some(Duration::from_secs(1)),
        dir: Some(PathBuf::from("/tmp")),
        args: strings(&["hello world", "x"]),
    }
}

#[test]
fn descriptors_are_read_as_numbers() {
    assert_eq!(parse_fd("0"), Some(0));
    assert_eq!(parse_fd("17"), Some(17));
    assert_eq!(parse_fd("+5"), Some(5));
    assert_eq!(parse_fd("-5"), Some(-5));
    assert_eq!(parse_fd("007"), Some(7));
    assert_eq!(parse_fd("2147483647"), Some(2147483647));
    assert_eq!(parse_fd("-2147483648"), Some(-2147483648));
    assert_eq!(parse_fd("2147483648"), None);
    assert_eq!(parse_fd("-2147483649"), None);
    assert_eq!(parse_fd("99999999999999999999999"), None);
    assert_eq!(parse_fd(""), None);
    assert_eq!(parse_fd("+"), None);
    assert_eq!(parse_fd("-"), None);
    assert_eq!(parse_fd("1a"), None);
    assert_eq!(parse_fd(" 1"), None);
    assert_eq!(parse_fd("self"), None);
    for name in ["0", "12", "+12", "-12", "x", "", "4294967296", "-0"] {
        assert_eq!(parse_fd(name), name.parse::<i32>().ok());
    }
}

#[test]
fn all_but_the_kept_descriptors_are_closed() {
    let open = strings(&["0", "1", "2", "3", "7", "12", "3"]);
    assert_eq!(close_fds(&open, &[0, 1, 2]), Ok(vec![3, 7, 12, 3]));
    assert_eq!(close_fds(&open, &[]), Ok(vec![0, 1, 2, 3, 7, 12, 3]));
    assert_eq!(close_fds(&open, &[3, 12]), Ok(vec![0, 1, 2, 7]));
    assert_eq!(close_fds(&Vec::new(), &[0, 1, 2]), Ok(vec![]));
    assert_eq!(
        close_fds(&strings(&["0", "x", "5"]), &[0, 1, 2]),
        Err(InvalidFd)
    );
}

#[test]
fn a_process_runs_its_task() {
    let p = Process::new(task());
    assert_eq!(p.binary(), "/bin/echo");
    assert_eq!(p.args(), &strings(&["hello world", "x"]));
    assert_eq!(p.dir(), &Some(PathBuf::from("/tmp")));
    assert_eq!(p.timeout(), Some(Duration::from_secs(1)));
    assert_eq!(p.keep(), [0, 1, 2]);
    let prefixes = p.prefixes(4711);
    assert_eq!(prefixes.stdout, "[4711:stdout]: ");
    assert_eq!(prefixes.stderr, "[4711:stderr]: ");
}

#[test]
fn what_happens_to_a_process() {
    let p = Process::new(task());
    let out = p.wait(WaitEvent::Exited {
        status: "exit status: 0".to_string(),
    });
    assert!(!out.kill);
    assert_eq!(
        out.log,
        Some((
            Level::Info,
            "execution of '/bin/echo 'hello world' x' finished: exit status: 0".to_string()
        ))
    );
    let out = p.wait(WaitEvent::Failed {
        error: "no child".to_string(),
    });
    assert!(!out.kill);
    assert_eq!(
        out.log,
        Some((
            Level::Error,
            "error executing '/bin/echo 'hello world' x': no child".to_string()
        ))
    );
    let out = p.wait(WaitEvent::TimedOut);
    assert!(out.kill);
    assert_eq!(
        out.log,
        Some((
            Level::Warn,
            "execution of '/bin/echo 'hello world' x' timed out".to_string()
        ))
    );
    let out = p.wait(WaitEvent::WorkerShutdown);
    assert!(out.kill);
    assert_eq!(out.log, None);
    let out = p.wait(WaitEvent::ServerShutdown);
    assert!(out.kill);
    assert_eq!(out.log, None);
    assert_eq!(
        spawn_error(&task(), "not found"),
        "error executing '/bin/echo 'hello world' x': not found"
    );
}
