use pqueue::request::{CreateQueue, ListTasks, RemoveQueue, Request, Send};
use pqueue::response::{Any, Response};
use pqueue::server::{
    ClientHandler, Effect, HandlerError, QueueMap, QueueServer, ServerStep, Step,
};
use pqueue::template::Template;
use pqueue::worker::Dispatch;
use std::path::PathBuf;
use std::time::Duration;

fn strings(items: &[&str]) -> Vec<String> {
    items.iter().map(|s| s.to_string()).collect()
}

fn create(name: &str, max_parallel: usize) -> Request {
    Request::CreateQueue(CreateQueue {
        name: name.to_string(),
        max_parallel,
        output: None,
        timeout: None,
        dir: None,
        template: None,
    })
}

fn send(name: &str, args: &[&str]) -> Request {
    Request::Send(Send {
        name: name.to_string(),
        timeout: None,
        dir: None,
        args: strings(args),
    })
}

fn list_tasks(name: &str) -> Request {
    Request::ListTasks(ListTasks {
        name: name.to_string(),
    })
}

fn remove(name: &str) -> Request {
    Request::RemoveQueue(RemoveQueue {
        name: name.to_string(),
    })
}

fn error_of(resp: Response) -> String {
    match resp {
        Response::Error(e) => e.message,
        Response::Success(_) => panic!("the request went well"),
    }
}

fn tasks_of(resp: Response) -> Vec<Vec<String>> {
    match resp {
        Response::Success(Any::ListTasks(list)) => {
            list.tasks.into_iter().map(|t| t.args).collect()
        }
        _ => panic!("no list of tasks"),
    }
}

fn queues_of(resp: Response) -> Vec<String> {
    match resp {
        Response::Success(Any::ListQueues(list)) => {
            list.queues.into_iter().map(|q| q.name).collect()
        }
        _ => panic!("no list of queues"),
    }
}

fn is_empty_success(resp: &Response) -> bool {
    matches!(resp, Response::Success(Any::Empty(_)))
}

#[test]
fn create_then_list_queues() {
    let mut queues = QueueMap::new();
    let mut handler = ClientHandler::new();
    let out = handler.handle_request(&mut queues, create("a", 1));
    assert!(is_empty_success(&out.response));
    assert!(matches!(
        out.effect,
        Effect::StartWorker {
            id: 0,
            output: None
        }
    ));
    let out = handler.handle_request(&mut queues, create("b", 2));
    assert!(matches!(out.effect, Effect::StartWorker { id: 1, .. }));
    let out = handler.handle_request(&mut queues, Request::ListQueues);
    assert_eq!(queues_of(out.response), vec!["a", "b"]);
    assert!(matches!(out.effect, Effect::Nothing));
}

#[test]
fn create_keeps_the_output_for_the_worker() {
    let mut queues = QueueMap::new();
    let handler = ClientHandler::new();
    let (r, effect) = handler.handle_create_queue(
        &mut queues,
        CreateQueue {
            name: "a".to_string(),
            max_parallel: 1,
            output: Some(PathBuf::from("/tmp/a.log")),
            timeout: None,
            dir: None,
            template: None,
        },
    );
    assert!(r.is_ok());
    match effect {
        Effect::StartWorker { id, output } => {
            assert_eq!(id, 0);
            assert_eq!(output, Some(PathBuf::from("/tmp/a.log")));
        }
        _ => panic!("no worker to start"),
    }
}

#[test]
fn create_twice_fails() {
    let mut queues = QueueMap::new();
    let mut handler = ClientHandler::new();
    handler.handle_request(&mut queues, create("a", 1));
    let out = handler.handle_request(&mut queues, create("a", 3));
    assert_eq!(error_of(out.response), "queue 'a' already exists");
    assert!(matches!(out.effect, Effect::Nothing));
    let out = handler.handle_request(&mut queues, Request::ListQueues);
    assert_eq!(queues_of(out.response), vec!["a"]);
}

#[test]
fn send_then_list_tasks_shows_the_task() {
    let mut queues = QueueMap::new();
    let mut handler = ClientHandler::new();
    handler.handle_request(&mut queues, create("a", 1));
    let out = handler.handle_request(&mut queues, send("a", &["/bin/echo", "hello"]));
    assert!(is_empty_success(&out.response));
    assert!(matches!(out.effect, Effect::WakeWorker { id: 0 }));
    let out = handler.handle_request(&mut queues, send("a", &["/bin/true"]));
    assert!(is_empty_success(&out.response));
    let out = handler.handle_request(&mut queues, list_tasks("a"));
    assert_eq!(
        tasks_of(out.response),
        vec![strings(&["/bin/echo", "hello"]), strings(&["/bin/true"])]
    );
}

#[test]
fn send_to_a_missing_queue_fails() {
    let mut queues = QueueMap::new();
    let mut handler = ClientHandler::new();
    let out = handler.handle_request(&mut queues, send("nope", &["/bin/true"]));
    assert_eq!(error_of(out.response), "queue 'nope' does not exist");
    let out = handler.handle_request(&mut queues, list_tasks("nope"));
    assert_eq!(error_of(out.response), "queue 'nope' does not exist");
    let out = handler.handle_request(&mut queues, remove("nope"));
    assert_eq!(error_of(out.response), "queue 'nope' does not exist");
}

#[test]
fn send_without_a_program_fails() {
    let mut queues = QueueMap::new();
    let mut handler = ClientHandler::new();
    handler.handle_request(&mut queues, create("a", 1));
    let out = handler.handle_request(&mut queues, send("a", &[]));
    assert_eq!(error_of(out.response), "command cannot be empty");
    let out = handler.handle_request(&mut queues, list_tasks("a"));
    assert_eq!(tasks_of(out.response), Vec::<Vec<String>>::new());
}

#[test]
fn remove_then_send_fails() {
    let mut queues = QueueMap::new();
    let mut handler = ClientHandler::new();
    handler.handle_request(&mut queues, create("e", 1));
    handler.handle_request(&mut queues, create("f", 1));
    handler.handle_request(&mut queues, send("e", &["/bin/sleep", "10"]));
    let out = handler.handle_request(&mut queues, remove("e"));
    assert!(is_empty_success(&out.response));
    assert!(matches!(out.effect, Effect::StopWorker { id: 0 }));
    let out = handler.handle_request(&mut queues, send("e", &["/bin/true"]));
    assert_eq!(error_of(out.response), "queue 'e' does not exist");
    let out = handler.handle_request(&mut queues, list_tasks("e"));
    assert_eq!(error_of(out.response), "queue 'e' does not exist");
    let out = handler.handle_request(&mut queues, Request::ListQueues);
    assert_eq!(queues_of(out.response), vec!["f"]);
    assert!(queues.dispatch(0).is_none());
}

#[test]
fn a_queue_made_again_gets_a_new_number() {
    let mut queues = QueueMap::new();
    assert_eq!(queues.create("a".to_string(), 1, None, None, None).unwrap(), 0);
    assert_eq!(queues.remove(&"a".to_string()).unwrap(), 0);
    assert_eq!(queues.create("a".to_string(), 1, None, None, None).unwrap(), 1);
    assert!(queues.dispatch(0).is_none());
    assert!(matches!(queues.dispatch(1), Some(Dispatch::WaitForTask)));
    assert_eq!(queues.find(&"a".to_string()), Some(0));
    assert_eq!(queues.find_id(1), Some(0));
    assert_eq!(queues.find_id(0), None);
}

#[test]
fn template_expansion_makes_the_command() {
    let mut queues = QueueMap::new();
    let mut handler = ClientHandler::new();
    handler.handle_request(
        &mut queues,
        Request::CreateQueue(CreateQueue {
            name: "d".to_string(),
            max_parallel: 1,
            output: None,
            timeout: None,
            dir: None,
            template: Some(Template::parse("sh -c {} -- {...}").unwrap()),
        }),
    );
    let out = handler.handle_request(&mut queues, send("d", &["echo hi", "x", "y"]));
    assert!(is_empty_success(&out.response));
    match queues.dispatch(0) {
        Some(Dispatch::Spawn(task)) => {
            assert_eq!(task.binary, "sh");
            assert_eq!(task.args, strings(&["-c", "echo hi", "--", "x", "y"]));
            assert_eq!(
                task.argv(),
                strings(&["sh", "-c", "echo hi", "--", "x", "y"])
            );
        }
        _ => panic!("nothing to start"),
    }
}

#[test]
fn template_arity_is_reported() {
    let mut queues = QueueMap::new();
    let mut handler = ClientHandler::new();
    handler.handle_request(
        &mut queues,
        Request::CreateQueue(CreateQueue {
            name: "d".to_string(),
            max_parallel: 1,
            output: None,
            timeout: None,
            dir: None,
            template: Some(Template::parse("cp {} {}").unwrap()),
        }),
    );
    let out = handler.handle_request(&mut queues, send("d", &["x"]));
    assert_eq!(
        error_of(out.response),
        "wrong number of arguments (2 arguments required)"
    );
    let (r, effect) = handler.handle_send(
        &mut queues,
        Send {
            name: "d".to_string(),
            timeout: None,
            dir: None,
            args: strings(&["x", "y", "z"]),
        },
    );
    assert!(matches!(r, Err(HandlerError::Arity(_))));
    assert!(matches!(effect, Effect::Nothing));
}

#[test]
fn at_most_max_parallel_run() {
    let mut queues = QueueMap::new();
    let mut handler = ClientHandler::new();
    handler.handle_request(&mut queues, create("b", 2));
    for _ in 0..5 {
        handler.handle_request(&mut queues, send("b", &["/bin/sleep", "1"]));
    }
    assert!(matches!(queues.dispatch(0), Some(Dispatch::Spawn(_))));
    assert!(matches!(queues.dispatch(0), Some(Dispatch::Spawn(_))));
    assert!(matches!(queues.dispatch(0), Some(Dispatch::WaitForPermit)));
    assert!(matches!(queues.dispatch(0), Some(Dispatch::WaitForPermit)));
    let out = handler.handle_request(&mut queues, list_tasks("b"));
    assert_eq!(tasks_of(out.response).len(), 3);
    queues.finished(0);
    assert!(matches!(queues.dispatch(0), Some(Dispatch::Spawn(_))));
    assert!(matches!(queues.dispatch(0), Some(Dispatch::WaitForPermit)));
    queues.finished(0);
    queues.finished(0);
    assert!(matches!(queues.dispatch(0), Some(Dispatch::Spawn(_))));
    assert!(matches!(queues.dispatch(0), Some(Dispatch::Spawn(_))));
    assert!(matches!(queues.dispatch(0), Some(Dispatch::WaitForPermit)));
    queues.finished(0);
    assert!(matches!(queues.dispatch(0), Some(Dispatch::WaitForTask)));
    queues.finished(0);
    queues.finished(0);
    queues.finished(0);
    queues.finished(7);
    assert!(matches!(queues.dispatch(0), Some(Dispatch::WaitForTask)));
}

#[test]
fn tasks_leave_in_the_order_they_came() {
    let mut queues = QueueMap::new();
    let mut handler = ClientHandler::new();
    handler.handle_request(&mut queues, create("q", 10));
    for name in ["t1", "t2", "t3"] {
        handler.handle_request(&mut queues, send("q", &[name]));
    }
    for name in ["t1", "t2", "t3"] {
        match queues.dispatch(0) {
            Some(Dispatch::Spawn(task)) => assert_eq!(task.binary, name),
            _ => panic!("nothing to start"),
        }
    }
    assert!(matches!(queues.dispatch(0), Some(Dispatch::WaitForTask)));
    let out = handler.handle_request(&mut queues, list_tasks("q"));
    assert_eq!(tasks_of(out.response), Vec::<Vec<String>>::new());
}

#[test]
fn defaults_of_the_queue_fill_what_the_task_leaves_open() {
    let mut queues = QueueMap::new();
    let mut handler = ClientHandler::new();
    handler.handle_request(
        &mut queues,
        Request::CreateQueue(CreateQueue {
            name: "c".to_string(),
            max_parallel: 4,
            output: None,
            timeout: Some(Duration::from_secs(1)),
            dir: Some(PathBuf::from("/var")),
            template: None,
        }),
    );
    handler.handle_request(&mut queues, send("c", &["/bin/sleep", "60"]));
    handler.handle_request(
        &mut queues,
        Request::Send(Send {
            name: "c".to_string(),
            timeout: Some(Duration::from_secs(5)),
            dir: Some(PathBuf::from("/home")),
            args: strings(&["/bin/true"]),
        }),
    );
    match queues.dispatch(0) {
        Some(Dispatch::Spawn(task)) => {
            assert_eq!(task.timeout, Some(Duration::from_secs(1)));
            assert_eq!(task.dir, Some(PathBuf::from("/var")));
        }
        _ => panic!("nothing to start"),
    }
    match queues.dispatch(0) {
        Some(Dispatch::Spawn(task)) => {
            assert_eq!(task.timeout, Some(Duration::from_secs(5)));
            assert_eq!(task.dir, Some(PathBuf::from("/home")));
        }
        _ => panic!("nothing to start"),
    }
}

#[test]
fn stop_server_is_answered_before_the_session_ends() {
    let mut queues = QueueMap::new();
    let mut handler = ClientHandler::new();
    assert_eq!(handler.serve(false), Step::Read);
    assert!(!handler.shutdown_requested());
    let out = handler
        .serve_inner(&mut queues, Some(Request::StopServer))
        .unwrap();
    assert!(is_empty_success(&out.response));
    assert!(handler.shutdown_requested());
    assert_eq!(handler.serve(false), Step::Finish { shutdown: true });
    assert_eq!(handler.serve(true), Step::Finish { shutdown: false });
    assert!(handler.serve_inner(&mut queues, None).is_none());
    assert!(handler.handle_stop_server().is_ok());
}

#[test]
fn server_returns_when_sessions_are_drained() {
    let mut server = QueueServer::new();
    assert_eq!(server.serve(), ServerStep::Accept);
    let (mut first, first_guard) = server.serve_inner();
    let (second, second_guard) = server.serve_inner();
    assert_eq!(server.serve(), ServerStep::Accept);
    let out = server.handle_request(&mut first, create("a", 1));
    assert!(is_empty_success(&out.response));
    let out = server.handle_request(&mut first, Request::StopServer);
    assert!(is_empty_success(&out.response));
    assert_eq!(server.serve(), ServerStep::Accept);
    assert_eq!(first.serve(false), Step::Finish { shutdown: true });
    server.session_ended(first, first_guard);
    assert_eq!(server.serve(), ServerStep::Drain);
    assert!(server.dispatch(0).is_none());
    assert_eq!(second.serve(true), Step::Finish { shutdown: false });
    server.session_ended(second, second_guard);
    assert_eq!(server.serve(), ServerStep::Return);
    server.shutdown_notifer();
    assert_eq!(server.serve(), ServerStep::Return);
}

#[test]
fn a_worker_that_cannot_start_takes_its_queue_with_it() {
    let mut server = QueueServer::new();
    let (mut session, guard) = server.serve_inner();
    let out = server.handle_request(&mut session, create("a", 1));
    let id = match out.effect {
        Effect::StartWorker { id, .. } => id,
        _ => panic!("no worker to start"),
    };
    let resp = server.worker_failed(id, "permission denied".to_string());
    assert_eq!(error_of(resp), "permission denied");
    let out = server.handle_request(&mut session, Request::ListQueues);
    assert_eq!(queues_of(out.response), Vec::<String>::new());
    server.finished(id);
    server.session_ended(session, guard);
}

#[test]
fn handler_errors_in_words() {
    assert_eq!(
        HandlerError::AlreadyExists("x y".to_string()).message(),
        "queue 'x y' already exists"
    );
    assert_eq!(
        HandlerError::NotFound("".to_string()).message(),
        "queue '' does not exist"
    );
    assert_eq!(
        HandlerError::EmptyCommand.message(),
        "command cannot be empty"
    );
    assert_eq!(HandlerError::TooManyQueues.message(), "too many queues");
}

#[test]
fn names_and_tasks_of_the_map() {
    let mut queues = QueueMap::new();
    queues.create("x".to_string(), 1, None, None, None).unwrap();
    queues.create("y".to_string(), 1, None, None, None).unwrap();
    assert_eq!(queues.names(), vec!["x", "y"]);
    assert_eq!(
        queues.send(&"y".to_string(), strings(&["a", "b"]), None, None).unwrap(),
        1
    );
    assert_eq!(
        queues.tasks(&"y".to_string()).unwrap(),
        vec![strings(&["a", "b"])]
    );
    assert!(queues.tasks(&"z".to_string()).is_err());
    queues.discard(0);
    assert_eq!(queues.names(), vec!["y"]);
}
