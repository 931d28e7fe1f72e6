use pqueue::client::{ClientError, ConnectFailure, QueueClient};
use pqueue::request::Request;
use pqueue::response::{Any, Empty, Error, ListQueues, ListTasks, Queue, Response, Task};

#[test]
fn a_missing_server_is_not_running() {
    let e = QueueClient::connect(ConnectFailure::NotFound, "No such file".to_string());
    assert!(matches!(e, ClientError::NotRunning(_)));
    assert_eq!(e.message(), "server is not running");
    let e = QueueClient::connect(ConnectFailure::ConnectionRefused, "refused".to_string());
    assert_eq!(e.message(), "server is not running");
    let e = QueueClient::connect(ConnectFailure::Other, "permission denied".to_string());
    assert!(matches!(e, ClientError::Io(_)));
    assert_eq!(e.message(), "permission denied");
}

#[test]
fn requests_are_built_from_their_parts() {
    assert!(matches!(QueueClient::stop_server(), Request::StopServer));
    assert!(matches!(QueueClient::list_queues(), Request::ListQueues));
    match QueueClient::create_queue("a".to_string(), 3, None, None, None, None) {
        Request::CreateQueue(c) => {
            assert_eq!(c.name, "a");
            assert_eq!(c.max_parallel, 3);
        }
        _ => panic!("wrong request"),
    }
    match QueueClient::remove_queue("a".to_string()) {
        Request::RemoveQueue(r) => assert_eq!(r.name, "a"),
        _ => panic!("wrong request"),
    }
    match QueueClient::send("a".to_string(), None, None, vec!["x".to_string()]) {
        Request::Send(s) => {
            assert_eq!(s.name, "a");
            assert_eq!(s.args, vec!["x"]);
        }
        _ => panic!("wrong request"),
    }
    match QueueClient::list_tasks("a".to_string()) {
        Request::ListTasks(l) => assert_eq!(l.name, "a"),
        _ => panic!("wrong request"),
    }
}

#[test]
fn answers_are_taken_apart() {
    let r = QueueClient::request(Some(Response::Success(Empty {})));
    assert!(r.is_ok());
    let r = QueueClient::request::<Empty>(Some(Response::Error(Error {
        message: "queue 'a' does not exist".to_string(),
    })));
    assert_eq!(r.unwrap_err().message(), "queue 'a' does not exist");
    let r = QueueClient::request::<Empty>(None);
    assert_eq!(r.unwrap_err().message(), "server did not respond");
}

#[test]
fn responses_convert_to_results_and_back() {
    let r: Result<Empty, Error> = Response::Success(Empty {}).into();
    assert!(r.is_ok());
    let r: Result<Empty, Error> = Response::Error(Error::from("bad".to_string())).into();
    assert_eq!(r.unwrap_err().message, "bad");
    let r: Response = pqueue::response::ok::<Error>().into();
    assert!(matches!(r, Response::Success(Any::Empty(_))));
    let r: Response = Ok::<ListQueues, Error>(ListQueues {
        queues: vec![Queue {
            name: "a".to_string(),
        }],
    })
    .into();
    assert!(matches!(r, Response::Success(Any::ListQueues(_))));
    let r: Response = Ok::<ListTasks, Error>(ListTasks {
        tasks: vec![Task {
            args: vec!["x".to_string()],
        }],
    })
    .into();
    assert!(matches!(r, Response::Success(Any::ListTasks(_))));
    let r: Response = Err::<Empty, Error>(Error {
        message: "no".to_string(),
    })
    .into();
    assert!(matches!(r, Response::Error(_)));
    let any: Any = Empty {}.into();
    assert!(matches!(any, Any::Empty(_)));
    let req: Request = pqueue::request::RemoveQueue {
        name: "a".to_string(),
    }
    .into();
    assert!(matches!(req, Request::RemoveQueue(_)));
    let req: Request = pqueue::request::ListTasks {
        name: "a".to_string(),
    }
    .into();
    assert!(matches!(req, Request::ListTasks(_)));
}
