use pqueue::connection::{write_message, Connection, ConnectionError, Received, LIMIT};

#[test]
fn messages_are_parted_at_the_nul() {
    let mut c = Connection::new(4096);
    assert_eq!(c.parse_message(), None);
    assert_eq!(c.received(b"{\"type\":"), Ok(Received::More));
    assert_eq!(c.parse_message(), None);
    assert_eq!(c.received(b"\"stop_server\"}\0{\"a\":1}\0{"), Ok(Received::More));
    assert_eq!(
        c.parse_message(),
        Some(b"{\"type\":\"stop_server\"}".to_vec())
    );
    assert_eq!(c.parse_message(), Some(b"{\"a\":1}".to_vec()));
    assert_eq!(c.parse_message(), None);
    assert_eq!(c.received(b""), Err(ConnectionError::Disconnect));
    assert_eq!(c.received(b"}\0"), Ok(Received::More));
    assert_eq!(c.parse_message(), Some(b"{}".to_vec()));
    assert_eq!(c.received(b""), Ok(Received::Closed));
}

#[test]
fn an_empty_stream_closes_cleanly() {
    let mut c = Connection::new(0);
    assert_eq!(c.received(&[]), Ok(Received::Closed));
    assert_eq!(c.parse_message(), None);
}

#[test]
fn empty_messages_are_messages() {
    let mut c = Connection::new(16);
    assert_eq!(c.received(&[0, 0, 7, 0]), Ok(Received::More));
    assert_eq!(c.parse_message(), Some(vec![]));
    assert_eq!(c.parse_message(), Some(vec![]));
    assert_eq!(c.parse_message(), Some(vec![7]));
    assert_eq!(c.parse_message(), None);
    assert_eq!(c.received(&[]), Ok(Received::Closed));
}

#[test]
fn written_messages_end_in_a_nul() {
    assert_eq!(write_message(b"{}".to_vec()), b"{}\0".to_vec());
    assert_eq!(write_message(Vec::new()), vec![0]);
}

#[test]
fn what_is_written_is_read_back() {
    let mut c = Connection::new(4096);
    let first = b"{\"status\":\"success\"}".to_vec();
    let second = b"{\"status\":\"error\",\"message\":\"x\"}".to_vec();
    let mut wire = write_message(first.clone());
    wire.extend(write_message(second.clone()));
    for chunk in wire.chunks(3) {
        assert_eq!(c.received(chunk), Ok(Received::More));
    }
    assert_eq!(c.parse_message(), Some(first));
    assert_eq!(c.parse_message(), Some(second));
    assert_eq!(c.parse_message(), None);
}

#[test]
fn the_limit_is_far_away() {
    assert_eq!(LIMIT, usize::MAX / 8);
    let mut c = Connection::new(LIMIT.min(64));
    assert_eq!(c.received(&[1, 2, 3]), Ok(Received::More));
}

#[test]
fn messages_come_in_order_however_the_bytes_arrive() {
    let first = b"{\"type\":\"list_queues\"}".to_vec();
    let second = b"{\"type\":\"stop_server\"}".to_vec();
    let mut wire = write_message(first.clone());
    wire.extend(write_message(second.clone()));
    for size in 1..=wire.len() {
        let mut c = Connection::new(8);
        let mut read = Vec::new();
        for chunk in wire.chunks(size) {
            assert_eq!(c.received(chunk), Ok(Received::More));
            while let Some(message) = c.parse_message() {
                read.push(message);
            }
        }
        assert_eq!(read, vec![first.clone(), second.clone()]);
        assert_eq!(c.received(&[]), Ok(Received::Closed));
    }
}
