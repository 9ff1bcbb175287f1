//! The uplink's bounded read-retry policy.

use sensor_node::uplink::{parse_uplink_response, poll_reads, PollDecision, ReadPoller, UplinkError};

#[test]
fn response_on_fifth_attempt_succeeds_with_those_bytes() {
    let mut reads: Vec<Vec<u8>> = vec![vec![]; 4];
    reads.push(b"HTTP/1.1 201 Created\r\n".to_vec());
    for _ in 0..5 {
        reads.push(b"late".to_vec());
    }
    let (attempts, bytes) = poll_reads(&reads).unwrap();
    assert_eq!(attempts, 5);
    assert_eq!(bytes, b"HTTP/1.1 201 Created\r\n".to_vec());
    assert!(attempts <= 10);
}

#[test]
fn first_attempt_with_data_wins() {
    let reads = vec![b"x".to_vec()];
    let (attempts, bytes) = poll_reads(&reads).unwrap();
    assert_eq!(attempts, 1);
    assert_eq!(bytes, b"x".to_vec());
}

#[test]
fn all_empty_attempts_fail_with_empty_response() {
    let reads: Vec<Vec<u8>> = vec![vec![]; 10];
    assert_eq!(poll_reads(&reads), Err(UplinkError::EmptyResponse));
}

#[test]
fn data_after_the_budget_is_never_seen() {
    let mut reads: Vec<Vec<u8>> = vec![vec![]; 10];
    reads.push(b"too late".to_vec());
    assert_eq!(poll_reads(&reads), Err(UplinkError::EmptyResponse));
}

#[test]
fn poller_counts_attempts_and_gives_up_on_the_tenth() {
    let mut p = ReadPoller::new();
    for i in 0..9 {
        assert_eq!(p.attempts, i);
        assert!(matches!(p.on_read(Vec::new()), PollDecision::Retry));
    }
    assert!(matches!(p.on_read(Vec::new()), PollDecision::GiveUp));
    assert_eq!(p.attempts, 10);
}

#[test]
fn malformed_response_is_an_uplink_error() {
    let bad = b"HTTP/1.1 oops\r\n".to_vec();
    assert!(matches!(
        parse_uplink_response(&bad),
        Err(UplinkError::MalformedResponse)
    ));
    let ok = parse_uplink_response(&b"HTTP/1.1 200 OK\r\n\r\n".to_vec()).unwrap();
    assert_eq!(ok.status, 200);
}

#[test]
fn poller_delivers_bytes_at_once() {
    let mut p = ReadPoller::new();
    match p.on_read(b"hi".to_vec()) {
        PollDecision::Deliver(b) => assert_eq!(b, b"hi".to_vec()),
        _ => panic!("bytes must be delivered on the attempt that read them"),
    }
}
