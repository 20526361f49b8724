//! Dispatcher lifecycle scenarios, driven with mock readiness events and
//! observed through real completion handles.

use eventual::{Async, Future};
use httpget::dispatch::{ConnectOutcome, Echo, ReadOutcome};

type Handle = eventual::Complete<Box<Vec<u8>>, &'static str>;
type Consumer = Future<Box<Vec<u8>>, &'static str>;

fn pair() -> (Handle, Consumer) {
    Future::pair()
}

fn expect_success(f: Consumer) -> Vec<u8> {
    match f.poll() {
        Ok(Ok(bytes)) => *bytes,
        Ok(Err(_)) => panic!("fetch reported failure"),
        Err(_) => panic!("handle not fulfilled"),
    }
}

fn expect_failure(f: Consumer) -> &'static str {
    match f.poll() {
        Ok(Err(eventual::AsyncError::Failed(reason))) => reason,
        Ok(Err(eventual::AsyncError::Aborted)) => panic!("handle dropped unfulfilled"),
        Ok(Ok(_)) => panic!("fetch reported success"),
        Err(_) => panic!("handle not fulfilled"),
    }
}

/// Drive the full request out, however many bytes the socket takes per
/// call, and return every byte the mock socket received.
fn drain_writes(echo: &mut Echo, id: u64, per_call: usize) -> Vec<u8> {
    let mut received: Vec<u8> = Vec::new();
    loop {
        match echo.writable(id) {
            None => return received,
            Some(remaining) => {
                assert!(!remaining.is_empty());
                let n = per_call.min(remaining.len());
                received.extend_from_slice(&remaining[..n]);
                echo.wrote(id, n);
            }
        }
    }
}

#[test]
fn scenario_pong() {
    let mut echo = Echo::new();
    let (handle, future) = pair();
    let req = echo
        .notify("http://example.com/", handle)
        .expect("submission should yield connect work");
    assert_eq!(req.host, "example.com");
    assert_eq!(req.port, 80);

    // Mock resolver and peer: the address is fixed, the connect succeeds.
    echo.connected(req.id, ConnectOutcome::Success);

    // The peer reads the whole request and sees the expected request line.
    let sent = drain_writes(&mut echo, req.id, usize::MAX);
    let text = String::from_utf8(sent).expect("request is utf-8");
    let first_line = text.split("\r\n").next().unwrap();
    assert_eq!(first_line, "GET /  HTTP/1.1");

    // The peer responds with `pong`, then closes.
    assert!(!echo.readable(req.id, ReadOutcome::Data(b"pong".to_vec())));
    assert!(echo.readable(req.id, ReadOutcome::Closed));
    assert_eq!(echo.len(), 0);
    assert_eq!(expect_success(future), b"pong".to_vec());
}

#[test]
fn distinct_ids_and_isolated_buffers() {
    let mut echo = Echo::new();
    let (h1, f1) = pair();
    let (h2, f2) = pair();
    let (h3, f3) = pair();
    let r1 = echo.notify("http://example.com/a", h1).unwrap();
    let r2 = echo.notify("http://example.org/b", h2).unwrap();
    let r3 = echo.notify("http://example.net/c", h3).unwrap();
    assert!(r1.id != r2.id && r2.id != r3.id && r1.id != r3.id);
    assert_eq!(echo.len(), 3);

    for r in [&r1, &r2, &r3] {
        echo.connected(r.id, ConnectOutcome::Success);
        drain_writes(&mut echo, r.id, usize::MAX);
    }

    // Interleave reads; each buffer accumulates independently.
    echo.readable(r1.id, ReadOutcome::Data(b"first".to_vec()));
    echo.readable(r2.id, ReadOutcome::Data(b"sec".to_vec()));
    echo.readable(r3.id, ReadOutcome::Data(b"third".to_vec()));
    echo.readable(r2.id, ReadOutcome::Data(b"ond".to_vec()));

    // Completing one connection does not disturb the others.
    assert!(echo.readable(r2.id, ReadOutcome::Closed));
    assert_eq!(echo.len(), 2);
    assert_eq!(expect_success(f2), b"second".to_vec());

    assert!(echo.readable(r1.id, ReadOutcome::Closed));
    assert!(echo.readable(r3.id, ReadOutcome::Closed));
    assert_eq!(expect_success(f1), b"first".to_vec());
    assert_eq!(expect_success(f3), b"third".to_vec());
    assert_eq!(echo.len(), 0);
}

#[test]
fn round_trip_no_loss_across_chunkings() {
    let payload: Vec<u8> = (0u8..=255).cycle().take(1000).collect();
    for chunk in [1usize, 7, 64, 1000] {
        let mut echo = Echo::new();
        let (h, f) = pair();
        let r = echo.notify("http://example.com/data", h).unwrap();
        echo.connected(r.id, ConnectOutcome::Success);
        drain_writes(&mut echo, r.id, usize::MAX);
        for piece in payload.chunks(chunk) {
            echo.readable(r.id, ReadOutcome::Data(piece.to_vec()));
        }
        assert!(echo.readable(r.id, ReadOutcome::Closed));
        assert_eq!(expect_success(f), payload);
    }
}

#[test]
fn partial_writes_send_whole_request_once() {
    for per_call in [1usize, 3, 10] {
        let mut echo = Echo::new();
        let (h, _f) = pair();
        let r = echo.notify("http://example.com/slow", h).unwrap();
        echo.connected(r.id, ConnectOutcome::Success);

        let expected = echo.writable(r.id).expect("awaiting write");
        // Roll back nothing: writable hands the same remaining bytes again.
        let sent = drain_writes(&mut echo, r.id, per_call);
        assert_eq!(sent, expected);
        let text = String::from_utf8(sent).unwrap();
        assert_eq!(text.matches("GET /slow").count(), 1);
        // The connection now awaits the response: no more write work.
        assert!(echo.writable(r.id).is_none());
    }
}

#[test]
fn parse_failure_fails_only_its_own_handle() {
    let mut echo = Echo::new();
    let (good_h, good_f) = pair();
    let good = echo.notify("http://example.com/", good_h).unwrap();

    let (bad_h, bad_f) = pair();
    assert!(echo.notify("definitely not a url", bad_h).is_none());
    assert_eq!(expect_failure(bad_f), "invalid url");

    // The in-flight fetch is untouched and still completes.
    assert_eq!(echo.len(), 1);
    echo.connected(good.id, ConnectOutcome::Success);
    drain_writes(&mut echo, good.id, usize::MAX);
    echo.readable(good.id, ReadOutcome::Data(b"ok".to_vec()));
    assert!(echo.readable(good.id, ReadOutcome::Closed));
    assert_eq!(expect_success(good_f), b"ok".to_vec());
}

#[test]
fn resolution_failure_is_confined() {
    let mut echo = Echo::new();
    let (h1, f1) = pair();
    let (h2, f2) = pair();
    let r1 = echo.notify("http://nowhere.invalid/", h1).unwrap();
    let r2 = echo.notify("http://example.com/", h2).unwrap();

    echo.connected(r1.id, ConnectOutcome::NoAddress);
    assert_eq!(expect_failure(f1), "could not resolve host");
    assert_eq!(echo.len(), 1);

    echo.connected(r2.id, ConnectOutcome::Success);
    drain_writes(&mut echo, r2.id, usize::MAX);
    echo.readable(r2.id, ReadOutcome::Data(b"alive".to_vec()));
    assert!(echo.readable(r2.id, ReadOutcome::Closed));
    assert_eq!(expect_success(f2), b"alive".to_vec());
}

#[test]
fn connect_failure_reason() {
    let mut echo = Echo::new();
    let (h, f) = pair();
    let r = echo.notify("http://example.com/", h).unwrap();
    echo.connected(r.id, ConnectOutcome::Failed);
    assert_eq!(expect_failure(f), "connect failed");
    assert_eq!(echo.len(), 0);
}

#[test]
fn io_failure_mid_transfer() {
    let mut echo = Echo::new();
    let (h, f) = pair();
    let r = echo.notify("http://example.com/", h).unwrap();
    echo.connected(r.id, ConnectOutcome::Success);
    drain_writes(&mut echo, r.id, usize::MAX);
    echo.readable(r.id, ReadOutcome::Data(b"par".to_vec()));
    echo.io_failed(r.id);
    assert_eq!(expect_failure(f), "io error");
    assert_eq!(echo.len(), 0);
}

#[test]
fn stale_events_are_no_ops() {
    let mut echo = Echo::new();
    let (h, f) = pair();
    let r = echo.notify("http://example.com/", h).unwrap();
    echo.connected(r.id, ConnectOutcome::Success);
    drain_writes(&mut echo, r.id, usize::MAX);
    assert!(echo.readable(r.id, ReadOutcome::Closed));

    // The identifier is gone: spurious readiness events change nothing.
    assert!(!echo.readable(r.id, ReadOutcome::Data(b"late".to_vec())));
    assert!(!echo.readable(r.id, ReadOutcome::Closed));
    assert!(echo.writable(r.id).is_none());
    echo.wrote(r.id, 5);
    echo.io_failed(r.id);
    echo.connected(r.id, ConnectOutcome::Success);
    assert_eq!(echo.len(), 0);
    assert_eq!(expect_success(f), Vec::<u8>::new());
}

#[test]
fn fresh_dispatcher_is_empty_with_capacity() {
    let echo = Echo::new();
    assert_eq!(echo.len(), 0);
    assert!(echo.has_capacity());
}
