use std::io;

use http_body_util::{BodyExt, Full};
use hyper::body::Bytes;
use hyper::Response;
use tokio::sync::watch;

use mini_http_test::addr::SocketAddr;
use mini_http_test::duration::Duration;
use mini_http_test::error::Error;
use mini_http_test::handler::{handle_ok, run_handler};
use mini_http_test::server::{close_result, CloseError, Listen, Server};
use mini_http_test::wait::Wait;

fn start() -> (Server, watch::Receiver<u8>) {
    let addr = SocketAddr { octets: [127, 0, 0, 1], port: 43210 };
    Server::new(Listen::Bound(addr)).expect("create server")
}

fn body_text(response: Response<Full<Bytes>>) -> String {
    let runtime = tokio::runtime::Builder::new_current_thread().build().expect("runtime");
    let body = runtime.block_on(response.into_body().collect()).expect("read response");
    String::from_utf8(body.to_bytes().to_vec()).expect("text")
}

#[test]
fn server_ok() {
    let (mut server, _close_rx) = start();

    const ITERATIONS: u64 = 10;
    for i in 0..ITERATIONS {
        server.begin_request();
        assert_eq!(server.concurrent_req_count(), 1);
        let body = Bytes::from(format!("hello world {}", i));
        let outcome: Result<_, hyper::Error> = Ok(Response::new(Full::new(body)));
        let res = server.complete_request(outcome).expect("send request");

        assert_eq!(res.status(), 200);
        assert_eq!(body_text(res), format!("hello world {}", i));

        assert_eq!(server.req_count(), i + 1);
        assert_eq!(server.concurrent_req_count(), 0);
    }

    assert_eq!(server.req_count(), ITERATIONS);
}

#[test]
fn server_move_closure_copy() {
    let val = 1234;
    let handler = move || handle_ok(Response::new(Full::<Bytes>::from(val.to_string())));
    let (mut server, _close_rx) = start();

    const ITERATIONS: u64 = 10;
    for i in 0..ITERATIONS {
        server.begin_request();
        let res = server.complete_request(handler()).expect("send request");

        assert_eq!(res.status(), 200);
        assert_eq!(body_text(res), val.to_string());

        assert_eq!(server.req_count(), i + 1);
    }

    assert_eq!(server.req_count(), ITERATIONS);
}

#[test]
fn server_move_closure_arc() {
    let mut val = 1234;
    let (mut server, _close_rx) = start();

    const ITERATIONS: u64 = 10;
    for i in 0..ITERATIONS {
        server.begin_request();
        val += 1;
        let outcome = handle_ok(Response::new(Full::<Bytes>::from(val.to_string())));
        let res = server.complete_request(outcome).expect("send request");

        assert_eq!(res.status(), 200);
        assert_eq!(body_text(res), (1235 + i).to_string());

        assert_eq!(server.req_count(), i + 1);
    }

    assert_eq!(server.req_count(), ITERATIONS);
}

#[test]
fn server_failure() {
    let (mut server, _close_rx) = start();

    const ITERATIONS: u64 = 10;
    for i in 0..ITERATIONS {
        server.begin_request();
        let outcome = Err("expected test error");
        let res = server.complete_request(outcome).expect("send request");

        assert_eq!(res.status(), 500);
        assert_eq!(body_text(res), "Internal Server Error");

        assert_eq!(server.req_count(), i + 1);
    }

    assert_eq!(server.req_count(), ITERATIONS);
}

#[test]
fn server_await_req_count() {
    let (mut server, _close_rx) = start();
    const ITERATIONS: u64 = 10;
    let second = Duration::new(1, 0);

    for i in 0..ITERATIONS {
        server.begin_request();
        let elapsed = Duration::from_millis(10 * i);
        match server.await_req_count(ITERATIONS, elapsed, second) {
            Wait::Again(pause) => assert_eq!(pause.parts(), (0, 10_000_000)),
            other => panic!("{:?}", other),
        }
        let outcome = handle_ok(Response::new(Full::<Bytes>::from("hello world")));
        assert_eq!(server.complete_request(outcome).expect("send request").status(), 200);
    }

    let wait = server.await_req_count(ITERATIONS, Duration::from_millis(100), second);
    assert!(matches!(wait, Wait::Done(Ok(()))), "requests finished");
    assert_eq!(server.req_count(), ITERATIONS);
}

#[test]
fn server_long_requests_cancellation() {
    let (mut server, close_rx) = start();
    const ITERATIONS: u64 = 10;

    for _ in 0..ITERATIONS {
        server.begin_request();
    }
    let wait = server.await_concurrent_req_count(
        ITERATIONS,
        Duration::from_millis(0),
        Duration::new(1, 0),
    );
    assert!(matches!(wait, Wait::Done(Ok(()))), "requests start");
    assert_eq!(server.concurrent_req_count(), ITERATIONS);

    // The last reference goes, and the tasks learn of it.
    assert!(!close_rx.has_changed().expect("sender"));
    assert_eq!(server.release(1), Some(Ok(())));
    assert!(close_rx.has_changed().expect("sender"));
    assert_eq!(*close_rx.borrow(), 1);

    // The requests are given up, and are not counted as handled.
    for i in 0..ITERATIONS {
        server.abort_request();
        assert_eq!(server.concurrent_req_count(), ITERATIONS - i - 1);
    }
    assert_eq!(server.req_count(), 0);
    assert_eq!(server.concurrent_req_count(), 0);
}

#[test]
fn aborted_requests_are_no_longer_in_progress() {
    let (mut server, close_rx) = start();
    for _ in 0..3 {
        server.begin_request();
    }
    server.abort_request();
    assert_eq!((server.req_count(), server.concurrent_req_count()), (0, 2));
    let _ = server.complete_request::<&str>(Err("no"));
    assert_eq!((server.req_count(), server.concurrent_req_count()), (1, 1));
    server.abort_request();
    assert_eq!((server.req_count(), server.concurrent_req_count()), (1, 0));
    assert_eq!(*close_rx.borrow(), 0);
}

#[test]
fn servers_are_independent() {
    let (mut first, first_rx) = start();
    let addr = SocketAddr { octets: [127, 0, 0, 1], port: 43211 };
    let (mut second, second_rx) = Server::new(Listen::Bound(addr)).expect("create server");

    second.begin_request();
    first.begin_request();
    let _ = first.complete_request::<&str>(Err("no"));
    assert_eq!(first.close(), Ok(()));
    assert_eq!(*first_rx.borrow(), 1);

    assert_eq!(*second_rx.borrow(), 0);
    assert!(!second_rx.has_changed().expect("sender"));
    assert_eq!((second.req_count(), second.concurrent_req_count()), (0, 1));
    assert_eq!(second.addr(), addr);
    assert_ne!(first.url("/").text, second.url("/").text);
}

#[test]
fn a_closed_server_keeps_its_address_and_urls() {
    let (mut server, _close_rx) = start();
    let (addr, url) = (server.addr(), server.url("/a?b").text);
    assert_eq!(server.close(), Ok(()));
    assert_eq!(server.addr(), addr);
    assert_eq!(server.url("/a?b").text, url);
}

#[test]
fn overlapping_requests_are_counted() {
    let (mut server, _close_rx) = start();
    server.begin_request();
    server.begin_request();
    server.begin_request();
    assert_eq!((server.req_count(), server.concurrent_req_count()), (0, 3));
    let _ = server.complete_request::<String>(Err("no".to_string()));
    assert_eq!((server.req_count(), server.concurrent_req_count()), (1, 2));
    let _ = server.complete_request(handle_ok(Response::new(Full::<Bytes>::from("yes"))));
    let _ = server.complete_request(handle_ok(Response::new(Full::<Bytes>::from("yes"))));
    assert_eq!((server.req_count(), server.concurrent_req_count()), (3, 0));
}

#[test]
fn a_response_is_passed_on_unchanged() {
    let response = Response::builder()
        .status(418)
        .header("x-kind", "teapot")
        .body(Full::<Bytes>::from("short and stout"))
        .expect("response");
    let answer = run_handler(handle_ok(response)).expect("answer");
    assert_eq!(answer.status(), 418);
    assert_eq!(answer.headers()["x-kind"], "teapot");
    assert_eq!(body_text(answer), "short and stout");
}

#[test]
fn failures_are_answered_alike() {
    let first = run_handler::<&str>(Err("one")).expect("answer");
    let second = run_handler::<u64>(Err(2)).expect("answer");
    assert_eq!(first.status(), 500);
    assert_eq!(second.status(), 500);
    assert!(first.headers().is_empty());
    assert!(second.headers().is_empty());
    assert_eq!(body_text(first), "Internal Server Error");
    assert_eq!(body_text(second), "Internal Server Error");
}

#[test]
fn handle_ok_keeps_the_value() {
    assert_eq!(handle_ok(7), Ok(7));
    assert_eq!(handle_ok("text"), Ok("text"));
}

#[test]
fn a_failed_start_is_an_error() {
    let refused = io::Error::new(io::ErrorKind::AddrInUse, "taken");
    match Server::new(Listen::BindFailed(refused)) {
        Err(Error::BindTCPListener(cause)) => assert_eq!(cause.to_string(), "taken"),
        other => panic!("{:?}", other),
    }
    let lost = io::Error::new(io::ErrorKind::NotConnected, "gone");
    match Server::new(Listen::AddressFailed(lost)) {
        Err(Error::GetTCPListenerAddress(cause)) => assert_eq!(cause.to_string(), "gone"),
        other => panic!("{:?}", other),
    }
}

#[test]
fn a_new_server_is_open_and_idle() {
    let (server, close_rx) = start();
    assert_eq!(server.addr(), SocketAddr { octets: [127, 0, 0, 1], port: 43210 });
    assert_eq!(server.req_count(), 0);
    assert_eq!(server.concurrent_req_count(), 0);
    assert_eq!(*close_rx.borrow(), 0);
    assert!(!close_rx.has_changed().expect("sender"));
}

#[test]
fn close_tells_the_tasks() {
    let (mut server, close_rx) = start();
    assert_eq!(server.close(), Ok(()));
    assert_eq!(*close_rx.borrow(), 1);
    assert!(close_rx.has_changed().expect("sender"));
    // Closing again is no error as long as a task is left.
    assert_eq!(server.close(), Ok(()));
    assert_eq!(*close_rx.borrow(), 1);
}

#[test]
fn close_fails_without_tasks() {
    let (mut server, close_rx) = start();
    drop(close_rx);
    assert_eq!(server.close(), Err(CloseError));
    assert_eq!(server.release(1), Some(Err(CloseError)));
    assert_eq!(server.release(2), None);
}

#[test]
fn close_result_follows_the_send() {
    assert_eq!(close_result(Ok(())), Ok(()));
    assert_eq!(close_result(Err(1)), Err(CloseError));
}

#[test]
fn only_the_last_reference_closes() {
    let (mut server, close_rx) = start();
    assert_eq!(server.release(3), None);
    assert_eq!(server.release(2), None);
    assert_eq!(*close_rx.borrow(), 0);
    assert_eq!(server.release(1), Some(Ok(())));
    assert_eq!(*close_rx.borrow(), 1);
}

#[test]
fn waits_time_out_with_the_count_seen() {
    let (mut server, _close_rx) = start();
    server.begin_request();
    let second = Duration::new(1, 0);

    // Exactly the allowed time is not yet too long.
    let wait = server.await_req_count(5, Duration::new(1, 0), second);
    assert!(matches!(wait, Wait::Again(_)));
    let wait = server.await_concurrent_req_count(5, Duration::new(1, 0), second);
    assert!(matches!(wait, Wait::Again(_)));

    match server.await_req_count(5, Duration::new(1, 1), second) {
        Wait::Done(Err(Error::AwaitReqCountTimeout { current_count, target_count, timeout })) => {
            assert_eq!((current_count, target_count), (0, 5));
            assert_eq!(timeout.parts(), (1, 0));
        }
        other => panic!("{:?}", other),
    }
    match server.await_concurrent_req_count(5, Duration::new(2, 0), second) {
        Wait::Done(Err(Error::AwaitConcurrentReqCountTimeout {
            current_count,
            target_count,
            timeout,
        })) => {
            assert_eq!((current_count, target_count), (1, 5));
            assert_eq!(timeout.parts(), (1, 0));
        }
        other => panic!("{:?}", other),
    }
}

#[test]
fn a_wait_can_succeed_late() {
    let (server, _close_rx) = start();
    let wait = server.await_req_count(0, Duration::new(9, 0), Duration::new(1, 0));
    assert!(matches!(wait, Wait::Done(Ok(()))));
}

#[test]
fn a_greater_count_does_not_end_a_wait_well() {
    let (mut server, _close_rx) = start();
    for _ in 0..3 {
        server.begin_request();
        let _ = server.complete_request::<()>(Err(()));
    }
    let wait = server.await_req_count(2, Duration::new(0, 0), Duration::new(1, 0));
    assert!(matches!(wait, Wait::Again(_)));
    let wait = server.await_req_count(2, Duration::new(2, 0), Duration::new(1, 0));
    assert!(matches!(wait, Wait::Done(Err(_))));
}
