# mini_http_test

The verified core of a small HTTP server for tests, in Verus: request counts,
waiting for counts, closing, request URLs, and what a failed request is answered.
Only HTTP/1.1, without TLS.

- `src/` is the library. Its functions do no I/O; they take what happened and
  give back what to do. `src/server.rs` holds the state of a server,
  `src/history.rs` what holds over its whole life.
- `app/` puts the library to work on Hyper and Tokio: it binds the listener, runs
  the tasks, calls the handlers and sleeps between two looks at a count.
- `tests/` runs the library on concrete values.

```rust
let (mut server, close_rx) = Server::new(Listen::Bound(addr))?;

server.begin_request();
let answer = server.complete_request(handle_ok(Response::new("1235".into())));

assert_eq!(server.req_count(), 1);
assert_eq!(server.url("/").text, "http://127.0.0.1:8080/");
```
