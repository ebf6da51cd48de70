//! The core of a small HTTP server for tests: what the server decides, counts
//! and says, without its sockets, tasks and timers.
//!
//! A [`server::Server`] is the state of one server. Whoever runs the sockets
//! tells it what happens: that the handler of a request starts
//! (`begin_request`), that it has finished and with what outcome
//! (`complete_request`) or was given up before (`abort_request`), that the
//! server is to be closed (`close`) or that a reference to it is gone
//! (`release`). The module [`tasks`] decides what the
//! tasks in the background do about what happens to them, and [`wait`] what a
//! look at a count means for one who waits for it. The module [`history`]
//! states what holds over the whole life of a server.
pub mod addr;
pub mod duration;
pub mod error;
pub mod handler;
pub mod history;
pub mod server;
pub mod tasks;
pub mod text;
pub mod uri;
pub mod wait;

pub use error::Error;
pub use handler::handle_ok;
pub use server::Server;
