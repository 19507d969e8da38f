//! A minimal remote-procedure-call engine, and the demonstration service
//! that runs on it.
//!
//! The engine never does I/O, reads no clock and starts no task. Its two
//! dispatchers are state machines: the owner of a connection tells them what
//! happened and does what they answer. A call travels like this:
//!
//! * [`stub`] frames the call and hands it to the client dispatcher;
//! * [`client`] gives it a request id, keeps it in the table of [`pending`]
//!   calls, and completes it when its response arrives, its [`context`]
//!   expires or is cancelled, or the transport closes;
//! * [`codec`] writes and reads the frames, and [`text`] the strings in them;
//! * [`server`] reads the request, has the handler of [`service`] invoked,
//!   and frames what it returns under the id of the request.
//!
//! [`laws`] holds what is true of the client dispatcher over many events,
//! [`error`] the ways a call can fail below the handler, [`model`] the state
//! of the demonstration front end, and [`decimal`] the decimal text of
//! numbers that both the service and the front end show.

pub mod client;
pub mod codec;
pub mod context;
pub mod decimal;
pub mod error;
pub mod laws;
pub mod model;
pub mod pending;
pub mod server;
pub mod service;
pub mod stub;
pub mod text;
