//! The core of a single-threaded, readiness-driven chat broadcast server.
//!
//! The crate holds the decisions of the server: how its listening socket is
//! set up, which descriptors are watched, which of them are ready, who
//! receives a message and who is evicted. The system calls themselves are
//! made by the program around it, which performs the requests that the state
//! machines hand out and reports what happened.
//!
//! - `setup`: the setup of a socket over the resolver's candidates.
//! - `registry`: what the broadcast loop asks of a multiplexer strategy.
//! - `pollserver`: the dynamic strategy, a growable list of descriptors.
//! - `selectserver` and `fdmask`: the bounded strategy, a mask of fixed capacity.
//! - `chat`: the broadcast loop.
//! - `addr`, `timeout`, `cli`: peer addresses, wait timeouts, commands.

pub mod addr;
pub mod chat;
pub mod cli;
pub mod fdmask;
pub mod pollserver;
pub mod registry;
pub mod selectserver;
pub mod setup;
pub mod timeout;
