//! A minimal asynchronous HTTP GET fetcher core.
//!
//! Given a URL string and a one-shot completion handle, the dispatcher
//! resolves the host, opens an outbound connection, sends a GET request and
//! accumulates every byte received until the peer closes, then delivers the
//! raw response bytes through the handle exactly once.  The dispatcher is a
//! pure state machine over a connection table: the surrounding event loop
//! performs the socket work and feeds the outcomes back in as events.

pub mod action;
pub mod conn;
pub mod dispatch;
pub mod props;
pub mod urlinfo;
