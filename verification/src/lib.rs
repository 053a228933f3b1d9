//! A relay between an HTTP caller who asks for a file and the remote agent that
//! holds it. The crate keeps the presence registry of connected agents, the
//! table that ties a download ticket to the buffer its bytes pass through, the
//! decision taken for one download request, and the rules of the durable agent
//! store: the statements sent to it and the reading of what it answers.
//!
//! Nothing here waits, sleeps or touches a socket. A caller owns the locks and
//! the connections, performs what a function returns as an action, and hands
//! back what happened.

pub mod correlation;
pub mod db;
pub mod download;
pub mod error;
pub mod lifecycle;
pub mod registry;
pub mod sink;
pub mod structs;
pub mod text;
