//! A bridge between sandboxed guest code and a single-writer application
//! state: marshaling through guest memory, uniquely identified actions, the
//! dispatch bus, observer synchronization, and the host call that ties them
//! together.

pub mod action;
pub mod bridge;
pub mod bus;
pub mod codec;
pub mod ident;
pub mod memory;
pub mod observer;
pub mod state;
pub mod status;
