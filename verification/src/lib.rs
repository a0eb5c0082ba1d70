//! Shared checkboxes: the protocol, the session state machines and the change
//! relay of a server that keeps a large grid of checkboxes in step across many
//! clients and many server processes.
//!
//! Nothing here touches a socket or the store. Each loop of the server is a
//! state machine that is told what happened and answers with what to do next;
//! the program around it performs the actions.

pub mod codec;
pub mod decimal;
pub mod relay;
pub mod session;
pub mod store;
pub mod world;
