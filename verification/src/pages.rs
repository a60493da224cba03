//! How the pages of the browser application react to what happens: each
//! component's state, the messages it gets, and what it asks for in return
//! (whether to render again, which requests to send, which cookie to write).
//! The markup each component draws is not part of this library.
use vstd::prelude::*;
use crate::types::ClientMsg;

pub mod volume;
pub mod admin;
pub mod tokens;
pub mod volumes;
pub mod role_selector;
pub mod header;
pub mod app;

verus! {

/// What a page asks for after a message: whether to render again, and the
/// requests to send to the server, in order.
#[derive(Debug, PartialEq, Eq)]
pub struct PageUpdate {
    pub render: bool,
    pub send: Vec<ClientMsg>,
}

} // verus!
