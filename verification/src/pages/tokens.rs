//! The page that lists the sessions.
use vstd::prelude::*;
use crate::types::{AdminAction, ClientMsg};

verus! {

/// What the sessions page keeps: whether the server had answered the
/// greeting when last heard.
#[derive(Clone, Copy, Debug, PartialEq, Eq, Structural)]
pub struct AdminTokensPage {
    pub ready: bool,
}

/// What happens on the sessions page.
#[derive(Clone, Copy, Debug, PartialEq, Eq, Structural)]
pub enum Msg {
    ContextChanged { ready: bool },
}

impl AdminTokensPage {
    /// A fresh page: it asks for the sessions at once if ready.
    pub fn create(ready: bool) -> (r: (AdminTokensPage, Option<ClientMsg>))
        ensures
            r.0.ready == ready,
            r.1 == (if ready { Some(ClientMsg::Admin(AdminAction::GetTokens)) } else { None }),
    {
        (AdminTokensPage { ready }, if ready { Some(ClientMsg::Admin(AdminAction::GetTokens)) } else { None })
    }

    /// The shared state changed: ask for the sessions when the greeting has
    /// just been answered. The page renders again.
    pub fn update(&mut self, msg: Msg) -> (r: Option<ClientMsg>)
        ensures
            match msg {
                Msg::ContextChanged { ready } => {
                    &&& final(self).ready == ready
                    &&& r == (if !old(self).ready && ready { Some(ClientMsg::Admin(AdminAction::GetTokens)) } else { None })
                },
            },
    {
        match msg {
            Msg::ContextChanged { ready } => {
                let was_not_ready = !self.ready;
                self.ready = ready;
                if was_not_ready && ready { Some(ClientMsg::Admin(AdminAction::GetTokens)) } else { None }
            },
        }
    }
}

} // verus!
