//! The admin settings page, which lists the guild's roles and chooses the
//! admin role among them.
use vstd::prelude::*;
use crate::pages::PageUpdate;
use crate::types::{AdminAction, ClientMsg};

verus! {

/// What the admin settings page keeps: whether the server had answered
/// the greeting when last heard.
#[derive(Clone, Copy, Debug, PartialEq, Eq, Structural)]
pub struct AdminPage {
    pub ready: bool,
}

/// What happens on the admin settings page.
#[derive(Clone, Copy, Debug, PartialEq, Eq, Structural)]
pub enum Msg {
    ContextChanged { ready: bool },
    SelectRole(u64),
}

impl AdminPage {
    /// A fresh page: it asks for the roles at once if ready.
    pub fn create(ready: bool) -> (r: (AdminPage, Option<ClientMsg>))
        ensures
            r.0.ready == ready,
            r.1 == (if ready { Some(ClientMsg::Admin(AdminAction::GetRoles)) } else { None }),
    {
        (AdminPage { ready }, if ready { Some(ClientMsg::Admin(AdminAction::GetRoles)) } else { None })
    }

    /// Reacts to a message: the roles are asked for when the greeting has
    /// just been answered; choosing a role asks to make it the admin role
    /// (and the page does not render again).
    pub fn update(&mut self, msg: Msg) -> (r: PageUpdate)
        ensures
            match msg {
                Msg::ContextChanged { ready } => {
                    &&& final(self).ready == ready
                    &&& r.render
                    &&& r.send@ == (if !old(self).ready && ready {
                        seq![ClientMsg::Admin(AdminAction::GetRoles)]
                    } else {
                        Seq::<ClientMsg>::empty()
                    })
                },
                Msg::SelectRole(role_id) => {
                    &&& *final(self) == *old(self)
                    &&& !r.render
                    &&& r.send@ == seq![ClientMsg::Admin(AdminAction::SetAdminRole { role_id })]
                },
            },
    {
        let mut send: Vec<ClientMsg> = Vec::new();
        match msg {
            Msg::ContextChanged { ready } => {
                let was_not_ready = !self.ready;
                self.ready = ready;
                if was_not_ready && ready {
                    send.push(ClientMsg::Admin(AdminAction::GetRoles));
                }
                PageUpdate { render: true, send }
            },
            Msg::SelectRole(role_id) => {
                send.push(ClientMsg::Admin(AdminAction::SetAdminRole { role_id }));
                PageUpdate { render: false, send }
            },
        }
    }
}

} // verus!
