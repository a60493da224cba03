//! The admin page that lists, adds and removes volumes.
use vstd::prelude::*;
use crate::pages::PageUpdate;
use crate::types::{AdminAction, ClientMsg, Permission};

verus! {

/// What the volumes admin page keeps: the greeting flag and the form.
#[derive(Debug, PartialEq, Eq)]
pub struct AdminVolumesPage {
    pub ready: bool,
    pub name: String,
    pub path: String,
    pub selected_role: Option<u64>,
    pub selected_permission: Permission,
}

/// What happens on the volumes admin page.
#[derive(Debug, PartialEq, Eq)]
pub enum Msg {
    ContextChanged { ready: bool },
    NameInput(String),
    PathInput(String),
    SelectRole(u64),
    SelectPermission(Permission),
    Add,
    Remove(u64),
}

/// The two requests that fill the volumes admin page.
pub open spec fn volumes_page_requests() -> Seq<ClientMsg> {
    seq![ClientMsg::Admin(AdminAction::GetVolumes), ClientMsg::Admin(AdminAction::GetRoles)]
}

fn make_volumes_page_requests() -> (r: Vec<ClientMsg>)
    ensures
        r@ == volumes_page_requests(),
{
    let mut v: Vec<ClientMsg> = Vec::new();
    v.push(ClientMsg::Admin(AdminAction::GetVolumes));
    v.push(ClientMsg::Admin(AdminAction::GetRoles));
    assert(v@ =~= volumes_page_requests());
    v
}

/// Whether the form holds a complete volume: a role, a name and a path.
pub open spec fn form_complete(s: AdminVolumesPage) -> bool {
    s.selected_role is Some && s.name@.len() > 0 && s.path@.len() > 0
}

impl AdminVolumesPage {
    /// A fresh page with an empty form (read-only by default); it asks for
    /// the volumes and the roles at once if ready.
    pub fn create(ready: bool) -> (r: (AdminVolumesPage, Vec<ClientMsg>))
        ensures
            r.0.ready == ready,
            r.0.name@.len() == 0,
            r.0.path@.len() == 0,
            r.0.selected_role is None,
            r.0.selected_permission == Permission::ReadOnly,
            r.1@ == (if ready { volumes_page_requests() } else { Seq::<ClientMsg>::empty() }),
    {
        let send = if ready { make_volumes_page_requests() } else { Vec::new() };
        (AdminVolumesPage {
            ready,
            name: String::new(),
            path: String::new(),
            selected_role: None,
            selected_permission: Permission::ReadOnly,
        }, send)
    }

    /// Reacts to a message. "Add" with a complete form asks to add the
    /// volume and clears the form; an incomplete form is left as it is.
    pub fn update(&mut self, msg: Msg) -> (r: PageUpdate)
        ensures
            match msg {
                Msg::ContextChanged { ready } => {
                    &&& final(self).ready == ready
                    &&& final(self).name == old(self).name
                    &&& final(self).path == old(self).path
                    &&& final(self).selected_role == old(self).selected_role
                    &&& final(self).selected_permission == old(self).selected_permission
                    &&& r.render
                    &&& r.send@ == (if !old(self).ready && ready { volumes_page_requests() } else { Seq::<ClientMsg>::empty() })
                },
                Msg::NameInput(v) => {
                    &&& *final(self) == AdminVolumesPage { name: v, ..*old(self) }
                    &&& r.render
                    &&& r.send@.len() == 0
                },
                Msg::PathInput(v) => {
                    &&& *final(self) == AdminVolumesPage { path: v, ..*old(self) }
                    &&& r.render
                    &&& r.send@.len() == 0
                },
                Msg::SelectRole(id) => {
                    &&& *final(self) == AdminVolumesPage { selected_role: Some(id), ..*old(self) }
                    &&& r.render
                    &&& r.send@.len() == 0
                },
                Msg::SelectPermission(p) => {
                    &&& *final(self) == AdminVolumesPage { selected_permission: p, ..*old(self) }
                    &&& r.render
                    &&& r.send@.len() == 0
                },
                Msg::Add => {
                    &&& r.render
                    &&& final(self).ready == old(self).ready
                    &&& (form_complete(*old(self)) ==> {
                        &&& r.send@ == seq![ClientMsg::Admin(AdminAction::AddVolume {
                            name: old(self).name,
                            path: old(self).path,
                            role_id: old(self).selected_role->0,
                            permission: old(self).selected_permission,
                        })]
                        &&& final(self).name@.len() == 0
                        &&& final(self).path@.len() == 0
                        &&& final(self).selected_role is None
                        &&& final(self).selected_permission == Permission::ReadOnly
                    })
                    &&& (!form_complete(*old(self)) ==> *final(self) == *old(self) && r.send@.len() == 0)
                },
                Msg::Remove(id) => {
                    &&& *final(self) == *old(self)
                    &&& !r.render
                    &&& r.send@ == seq![ClientMsg::Admin(AdminAction::RemoveVolume { id })]
                },
            },
    {
        match msg {
            Msg::ContextChanged { ready } => {
                let was_not_ready = !self.ready;
                self.ready = ready;
                let send = if was_not_ready && ready { make_volumes_page_requests() } else { Vec::new() };
                PageUpdate { render: true, send }
            },
            Msg::NameInput(v) => {
                self.name = v;
                PageUpdate { render: true, send: Vec::new() }
            },
            Msg::PathInput(v) => {
                self.path = v;
                PageUpdate { render: true, send: Vec::new() }
            },
            Msg::SelectRole(id) => {
                self.selected_role = Some(id);
                PageUpdate { render: true, send: Vec::new() }
            },
            Msg::SelectPermission(p) => {
                self.selected_permission = p;
                PageUpdate { render: true, send: Vec::new() }
            },
            Msg::Add => {
                let mut send: Vec<ClientMsg> = Vec::new();
                match self.selected_role {
                    Some(role_id) => {
                        if self.name.unicode_len() > 0 && self.path.unicode_len() > 0 {
                            let mut name = String::new();
                            let mut path = String::new();
                            std::mem::swap(&mut name, &mut self.name);
                            std::mem::swap(&mut path, &mut self.path);
                            send.push(ClientMsg::Admin(AdminAction::AddVolume {
                                name,
                                path,
                                role_id,
                                permission: self.selected_permission,
                            }));
                            self.selected_role = None;
                            self.selected_permission = Permission::ReadOnly;
                        }
                    },
                    None => {},
                }
                PageUpdate { render: true, send }
            },
            Msg::Remove(id) => {
                let mut send: Vec<ClientMsg> = Vec::new();
                send.push(ClientMsg::Admin(AdminAction::RemoveVolume { id }));
                PageUpdate { render: false, send }
            },
        }
    }

    /// Whether the "Add" button is disabled: for unauthorized users and
    /// while the form is incomplete.
    pub fn add_disabled(&self, unauthorized: bool) -> (r: bool)
        ensures
            r == (unauthorized || !form_complete(*self)),
    {
        unauthorized || self.name.unicode_len() == 0 || self.path.unicode_len() == 0 || self.selected_role.is_none()
    }
}

} // verus!
