//! The browser's view of the server: what the server has told it so far,
//! and how each server message changes that.
use vstd::prelude::*;
use crate::types::{
    AdminResponse, BrowseResponse, ClientMsg, DirEntry, RoleInfo, ServerMsg, TokenInfo, VolumeInfo,
};

verus! {

/// What the admin pages know.
#[derive(Clone, Debug, PartialEq, Eq)]
pub struct AdminData {
    /// The guild's roles as (id, name).
    pub roles: Vec<(u64, String)>,
    pub admin_role_id: Option<u64>,
    pub tokens: Vec<TokenInfo>,
    pub volumes: Vec<VolumeInfo>,
    pub error: Option<String>,
    pub unauthorized: bool,
    /// Bumped (wrapping) on every admin response so pages can detect new arrivals.
    pub seq: u64,
}

/// What the volume page knows of the last listing.
#[derive(Clone, Debug, PartialEq, Eq)]
pub struct BrowseData {
    pub entries: Vec<DirEntry>,
    pub error: Option<String>,
    /// Bumped (wrapping) on every browse response.
    pub seq: u64,
}

/// Application-level state shared by the pages.
#[derive(Clone, Debug, PartialEq, Eq)]
pub struct AppData {
    /// Logged-in username; `None` until `Hello` arrives (or if unauthenticated).
    pub username: Option<String>,
    /// Discord avatar URL; `None` if unauthenticated or no avatar set.
    pub avatar_url: Option<String>,
    /// `true` once the server has replied with `Hello` or `Unauthenticated`.
    pub ready: bool,
    /// Volumes accessible to the current user, as (id, name).
    pub volumes: Vec<(u64, String)>,
    pub admin: AdminData,
    pub browse: BrowseData,
}

/// The sequence number after `seq`, wrapping to 0 after the largest value.
pub open spec fn next_seq(seq: u64) -> u64 {
    if seq == u64::MAX { 0 } else { (seq + 1) as u64 }
}

/// The (id, name) pairs of a list of roles, in order.
pub open spec fn role_pairs(roles: Seq<RoleInfo>) -> Seq<(u64, String)> {
    roles.map_values(|r: RoleInfo| (r.id, r.name))
}

/// The (id, name) pairs of a list of volumes, in order.
pub open spec fn volume_pairs(volumes: Seq<VolumeInfo>) -> Seq<(u64, String)> {
    volumes.map_values(|v: VolumeInfo| (v.id, v.name))
}

/// The volumes whose id is not `id`, in order.
pub open spec fn without_volume(volumes: Seq<VolumeInfo>, id: u64) -> Seq<VolumeInfo> {
    volumes.filter(|v: VolumeInfo| v.id != id)
}

fn pairs_of_roles(roles: Vec<RoleInfo>) -> (r: Vec<(u64, String)>)
    ensures
        r@ == role_pairs(roles@),
{
    let mut out: Vec<(u64, String)> = Vec::new();
    let mut i: usize = 0;
    while i < roles.len()
        invariant
            i <= roles.len(),
            out@ == role_pairs(roles@.take(i as int)),
        decreases roles.len() - i,
    {
        let role = roles[i].clone();
        out.push((role.id, role.name));
        proof {
            assert(roles@.take(i + 1) =~= roles@.take(i as int).push(roles@[i as int]));
            assert(role_pairs(roles@.take(i + 1)) =~= role_pairs(roles@.take(i as int)).push(
                (roles@[i as int].id, roles@[i as int].name),
            ));
        }
        i = i + 1;
    }
    assert(roles@.take(roles.len() as int) =~= roles@);
    out
}

fn pairs_of_volumes(volumes: Vec<VolumeInfo>) -> (r: Vec<(u64, String)>)
    ensures
        r@ == volume_pairs(volumes@),
{
    let mut out: Vec<(u64, String)> = Vec::new();
    let mut i: usize = 0;
    while i < volumes.len()
        invariant
            i <= volumes.len(),
            out@ == volume_pairs(volumes@.take(i as int)),
        decreases volumes.len() - i,
    {
        let volume = volumes[i].clone();
        out.push((volume.id, volume.name));
        proof {
            assert(volumes@.take(i + 1) =~= volumes@.take(i as int).push(volumes@[i as int]));
            assert(volume_pairs(volumes@.take(i + 1)) =~= volume_pairs(volumes@.take(i as int)).push(
                (volumes@[i as int].id, volumes@[i as int].name),
            ));
        }
        i = i + 1;
    }
    assert(volumes@.take(volumes.len() as int) =~= volumes@);
    out
}

fn remove_volume(volumes: &Vec<VolumeInfo>, id: u64) -> (r: Vec<VolumeInfo>)
    ensures
        r@ == without_volume(volumes@, id),
{
    let mut out: Vec<VolumeInfo> = Vec::new();
    let mut i: usize = 0;
    while i < volumes.len()
        invariant
            i <= volumes.len(),
            out@ == without_volume(volumes@.take(i as int), id),
        decreases volumes.len() - i,
    {
        let v = volumes[i].clone();
        proof {
            assert(volumes@.take(i + 1) =~= volumes@.take(i as int).push(v));
            volumes@.take(i as int).lemma_filter_push(v, |v: VolumeInfo| v.id != id);
        }
        if v.id != id {
            out.push(v);
        }
        i = i + 1;
    }
    assert(volumes@.take(volumes.len() as int) =~= volumes@);
    out
}

/// How an admin response changes what the admin pages know: every
/// response bumps `seq`; a listing replaces its list and clears the error
/// and the unauthorized flag; an update clears the error; an error message
/// is kept; `Unauthorized` sets the flag. Nothing else changes.
pub open spec fn admin_applied(old: AdminData, resp: AdminResponse, new: AdminData) -> bool {
    &&& new.seq == next_seq(old.seq)
    &&& match resp {
        AdminResponse::Roles { roles, admin_role_id } => {
            &&& new.roles@ == role_pairs(roles@)
            &&& new.admin_role_id == admin_role_id
            &&& new.error is None
            &&& !new.unauthorized
            &&& new.tokens == old.tokens
            &&& new.volumes == old.volumes
        },
        AdminResponse::AdminRoleUpdated { role_id } => {
            &&& new.admin_role_id == Some(role_id)
            &&& new.error is None
            &&& new.roles == old.roles
            &&& new.tokens == old.tokens
            &&& new.volumes == old.volumes
            &&& new.unauthorized == old.unauthorized
        },
        AdminResponse::Tokens { tokens } => {
            &&& new.tokens == tokens
            &&& new.error is None
            &&& !new.unauthorized
            &&& new.roles == old.roles
            &&& new.admin_role_id == old.admin_role_id
            &&& new.volumes == old.volumes
        },
        AdminResponse::Volumes { volumes } => {
            &&& new.volumes == volumes
            &&& new.error is None
            &&& !new.unauthorized
            &&& new.roles == old.roles
            &&& new.admin_role_id == old.admin_role_id
            &&& new.tokens == old.tokens
        },
        AdminResponse::VolumeAdded { volume } => {
            &&& new.volumes@ == old.volumes@.push(volume)
            &&& new.error is None
            &&& new.roles == old.roles
            &&& new.admin_role_id == old.admin_role_id
            &&& new.tokens == old.tokens
            &&& new.unauthorized == old.unauthorized
        },
        AdminResponse::VolumeRemoved { id } => {
            &&& new.volumes@ == without_volume(old.volumes@, id)
            &&& new.error is None
            &&& new.roles == old.roles
            &&& new.admin_role_id == old.admin_role_id
            &&& new.tokens == old.tokens
            &&& new.unauthorized == old.unauthorized
        },
        AdminResponse::Error { message } => {
            &&& new.error == Some(message)
            &&& new.roles == old.roles
            &&& new.admin_role_id == old.admin_role_id
            &&& new.tokens == old.tokens
            &&& new.volumes == old.volumes
            &&& new.unauthorized == old.unauthorized
        },
        AdminResponse::Unauthorized => {
            &&& new.unauthorized
            &&& new.error == old.error
            &&& new.roles == old.roles
            &&& new.admin_role_id == old.admin_role_id
            &&& new.tokens == old.tokens
            &&& new.volumes == old.volumes
        },
    }
}

impl AdminData {
    /// Nothing known yet.
    pub fn new() -> (r: AdminData)
        ensures
            r.roles@.len() == 0,
            r.admin_role_id is None,
            r.tokens@.len() == 0,
            r.volumes@.len() == 0,
            r.error is None,
            !r.unauthorized,
            r.seq == 0,
    {
        AdminData {
            roles: Vec::new(),
            admin_role_id: None,
            tokens: Vec::new(),
            volumes: Vec::new(),
            error: None,
            unauthorized: false,
            seq: 0,
        }
    }

    /// Takes in an admin response. Every response bumps `seq`; a listing
    /// replaces its list and clears the error and the unauthorized flag; an
    /// update clears the error; an error is kept; `Unauthorized` sets the flag.
    pub fn apply(&mut self, resp: AdminResponse)
        ensures
            admin_applied(*old(self), resp, *final(self)),
    {
        self.seq = self.seq.wrapping_add(1);
        match resp {
            AdminResponse::Roles { roles, admin_role_id } => {
                self.roles = pairs_of_roles(roles);
                self.admin_role_id = admin_role_id;
                self.error = None;
                self.unauthorized = false;
            },
            AdminResponse::AdminRoleUpdated { role_id } => {
                self.admin_role_id = Some(role_id);
                self.error = None;
            },
            AdminResponse::Tokens { tokens } => {
                self.tokens = tokens;
                self.error = None;
                self.unauthorized = false;
            },
            AdminResponse::Volumes { volumes } => {
                self.volumes = volumes;
                self.error = None;
                self.unauthorized = false;
            },
            AdminResponse::VolumeAdded { volume } => {
                self.volumes.push(volume);
                self.error = None;
            },
            AdminResponse::VolumeRemoved { id } => {
                self.volumes = remove_volume(&self.volumes, id);
                self.error = None;
            },
            AdminResponse::Error { message } => {
                self.error = Some(message);
            },
            AdminResponse::Unauthorized => {
                self.unauthorized = true;
            },
        }
    }
}

/// How a browse response changes the listing state: a listing replaces
/// the entries and clears the error; an error clears the entries and keeps
/// the message; either way `seq` is bumped.
pub open spec fn browse_applied(old: BrowseData, resp: BrowseResponse, new: BrowseData) -> bool {
    &&& new.seq == next_seq(old.seq)
    &&& match resp {
        BrowseResponse::DirectoryListing { entries } => {
            &&& new.entries == entries
            &&& new.error is None
        },
        BrowseResponse::Error { message } => {
            &&& new.entries@.len() == 0
            &&& new.error == Some(message)
        },
    }
}

impl BrowseData {
    /// No listing yet.
    pub fn new() -> (r: BrowseData)
        ensures
            r.entries@.len() == 0,
            r.error is None,
            r.seq == 0,
    {
        BrowseData { entries: Vec::new(), error: None, seq: 0 }
    }

    /// Takes in a browse response: a listing replaces the entries and clears
    /// the error; an error clears the entries and keeps the message. Every
    /// response bumps `seq`.
    pub fn apply(&mut self, resp: BrowseResponse)
        ensures
            browse_applied(*old(self), resp, *final(self)),
    {
        self.seq = self.seq.wrapping_add(1);
        match resp {
            BrowseResponse::DirectoryListing { entries } => {
                self.entries = entries;
                self.error = None;
            },
            BrowseResponse::Error { message } => {
                self.entries.clear();
                self.error = Some(message);
            },
        }
    }
}

/// What taking in a server message does to the shared state, and the
/// messages it sends back: `Hello` signs in and asks for the volumes,
/// `Unauthenticated` signs out, `MyVolumes` replaces the volume list, and
/// admin and browse responses go to their parts; everything else stays.
pub open spec fn server_msg_handled(old: AppData, msg: ServerMsg, new: AppData, follow_ups: Seq<ClientMsg>) -> bool {
    match msg {
        ServerMsg::Hello { username, avatar_url } => {
            &&& new.username == Some(username)
            &&& new.avatar_url == avatar_url
            &&& new.ready
            &&& new.volumes == old.volumes
            &&& new.admin == old.admin
            &&& new.browse == old.browse
            &&& follow_ups == seq![ClientMsg::GetMyVolumes]
        },
        ServerMsg::Unauthenticated => {
            &&& new.username is None
            &&& new.avatar_url is None
            &&& new.ready
            &&& new.volumes == old.volumes
            &&& new.admin == old.admin
            &&& new.browse == old.browse
            &&& follow_ups.len() == 0
        },
        ServerMsg::MyVolumes { volumes } => {
            &&& new.volumes@ == volume_pairs(volumes@)
            &&& new.username == old.username
            &&& new.avatar_url == old.avatar_url
            &&& new.ready == old.ready
            &&& new.admin == old.admin
            &&& new.browse == old.browse
            &&& follow_ups.len() == 0
        },
        ServerMsg::Admin(resp) => {
            &&& admin_applied(old.admin, resp, new.admin)
            &&& new.username == old.username
            &&& new.avatar_url == old.avatar_url
            &&& new.ready == old.ready
            &&& new.volumes == old.volumes
            &&& new.browse == old.browse
            &&& follow_ups.len() == 0
        },
        ServerMsg::Browse(resp) => {
            &&& browse_applied(old.browse, resp, new.browse)
            &&& new.username == old.username
            &&& new.avatar_url == old.avatar_url
            &&& new.ready == old.ready
            &&& new.volumes == old.volumes
            &&& new.admin == old.admin
            &&& follow_ups.len() == 0
        },
    }
}

impl AppData {
    /// The state before the server has said anything.
    pub fn new() -> (r: AppData)
        ensures
            r.username is None,
            r.avatar_url is None,
            !r.ready,
            r.volumes@.len() == 0,
            r.admin.roles@.len() == 0,
            r.admin.admin_role_id is None,
            r.admin.tokens@.len() == 0,
            r.admin.volumes@.len() == 0,
            r.admin.error is None,
            !r.admin.unauthorized,
            r.admin.seq == 0,
            r.browse.entries@.len() == 0,
            r.browse.error is None,
            r.browse.seq == 0,
    {
        AppData {
            username: None,
            avatar_url: None,
            ready: false,
            volumes: Vec::new(),
            admin: AdminData::new(),
            browse: BrowseData::new(),
        }
    }

    /// Takes in a server message and returns the messages to send back:
    /// after `Hello` the client asks for its volumes, otherwise nothing.
    pub fn handle_server_msg(&mut self, msg: ServerMsg) -> (follow_ups: Vec<ClientMsg>)
        ensures
            server_msg_handled(*old(self), msg, *final(self), follow_ups@),
    {
        let mut follow_ups: Vec<ClientMsg> = Vec::new();
        match msg {
            ServerMsg::Hello { username, avatar_url } => {
                self.username = Some(username);
                self.avatar_url = avatar_url;
                self.ready = true;
                follow_ups.push(ClientMsg::GetMyVolumes);
            },
            ServerMsg::Unauthenticated => {
                self.username = None;
                self.avatar_url = None;
                self.ready = true;
            },
            ServerMsg::MyVolumes { volumes } => {
                self.volumes = pairs_of_volumes(volumes);
            },
            ServerMsg::Admin(resp) => {
                self.admin.apply(resp);
            },
            ServerMsg::Browse(resp) => {
                self.browse.apply(resp);
            },
        }
        follow_ups
    }
}

/// Once the server has greeted the client (with `Hello` or
/// `Unauthenticated`) the client stays ready: a message makes it ready
/// exactly when it was ready already or is one of the two greetings, and
/// a user name is known only after `Hello` (an `Unauthenticated` forgets it).
pub proof fn lemma_ready_stays(old: AppData, msg: ServerMsg, new: AppData, follow_ups: Seq<ClientMsg>)
    requires
        server_msg_handled(old, msg, new, follow_ups),
    ensures
        new.ready == (old.ready || msg is Hello || msg is Unauthenticated),
        msg is Unauthenticated ==> new.username is None,
        msg is Hello ==> new.username is Some,
        !(msg is Hello || msg is Unauthenticated) ==> new.username == old.username,
{
}

/// The messages that taking in `msg` sends back.
pub open spec fn follow_ups_of(msg: ServerMsg) -> Seq<ClientMsg> {
    if msg is Hello { seq![ClientMsg::GetMyVolumes] } else { Seq::empty() }
}

/// The server's greeting: `Hello` or `Unauthenticated`.
pub open spec fn is_greeting(msg: ServerMsg) -> bool {
    msg is Hello || msg is Unauthenticated
}

/// `states` is the shared state before each of `msgs` and after the last,
/// the messages taken in one after the other.
pub open spec fn handled_in_turn(msgs: Seq<ServerMsg>, states: Seq<AppData>) -> bool {
    &&& states.len() == msgs.len() + 1
    &&& forall|i: int| 0 <= i < msgs.len() ==> server_msg_handled(states[i], #[trigger] msgs[i], states[i + 1], follow_ups_of(msgs[i]))
}

/// Over any run of messages taken in from the state before the server has
/// said anything: the client is ready exactly once some greeting has come,
/// and stays ready; a user name is known only after a `Hello` that no
/// `Unauthenticated` has followed.
pub proof fn lemma_ready_over_messages(msgs: Seq<ServerMsg>, states: Seq<AppData>, n: int)
    requires
        handled_in_turn(msgs, states),
        !states[0].ready,
        states[0].username is None,
        0 <= n <= msgs.len(),
    ensures
        states[n].ready == exists|k: int| 0 <= k < n && #[trigger] is_greeting(msgs[k]),
        states[n].username is Some ==> exists|k: int| 0 <= k < n && #[trigger] msgs[k] is Hello
            && forall|l: int| k < l < n ==> !(#[trigger] msgs[l] is Unauthenticated),
    decreases n,
{
    if n > 0 {
        lemma_ready_over_messages(msgs, states, n - 1);
        let m = msgs[n - 1];
        assert(server_msg_handled(states[n - 1], msgs[n - 1], states[n], follow_ups_of(msgs[n - 1])));
        if is_greeting(m) {
            assert(is_greeting(msgs[n - 1]));
        } else {
            if states[n].ready {
                let k = choose|k: int| 0 <= k < n - 1 && #[trigger] is_greeting(msgs[k]);
                assert(is_greeting(msgs[k]));
            }
            if exists|k: int| 0 <= k < n && #[trigger] is_greeting(msgs[k]) {
                let k = choose|k: int| 0 <= k < n && #[trigger] is_greeting(msgs[k]);
                assert(k != n - 1);
                assert(is_greeting(msgs[k]));
            }
        }
        if states[n].username is Some {
            if m is Hello {
                assert(msgs[n - 1] is Hello);
            } else {
                let k = choose|k: int| 0 <= k < n - 1 && #[trigger] msgs[k] is Hello
                    && forall|l: int| k < l < n - 1 ==> !(#[trigger] msgs[l] is Unauthenticated);
                assert(msgs[k] is Hello);
                assert forall|l: int| k < l < n implies !(#[trigger] msgs[l] is Unauthenticated) by {
                    if l < n - 1 {
                    }
                }
            }
        }
    }
}

/// A client that has been greeted stays ready through every later message.
pub proof fn lemma_ready_never_reverts(msgs: Seq<ServerMsg>, states: Seq<AppData>, i: int, j: int)
    requires
        handled_in_turn(msgs, states),
        !states[0].ready,
        states[0].username is None,
        0 <= i <= j <= msgs.len(),
        states[i].ready,
    ensures
        states[j].ready,
{
    lemma_ready_over_messages(msgs, states, i);
    lemma_ready_over_messages(msgs, states, j);
    let k = choose|k: int| 0 <= k < i && #[trigger] is_greeting(msgs[k]);
    assert(is_greeting(msgs[k]));
}

/// A listing in an admin response replaces what the admin pages held:
/// afterwards the list is exactly the one in the response, element by
/// element, whatever was there before.
pub proof fn lemma_admin_listing_replaces(old: AdminData, resp: AdminResponse, new: AdminData)
    requires
        admin_applied(old, resp, new),
    ensures
        resp matches AdminResponse::Tokens { tokens } ==> new.tokens@ == tokens@,
        resp matches AdminResponse::Volumes { volumes } ==> new.volumes@ == volumes@,
        resp matches AdminResponse::Roles { roles, .. } ==> new.roles@.len() == roles@.len()
            && forall|i: int| 0 <= i < roles@.len() ==> #[trigger] new.roles@[i] == (roles@[i].id, roles@[i].name),
{
}

/// Taking in the same admin listing from any two states gives the same
/// list: what was held before does not matter.
pub proof fn lemma_admin_listing_forgets(old1: AdminData, old2: AdminData, resp: AdminResponse, new1: AdminData, new2: AdminData)
    requires
        admin_applied(old1, resp, new1),
        admin_applied(old2, resp, new2),
    ensures
        resp is Tokens ==> new1.tokens@ == new2.tokens@,
        resp is Volumes ==> new1.volumes@ == new2.volumes@,
        resp is Roles ==> new1.roles@ == new2.roles@,
{
    lemma_admin_listing_replaces(old1, resp, new1);
    lemma_admin_listing_replaces(old2, resp, new2);
    if resp is Roles {
        assert(new1.roles@ =~= new2.roles@);
    }
}

/// A directory listing replaces the entries shown: afterwards they are
/// exactly the listing's entries; an error leaves none.
pub proof fn lemma_browse_listing_replaces(old: BrowseData, resp: BrowseResponse, new: BrowseData)
    requires
        browse_applied(old, resp, new),
    ensures
        resp matches BrowseResponse::DirectoryListing { entries } ==> new.entries@ == entries@ && new.error is None,
        resp matches BrowseResponse::Error { message } ==> new.entries@.len() == 0 && new.error == Some(message),
{
}

/// The volume list the server sends replaces the client's list: afterwards
/// the client holds one (id, name) pair per volume sent, in order,
/// whatever it held before.
pub proof fn lemma_my_volumes_replace(old: AppData, msg: ServerMsg, new: AppData, follow_ups: Seq<ClientMsg>)
    requires
        server_msg_handled(old, msg, new, follow_ups),
    ensures
        msg matches ServerMsg::MyVolumes { volumes } ==> new.volumes@.len() == volumes@.len()
            && forall|i: int| 0 <= i < volumes@.len() ==> #[trigger] new.volumes@[i] == (volumes@[i].id, volumes@[i].name),
{
}

/// After a volume is removed, no volume with its id is left.
pub proof fn lemma_removed_volume_absent(volumes: Seq<VolumeInfo>, id: u64, i: int)
    requires
        0 <= i < without_volume(volumes, id).len(),
    ensures
        without_volume(volumes, id)[i].id != id,
{
    broadcast use vstd::seq_lib::group_filter_ensures;
    let pred = |v: VolumeInfo| v.id != id;
    assert(pred(volumes.filter(pred)[i]));
}

} // verus!
