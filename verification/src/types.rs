//! The messages exchanged between browser and server, and the records
//! they carry.
use vstd::prelude::*;

verus! {

/// What the members of a volume's role may do with its files.
#[derive(Clone, Copy, Debug, PartialEq, Eq, Structural)]
pub enum Permission {
    ReadOnly,
    ReadWrite,
}

/// Whether a directory entry is a plain file or a directory.
#[derive(Clone, Copy, Debug, PartialEq, Eq, Structural)]
pub enum EntryType {
    File,
    Directory,
}

/// An action on one entry of a volume.
#[derive(Clone, Copy, Debug, PartialEq, Eq, Structural)]
pub enum EntryActionKind {
    Download,
    Rename,
    Delete,
}

/// A moment in UTC: whole seconds since the Unix epoch and the
/// nanoseconds past that second.
#[derive(Clone, Copy, Debug, PartialEq, Eq, Structural)]
pub struct UtcTime {
    pub secs: i64,
    pub nanos: u32,
}

/// `a` lies strictly after `b` (seconds first, then nanoseconds).
pub open spec fn utc_after(a: UtcTime, b: UtcTime) -> bool {
    a.secs > b.secs || (a.secs == b.secs && a.nanos > b.nanos)
}

/// Times are ordered by their seconds first: a time whose second is
/// earlier is never after, one whose second is later always is, and within
/// one second the nanoseconds decide.
pub proof fn lemma_utc_after_chronological(a: UtcTime, b: UtcTime)
    ensures
        a.secs < b.secs ==> !utc_after(a, b),
        a.secs > b.secs ==> utc_after(a, b),
        a.secs == b.secs ==> (utc_after(a, b) <==> a.nanos > b.nanos),
        !(utc_after(a, b) && utc_after(b, a)),
        !utc_after(a, a),
{
}

impl UtcTime {
    /// Whether `self` lies strictly after `other`.
    pub fn is_after(&self, other: &UtcTime) -> (r: bool)
        ensures
            r == utc_after(*self, *other),
    {
        self.secs > other.secs || (self.secs == other.secs && self.nanos > other.nanos)
    }
}

/// A Discord role as the admin pages list it.
#[derive(Debug, PartialEq, Eq)]
pub struct RoleInfo {
    pub id: u64,
    pub name: String,
}

impl Clone for RoleInfo {
    fn clone(&self) -> (r: Self)
        ensures
            r == *self,
    {
        RoleInfo { id: self.id, name: self.name.clone() }
    }
}

/// A logged-in session as the admin pages list it.
#[derive(Debug, PartialEq, Eq)]
pub struct TokenInfo {
    pub user_id: u64,
    pub username: String,
    pub expires: UtcTime,
}

impl Clone for TokenInfo {
    fn clone(&self) -> (r: Self)
        ensures
            r == *self,
    {
        TokenInfo { user_id: self.user_id, username: self.username.clone(), expires: self.expires }
    }
}

/// A configured volume: a host directory shared with the members of one role.
#[derive(Debug, PartialEq, Eq)]
pub struct VolumeInfo {
    pub id: u64,
    pub name: String,
    pub path: String,
    pub role_id: u64,
    pub permission: Permission,
}

impl Clone for VolumeInfo {
    fn clone(&self) -> (r: Self)
        ensures
            r == *self,
    {
        VolumeInfo {
            id: self.id,
            name: self.name.clone(),
            path: self.path.clone(),
            role_id: self.role_id,
            permission: self.permission,
        }
    }
}

/// One entry of a directory listing.
#[derive(Debug, PartialEq, Eq)]
pub struct DirEntry {
    pub name: String,
    pub entry_type: EntryType,
    pub size: u64,
    pub created_at: Option<UtcTime>,
    pub updated_at: Option<UtcTime>,
}

impl Clone for DirEntry {
    fn clone(&self) -> (r: Self)
        ensures
            r == *self,
    {
        DirEntry {
            name: self.name.clone(),
            entry_type: self.entry_type,
            size: self.size,
            created_at: self.created_at,
            updated_at: self.updated_at,
        }
    }
}

// --- Client to server ---

/// A request about the files of a volume.
#[derive(Clone, Debug, PartialEq, Eq)]
pub enum BrowseAction {
    ListDirectory { volume_id: u64, path: String },
    EntryAction { volume_id: u64, path: String, action: EntryActionKind },
}

/// A request of the admin pages.
#[derive(Clone, Debug, PartialEq, Eq)]
pub enum AdminAction {
    GetRoles,
    SetAdminRole { role_id: u64 },
    GetTokens,
    GetVolumes,
    AddVolume { name: String, path: String, role_id: u64, permission: Permission },
    RemoveVolume { id: u64 },
}

/// A message from the browser to the server.
#[derive(Clone, Debug, PartialEq, Eq)]
pub enum ClientMsg {
    Admin(AdminAction),
    GetMyVolumes,
    Browse(BrowseAction),
}

// --- Server to client ---

/// The answer to a browse request.
#[derive(Clone, Debug, PartialEq, Eq)]
pub enum BrowseResponse {
    DirectoryListing { entries: Vec<DirEntry> },
    Error { message: String },
}

/// The answer to an admin request.
#[derive(Clone, Debug, PartialEq, Eq)]
pub enum AdminResponse {
    Roles { roles: Vec<RoleInfo>, admin_role_id: Option<u64> },
    AdminRoleUpdated { role_id: u64 },
    Tokens { tokens: Vec<TokenInfo> },
    Volumes { volumes: Vec<VolumeInfo> },
    VolumeAdded { volume: VolumeInfo },
    VolumeRemoved { id: u64 },
    Error { message: String },
    Unauthorized,
}

/// A message from the server to the browser.
#[derive(Clone, Debug, PartialEq, Eq)]
pub enum ServerMsg {
    Hello { username: String, avatar_url: Option<String> },
    Unauthenticated,
    Admin(AdminResponse),
    MyVolumes { volumes: Vec<VolumeInfo> },
    Browse(BrowseResponse),
}

} // verus!
