//! Admin settings (which Discord role grants admin access), the admin
//! check, and the answers to admin requests.
use vstd::prelude::*;
use crate::store::{
    be_bytes, database_error, db_contents, db_get, db_insert, db_open, from_be, from_be_bytes,
    lemma_be_round_trip, to_be_bytes, StorageError,
};
use crate::types::{AdminAction, AdminResponse, Permission, RoleInfo, TokenInfo, UtcTime};
use crate::login::User;
use crate::volume::{volume_info, volume_infos, Volume, VolumeStorage};

verus! {

/// The key under which the admin role is stored: the bytes of "admin_role_id".
pub open spec fn admin_role_key() -> Seq<u8> {
    seq![97u8, 100u8, 109u8, 105u8, 110u8, 95u8, 114u8, 111u8, 108u8, 101u8, 95u8, 105u8, 100u8]
}

fn admin_role_key_bytes() -> (r: Vec<u8>)
    ensures
        r@ == admin_role_key(),
{
    let r: Vec<u8> = vec![97u8, 100u8, 109u8, 105u8, 110u8, 95u8, 114u8, 111u8, 108u8, 101u8, 95u8, 105u8, 100u8];
    assert(r@ =~= admin_role_key());
    r
}

/// The admin role that a settings database holds: `Some(None)` when none
/// is set, `Some(Some(id))` when one is, and `None` when the stored value
/// is not eight bytes long.
pub open spec fn stored_admin_role(m: Map<Seq<u8>, Seq<u8>>) -> Option<Option<u64>> {
    if !m.contains_key(admin_role_key()) {
        Some(None)
    } else if m[admin_role_key()].len() == 8 {
        Some(Some(from_be(m[admin_role_key()])))
    } else {
        None
    }
}

/// Why reading the admin role failed.
#[derive(Debug, PartialEq, Eq)]
pub enum AdminSettingsError {
    /// The database reported an error.
    Database,
    /// The stored value is not a role id.
    InvalidValue,
}

/// Persistent admin settings.
pub struct AdminSettings {
    db: sled::Db,
}

impl AdminSettings {
    /// What the settings database holds.
    pub closed spec fn contents(&self) -> Map<Seq<u8>, Seq<u8>> {
        db_contents(self.db)
    }

    /// Opens the settings database at `path`.
    pub fn open(path: &str) -> (r: Result<AdminSettings, StorageError>)
        ensures
            r matches Err(e) ==> e == StorageError::Database,
    {
        match db_open(path) {
            Ok(db) => Ok(AdminSettings { db }),
            Err(e) => Err(database_error(e)),
        }
    }

    /// The admin role, if one is set. A stored value that is not a role id
    /// is `InvalidValue`.
    pub fn get_admin_role_id(&self) -> (r: Result<Option<u64>, AdminSettingsError>)
        ensures
            r matches Ok(v) ==> stored_admin_role(self.contents()) == Some(v),
            r matches Err(AdminSettingsError::InvalidValue) ==> stored_admin_role(self.contents()) is None,
    {
        let key = admin_role_key_bytes();
        match db_get(&self.db, key.as_slice()) {
            Err(_) => Err(AdminSettingsError::Database),
            Ok(None) => Ok(None),
            Ok(Some(bytes)) => {
                if bytes.len() == 8 {
                    Ok(Some(from_be_bytes(bytes.as_slice())))
                } else {
                    Err(AdminSettingsError::InvalidValue)
                }
            },
        }
    }

    /// Stores the admin role.
    pub fn set_admin_role_id(&mut self, role_id: u64) -> (r: Result<(), StorageError>)
        ensures
            r is Ok ==> final(self).contents() == old(self).contents().insert(admin_role_key(), be_bytes(role_id)),
            r matches Err(e) ==> e == StorageError::Database,
    {
        let key = admin_role_key_bytes();
        let value = to_be_bytes(role_id);
        match db_insert(&mut self.db, key.as_slice(), &value) {
            Ok(()) => Ok(()),
            Err(e) => Err(database_error(e)),
        }
    }
}

/// Reading the admin role after storing one gives that role.
pub proof fn lemma_admin_role_read_after_write(m: Map<Seq<u8>, Seq<u8>>, role_id: u64)
    ensures
        stored_admin_role(m.insert(admin_role_key(), be_bytes(role_id))) == Some(Some(role_id)),
{
    lemma_be_round_trip(role_id);
}

/// The admin role as the roles page shows it: the stored one, or none when
/// none is set or it could not be read.
pub fn role_to_check(stored: &Result<Option<u64>, AdminSettingsError>) -> (r: Option<u64>)
    requires
        !(stored matches Err(AdminSettingsError::InvalidValue)),
    ensures
        r == (match stored { Ok(v) => *v, Err(_) => None }),
{
    match stored {
        Ok(v) => *v,
        Err(_) => None,
    }
}

/// The role whose membership the admin check has to look up: the stored
/// admin role, if one is set and could be read.
pub fn role_to_look_up(stored: &Result<Option<u64>, AdminSettingsError>) -> (r: Option<u64>)
    ensures
        r == (match stored { Ok(Some(a)) => Some(*a), _ => None }),
{
    match stored {
        Ok(Some(a)) => Some(*a),
        _ => None,
    }
}

/// Who may use the admin pages, given what reading the admin role gave and
/// the member's roles (`None` if they were not or could not be fetched):
/// everyone while no admin role is set; the members of the admin role once
/// one is; nobody when the setting could not be read.
pub open spec fn admitted(stored: Result<Option<u64>, AdminSettingsError>, member_roles: Option<Vec<u64>>) -> bool {
    match stored {
        Ok(None) => true,
        Ok(Some(a)) => member_roles matches Some(rs) && rs@.contains(a),
        Err(_) => false,
    }
}

/// The admin check, the same for every admin action.
pub fn is_authorized(stored: &Result<Option<u64>, AdminSettingsError>, member_roles: &Option<Vec<u64>>) -> (r: bool)
    ensures
        r == admitted(*stored, *member_roles),
{
    match stored {
        Ok(None) => true,
        Ok(Some(a)) => match member_roles {
            Some(rs) => crate::browse::has_role(rs, *a),
            None => false,
        },
        Err(_) => false,
    }
}

/// `r` is the admin error that carries the message `msg`.
pub open spec fn is_admin_error(r: AdminResponse, msg: Seq<char>) -> bool {
    r matches AdminResponse::Error { message } && message@ == msg
}

fn admin_error(msg: &str) -> (r: AdminResponse)
    ensures
        is_admin_error(r, msg@),
{
    AdminResponse::Error { message: String::from_str(msg) }
}

/// The answer to a roles request: the guild's roles (`None` when they could
/// not be fetched, answered with "Failed to fetch guild roles") and the
/// configured admin role.
pub fn roles_response(guild_roles: Option<Vec<RoleInfo>>, admin_role_id: Option<u64>) -> (r: AdminResponse)
    ensures
        guild_roles matches Some(roles) ==> r == (AdminResponse::Roles { roles, admin_role_id }),
        guild_roles is None ==> is_admin_error(r, "Failed to fetch guild roles"@),
{
    match guild_roles {
        Some(roles) => AdminResponse::Roles { roles, admin_role_id },
        None => admin_error("Failed to fetch guild roles"),
    }
}

/// Stores the admin role and answers with the stored role, or with "Failed
/// to save admin role".
pub fn set_admin_role(settings: &mut AdminSettings, role_id: u64) -> (r: AdminResponse)
    ensures
        r == (AdminResponse::AdminRoleUpdated { role_id }) ==> final(settings).contents()
            == old(settings).contents().insert(admin_role_key(), be_bytes(role_id)),
        r != (AdminResponse::AdminRoleUpdated { role_id }) ==> is_admin_error(r, "Failed to save admin role"@),
{
    match settings.set_admin_role_id(role_id) {
        Ok(()) => AdminResponse::AdminRoleUpdated { role_id },
        Err(_) => admin_error("Failed to save admin role"),
    }
}

/// The session list entry for one stored session.
pub open spec fn token_info_of(entry: (UtcTime, User)) -> TokenInfo {
    TokenInfo { user_id: entry.1.user_id, username: entry.1.username, expires: entry.0 }
}

/// The answer to a sessions request: every stored session, in order.
pub fn tokens_response(entries: Vec<(UtcTime, User)>) -> (r: AdminResponse)
    ensures
        r matches AdminResponse::Tokens { tokens } && tokens@ == entries@.map_values(|e: (UtcTime, User)| token_info_of(e)),
{
    let mut tokens: Vec<TokenInfo> = Vec::new();
    let mut i: usize = 0;
    while i < entries.len()
        invariant
            i <= entries.len(),
            tokens@ == entries@.take(i as int).map_values(|e: (UtcTime, User)| token_info_of(e)),
        decreases entries.len() - i,
    {
        let expires = entries[i].0;
        let user = entries[i].1.clone();
        tokens.push(TokenInfo { user_id: user.user_id, username: user.username, expires });
        proof {
            assert(entries@.take(i + 1) =~= entries@.take(i as int).push(entries@[i as int]));
            assert(entries@.take(i + 1).map_values(|e: (UtcTime, User)| token_info_of(e))
                =~= entries@.take(i as int).map_values(|e: (UtcTime, User)| token_info_of(e)).push(
                token_info_of(entries@[i as int])));
        }
        i = i + 1;
    }
    assert(entries@.take(entries.len() as int) =~= entries@);
    AdminResponse::Tokens { tokens }
}

/// The answer to a volumes request: every configured volume, in order.
pub fn volumes_response(volumes: &Vec<Volume>) -> (r: AdminResponse)
    ensures
        r matches AdminResponse::Volumes { volumes: infos } && infos@ == volumes@.map_values(|v: Volume| v.info()),
{
    AdminResponse::Volumes { volumes: volume_infos(volumes) }
}

/// The answer to adding a volume: the new volume, or "Failed to add
/// volume". The flag says whether the users' volume lists must be sent again.
pub fn volume_added_response(added: Result<Volume, StorageError>) -> (r: (AdminResponse, bool))
    ensures
        added matches Ok(v) ==> r.0 == (AdminResponse::VolumeAdded { volume: v.info() }) && r.1,
        added is Err ==> is_admin_error(r.0, "Failed to add volume"@) && !r.1,
{
    match added {
        Ok(v) => (AdminResponse::VolumeAdded { volume: volume_info(&v) }, true),
        Err(_) => (admin_error("Failed to add volume"), false),
    }
}

/// The answer to removing a volume: its id, "Volume not found" when there
/// was none, or "Failed to remove volume". The flag says whether the users'
/// volume lists must be sent again.
pub fn volume_removed_response(removed: Result<bool, StorageError>, id: u64) -> (r: (AdminResponse, bool))
    ensures
        removed == Ok::<bool, StorageError>(true) ==> r.0 == (AdminResponse::VolumeRemoved { id }) && r.1,
        removed == Ok::<bool, StorageError>(false) ==> is_admin_error(r.0, "Volume not found"@) && !r.1,
        removed is Err ==> is_admin_error(r.0, "Failed to remove volume"@) && !r.1,
{
    match removed {
        Ok(true) => (AdminResponse::VolumeRemoved { id }, true),
        Ok(false) => (admin_error("Volume not found"), false),
        Err(_) => (admin_error("Failed to remove volume"), false),
    }
}

/// What an admin request comes down to, once the user has been checked.
#[derive(Debug, PartialEq, Eq)]
pub enum AdminTask {
    /// Answer at once with this response.
    Reply(AdminResponse),
    GetRoles,
    SetAdminRole { role_id: u64 },
    GetTokens,
    GetVolumes,
    AddVolume { name: String, path: String, role_id: u64, permission: Permission },
    RemoveVolume { id: u64 },
}

/// An admin request from a user who failed the admin check is answered with
/// `Unauthorized`; otherwise it goes to its handler.
pub fn admin_task(authorized: bool, action: AdminAction) -> (r: AdminTask)
    ensures
        !authorized ==> r == AdminTask::Reply(AdminResponse::Unauthorized),
        authorized ==> r == (match action {
            AdminAction::GetRoles => AdminTask::GetRoles,
            AdminAction::SetAdminRole { role_id } => AdminTask::SetAdminRole { role_id },
            AdminAction::GetTokens => AdminTask::GetTokens,
            AdminAction::GetVolumes => AdminTask::GetVolumes,
            AdminAction::AddVolume { name, path, role_id, permission } => AdminTask::AddVolume { name, path, role_id, permission },
            AdminAction::RemoveVolume { id } => AdminTask::RemoveVolume { id },
        }),
{
    if !authorized {
        return AdminTask::Reply(AdminResponse::Unauthorized);
    }
    match action {
        AdminAction::GetRoles => AdminTask::GetRoles,
        AdminAction::SetAdminRole { role_id } => AdminTask::SetAdminRole { role_id },
        AdminAction::GetTokens => AdminTask::GetTokens,
        AdminAction::GetVolumes => AdminTask::GetVolumes,
        AdminAction::AddVolume { name, path, role_id, permission } => AdminTask::AddVolume { name, path, role_id, permission },
        AdminAction::RemoveVolume { id } => AdminTask::RemoveVolume { id },
    }
}

/// Stores a new volume under its id (its record prepared by the caller) and
/// answers: the new volume, or "Failed to add volume". The flag says
/// whether the users' volume lists must be sent again.
pub fn store_new_volume(storage: &mut VolumeStorage, volume: Volume, record: &[u8]) -> (r: (AdminResponse, bool))
    ensures
        r.1 ==> final(storage).records() == old(storage).records().insert(volume.id, record@)
            && r.0 == (AdminResponse::VolumeAdded { volume: volume.info() }),
        !r.1 ==> is_admin_error(r.0, "Failed to add volume"@),
        final(storage).issued() == old(storage).issued(),
        r.1 && old(storage).ids_issued() && old(storage).issued().contains(volume.id) ==> final(storage).ids_issued(),
{
    match storage.put(volume.id, record) {
        Ok(()) => volume_added_response(Ok(volume)),
        Err(e) => volume_added_response(Err(e)),
    }
}

/// Removes a volume and answers: its id, "Volume not found", or "Failed to
/// remove volume". The flag says whether the users' volume lists must be
/// sent again.
pub fn remove_volume(storage: &mut VolumeStorage, id: u64) -> (r: (AdminResponse, bool))
    ensures
        r.1 ==> old(storage).records().contains_key(id) && final(storage).records() == old(storage).records().remove(id)
            && r.0 == (AdminResponse::VolumeRemoved { id }),
        !r.1 ==> is_admin_error(r.0, "Volume not found"@) || is_admin_error(r.0, "Failed to remove volume"@),
        is_admin_error(r.0, "Volume not found"@) ==> !old(storage).records().contains_key(id)
            && final(storage).records() == old(storage).records(),
        final(storage).issued() == old(storage).issued(),
        old(storage).ids_issued() && !is_admin_error(r.0, "Failed to remove volume"@) ==> final(storage).ids_issued(),
{
    let removed = storage.remove(id);
    proof {
        reveal_strlit("Volume not found");
        reveal_strlit("Failed to remove volume");
        assert("Volume not found"@ != "Failed to remove volume"@) by {
            assert("Volume not found"@.len() != "Failed to remove volume"@.len());
        }
        if removed matches Ok(false) {
            assert(old(storage).records().remove(id) =~= old(storage).records());
        }
    }
    volume_removed_response(removed, id)
}

} // verus!
