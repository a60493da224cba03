//! Configured volumes and their persistent storage.
use vstd::prelude::*;
use crate::store::{
    be_bytes, database_error, db_contents, issued_ids, appears, holds_value, readable_values, values_in_key_order, db_generate_id, db_insert, db_open, db_remove,
    lemma_records_insert, lemma_records_remove, records_by_id, to_be_bytes, StorageError,
};
use crate::types::{Permission, VolumeInfo};

verus! {

/// A configured volume as it is stored: a host directory shared with the
/// members of one Discord role.
#[derive(Debug, PartialEq, Eq)]
pub struct Volume {
    pub id: u64,
    pub name: String,
    pub path: String,
    pub role_id: u64,
    pub permission: Permission,
}

impl Clone for Volume {
    fn clone(&self) -> (r: Self)
        ensures
            r == *self,
    {
        Volume {
            id: self.id,
            name: self.name.clone(),
            path: self.path.clone(),
            role_id: self.role_id,
            permission: self.permission,
        }
    }
}

impl Volume {
    /// The volume as messages carry it.
    pub open spec fn info(self) -> VolumeInfo {
        VolumeInfo { id: self.id, name: self.name, path: self.path, role_id: self.role_id, permission: self.permission }
    }
}

/// The volume with the given id and settings.
pub open spec fn volume_with_id(id: u64, name: String, path: String, role_id: u64, permission: Permission) -> Volume {
    Volume { id, name, path, role_id, permission }
}

/// Builds the volume for a newly given-out id.
pub fn make_volume(id: u64, name: String, path: String, role_id: u64, permission: Permission) -> (v: Volume)
    ensures
        v == volume_with_id(id, name, path, role_id, permission),
{
    Volume { id, name, path, role_id, permission }
}

/// The volume as messages carry it.
pub fn volume_info(v: &Volume) -> (r: VolumeInfo)
    ensures
        r == v.info(),
{
    VolumeInfo {
        id: v.id,
        name: v.name.clone(),
        path: v.path.clone(),
        role_id: v.role_id,
        permission: v.permission,
    }
}

/// The volumes as messages carry them, in order.
pub fn volume_infos(volumes: &Vec<Volume>) -> (r: Vec<VolumeInfo>)
    ensures
        r@ == volumes@.map_values(|v: Volume| v.info()),
{
    let mut out: Vec<VolumeInfo> = Vec::new();
    let mut i: usize = 0;
    while i < volumes.len()
        invariant
            i <= volumes.len(),
            out@ == volumes@.take(i as int).map_values(|v: Volume| v.info()),
        decreases volumes.len() - i,
    {
        out.push(volume_info(&volumes[i]));
        proof {
            assert(volumes@.take(i + 1) =~= volumes@.take(i as int).push(volumes@[i as int]));
            assert(volumes@.take(i + 1).map_values(|v: Volume| v.info())
                =~= volumes@.take(i as int).map_values(|v: Volume| v.info()).push(volumes@[i as int].info()));
        }
        i = i + 1;
    }
    assert(volumes@.take(volumes.len() as int) =~= volumes@);
    out
}

/// Holds of the volumes whose role is among `roles`.
pub open spec fn role_among(roles: Seq<u64>) -> spec_fn(Volume) -> bool {
    |v: Volume| roles.contains(v.role_id)
}

/// The role ids of a member, or none when they could not be fetched.
pub open spec fn roles_or_none(member_roles: Option<Vec<u64>>) -> Seq<u64> {
    match member_roles {
        Some(rs) => rs@,
        None => Seq::empty(),
    }
}

/// The volumes that a member may see: those whose role the member has
/// (none when the member's roles could not be fetched), in stored order.
pub fn my_volumes(member_roles: &Option<Vec<u64>>, volumes: &Vec<Volume>) -> (r: Vec<VolumeInfo>)
    ensures
        r@ == volumes@.filter(role_among(roles_or_none(*member_roles))).map_values(|v: Volume| v.info()),
{
    let ghost roles = roles_or_none(*member_roles);
    let mut out: Vec<VolumeInfo> = Vec::new();
    let mut i: usize = 0;
    while i < volumes.len()
        invariant
            i <= volumes.len(),
            roles == roles_or_none(*member_roles),
            out@ == volumes@.take(i as int).filter(role_among(roles)).map_values(|v: Volume| v.info()),
        decreases volumes.len() - i,
    {
        let v = &volumes[i];
        let visible = match member_roles {
            Some(rs) => crate::browse::has_role(rs, v.role_id),
            None => false,
        };
        proof {
            assert(volumes@.take(i + 1) =~= volumes@.take(i as int).push(volumes@[i as int]));
            volumes@.take(i as int).lemma_filter_push(volumes@[i as int], role_among(roles));
        }
        if visible {
            out.push(volume_info(v));
            proof {
                assert(volumes@.take(i + 1).filter(role_among(roles)).map_values(|v: Volume| v.info())
                    =~= volumes@.take(i as int).filter(role_among(roles)).map_values(|v: Volume| v.info()).push(
                    volumes@[i as int].info()));
            }
        }
        i = i + 1;
    }
    assert(volumes@.take(volumes.len() as int) =~= volumes@);
    out
}

/// Persistent volume configuration: one record per volume, stored under
/// the big-endian bytes of its id.
pub struct VolumeStorage {
    db: sled::Db,
}

impl VolumeStorage {
    /// What the volume database holds.
    pub closed spec fn contents(&self) -> Map<Seq<u8>, Seq<u8>> {
        db_contents(self.db)
    }

    /// The stored records by volume id.
    pub open spec fn records(&self) -> Map<u64, Seq<u8>> {
        records_by_id(self.contents())
    }

    /// Opens the volume database at `path`.
    pub fn open(path: &str) -> (r: Result<VolumeStorage, StorageError>)
        ensures
            r matches Err(e) ==> e == StorageError::Database,
    {
        match db_open(path) {
            Ok(db) => Ok(VolumeStorage { db }),
            Err(e) => Err(database_error(e)),
        }
    }

    /// The records that could be read, in ascending key order (so in
    /// ascending id order, see `lemma_be_bytes_order`), and whether every
    /// one could be read; each is the record of some key, and when every
    /// one could be read every record is here.
    pub fn list_all(&self) -> (r: (Vec<Vec<u8>>, bool))
        ensures
            forall|i: int| 0 <= i < r.0@.len() ==> holds_value(self.contents(), #[trigger] r.0@[i]@),
            exists|ks: Seq<Seq<u8>>| #[trigger] values_in_key_order(self.contents(), r.0@, ks),
            r.1 ==> forall|k: Seq<u8>| #[trigger] self.contents().contains_key(k) ==> appears(r.0@, self.contents()[k]),
    {
        let r = readable_values(&self.db);
        proof {
            let ks = choose|ks: Seq<Seq<u8>>| #[trigger] values_in_key_order(db_contents(self.db), r.0@, ks);
            assert(values_in_key_order(self.contents(), r.0@, ks));
        }
        r
    }

    /// The ids that the volume database has given out.
    pub closed spec fn issued(&self) -> Set<u64> {
        issued_ids(self.db)
    }

    /// Every stored volume's id is one that the database gave out. This
    /// holds of a store that only ever got its ids from `new_volume`; what
    /// a store opened from disk holds is not known, so it is not claimed of
    /// `open`.
    pub open spec fn ids_issued(&self) -> bool {
        forall|id: u64| #[trigger] self.records().contains_key(id) ==> self.issued().contains(id)
    }

    /// A new volume under an id that the database has never given out
    /// before (it is not stored yet). In a store whose stored ids were all
    /// given out by it, no volume has that id yet.
    pub fn new_volume(&mut self, name: String, path: String, role_id: u64, permission: Permission) -> (r: Result<Volume, StorageError>)
        ensures
            final(self).records() == old(self).records(),
            r matches Ok(v) ==> v == volume_with_id(v.id, name, path, role_id, permission)
                && !old(self).issued().contains(v.id)
                && final(self).issued() == old(self).issued().insert(v.id),
            old(self).ids_issued() ==> (r matches Ok(v) ==> !final(self).records().contains_key(v.id)),
            old(self).ids_issued() ==> final(self).ids_issued(),
            r is Err ==> old(self).issued().subset_of(final(self).issued()),
            r matches Err(e) ==> e == StorageError::Database,
    {
        let generated = db_generate_id(&mut self.db);
        proof {
            assert(self.records() =~= old(self).records());
            if old(self).ids_issued() {
                assert forall|id: u64| #[trigger] self.records().contains_key(id) implies self.issued().contains(id) by {
                    assert(old(self).records().contains_key(id));
                    assert(old(self).issued().contains(id));
                }
            }
        }
        match generated {
            Ok(id) => {
                proof {
                    if old(self).ids_issued() && old(self).records().contains_key(id) {
                        assert(old(self).issued().contains(id));
                    }
                }
                Ok(make_volume(id, name, path, role_id, permission))
            },
            Err(e) => Err(database_error(e)),
        }
    }

    /// Stores the record of a volume under its id.
    pub fn put(&mut self, id: u64, record: &[u8]) -> (r: Result<(), StorageError>)
        ensures
            r is Ok ==> final(self).records() == old(self).records().insert(id, record@),
            r matches Err(e) ==> e == StorageError::Database,
            final(self).issued() == old(self).issued(),
            r is Ok && old(self).ids_issued() && old(self).issued().contains(id) ==> final(self).ids_issued(),
    {
        let key = to_be_bytes(id);
        match db_insert(&mut self.db, &key, record) {
            Ok(()) => {
                proof {
                    lemma_records_insert(old(self).contents(), id, record@);
                    if old(self).ids_issued() && old(self).issued().contains(id) {
                        assert forall|x: u64| #[trigger] self.records().contains_key(x) implies self.issued().contains(x) by {
                            if x != id {
                                assert(old(self).records().contains_key(x));
                            }
                        }
                    }
                }
                Ok(())
            },
            Err(e) => Err(database_error(e)),
        }
    }

    /// Removes the volume with the given id; the result tells whether there
    /// was one.
    pub fn remove(&mut self, id: u64) -> (r: Result<bool, StorageError>)
        ensures
            r matches Ok(b) ==> b == old(self).records().contains_key(id)
                && final(self).records() == old(self).records().remove(id),
            r matches Err(e) ==> e == StorageError::Database,
            final(self).issued() == old(self).issued(),
            r is Ok && old(self).ids_issued() ==> final(self).ids_issued(),
    {
        let key = to_be_bytes(id);
        match db_remove(&mut self.db, &key) {
            Ok(v) => {
                proof {
                    lemma_records_remove(old(self).contents(), id);
                    if old(self).ids_issued() {
                        assert forall|x: u64| #[trigger] self.records().contains_key(x) implies self.issued().contains(x) by {
                            assert(old(self).records().contains_key(x));
                        }
                    }
                }
                Ok(v.is_some())
            },
            Err(e) => Err(database_error(e)),
        }
    }
}

/// Every volume that a member is shown may be browsed by that member.
pub proof fn lemma_shown_volumes_browsable(member_roles: Option<Vec<u64>>, volumes: Seq<Volume>, i: int)
    requires
        0 <= i < volumes.filter(role_among(roles_or_none(member_roles))).len(),
    ensures
        crate::browse::may_browse(member_roles, volumes.filter(role_among(roles_or_none(member_roles)))[i]),
{
    broadcast use vstd::seq_lib::group_filter_ensures;
    let shown = volumes.filter(role_among(roles_or_none(member_roles)));
    assert(role_among(roles_or_none(member_roles))(shown[i]));
}

} // verus!
