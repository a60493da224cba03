//! Listing the files of a volume: finding the volume, checking the user's
//! role, keeping the requested directory inside the volume's root, and
//! ordering the entries (directories first, then by lower-case name).
//!
//! The file-system work (canonicalizing paths, reading the directory) is
//! done by the caller between the steps below; each step takes what that
//! work produced and says what comes next.
use vstd::prelude::*;
use crate::text::{char_seq_lt, chars_eq, chars_lt, chars_of, string_of_range, lemma_char_seq_lt_irreflexive, lemma_char_seq_lt_prefix, lemma_char_seq_lt_total, lemma_char_seq_lt_transitive};
use crate::types::{BrowseResponse, DirEntry, EntryType, UtcTime};
use crate::volume::Volume;

verus! {

/// The lower-case form of a string, as std's `str::to_lowercase` computes it.
pub uninterp spec fn lowercase(s: Seq<char>) -> Seq<char>;

/// std's `str::to_lowercase`: the claim is only that the result is the
/// name `lowercase` applied to the argument's characters.
#[verifier::external_body]
fn to_lowercase(s: &str) -> (r: String)
    ensures
        r@ == lowercase(s@),
{
    s.to_lowercase()
}

pub open spec fn is_dir(e: DirEntry) -> bool {
    e.entry_type == EntryType::Directory
}

/// The name by which entries are ordered.
pub open spec fn name_key(e: DirEntry) -> Seq<char> {
    lowercase(e.name@)
}

/// `a` is listed before `b`: directories before files, and within each
/// kind by lower-case name.
pub open spec fn listed_before(a: DirEntry, b: DirEntry) -> bool {
    (is_dir(a) && !is_dir(b)) || (is_dir(a) == is_dir(b) && char_seq_lt(name_key(a), name_key(b)))
}

/// No entry of the sequence is listed before an earlier one.
pub open spec fn listing_ordered(s: Seq<DirEntry>) -> bool {
    forall|i: int, j: int| 0 <= i < j < s.len() ==> !listed_before(#[trigger] s[j], #[trigger] s[i])
}

/// The entries of `s` of one kind and lower-case name, in their order in `s`.
pub open spec fn of_rank(s: Seq<DirEntry>, dir: bool, key: Seq<char>) -> Seq<DirEntry> {
    s.filter(has_rank(dir, key))
}

/// Holds of the entries of the given kind and lower-case name.
pub open spec fn has_rank(dir: bool, key: Seq<char>) -> spec_fn(DirEntry) -> bool {
    |e: DirEntry| is_dir(e) == dir && name_key(e) == key
}

proof fn lemma_listed_before_strict(a: DirEntry, b: DirEntry)
    ensures
        listed_before(a, b) ==> !listed_before(b, a),
        listed_before(a, b) ==> !(is_dir(a) == is_dir(b) && name_key(a) == name_key(b)),
        !listed_before(a, b) && !listed_before(b, a) ==> is_dir(a) == is_dir(b) && name_key(a) == name_key(b),
{
    lemma_char_seq_lt_total(name_key(a), name_key(b));
    lemma_char_seq_lt_irreflexive(name_key(a));
}

proof fn lemma_listed_before_transitive(a: DirEntry, b: DirEntry, c: DirEntry)
    requires
        listed_before(a, b),
        listed_before(b, c),
    ensures
        listed_before(a, c),
{
    if is_dir(a) == is_dir(b) && is_dir(b) == is_dir(c) {
        lemma_char_seq_lt_transitive(name_key(a), name_key(b), name_key(c));
    }
}

/// `a` before `b`, and `c` not before `b`, puts `a` before `c`.
proof fn lemma_before_then_not_before(a: DirEntry, b: DirEntry, c: DirEntry)
    requires
        listed_before(a, b),
        !listed_before(c, b),
    ensures
        listed_before(a, c),
{
    lemma_listed_before_strict(b, c);
    if listed_before(b, c) {
        lemma_listed_before_transitive(a, b, c);
    } else {
        assert(is_dir(b) == is_dir(c) && name_key(b) == name_key(c));
    }
}

proof fn lemma_filter_insert(s: Seq<DirEntry>, p: int, x: DirEntry, pred: spec_fn(DirEntry) -> bool)
    requires
        0 <= p <= s.len(),
    ensures
        s.filter(pred) == s.take(p).filter(pred) + s.skip(p).filter(pred),
        s.insert(p, x).filter(pred) == s.take(p).filter(pred) + seq![x].filter(pred) + s.skip(p).filter(pred),
{
    assert(s =~= s.take(p) + s.skip(p));
    Seq::filter_distributes_over_add(s.take(p), s.skip(p), pred);
    assert(s.insert(p, x) =~= (s.take(p) + seq![x]) + s.skip(p));
    Seq::filter_distributes_over_add(s.take(p) + seq![x], s.skip(p), pred);
    Seq::filter_distributes_over_add(s.take(p), seq![x], pred);
}

proof fn lemma_filter_none(s: Seq<DirEntry>, pred: spec_fn(DirEntry) -> bool)
    requires
        forall|i: int| 0 <= i < s.len() ==> !pred(#[trigger] s[i]),
    ensures
        s.filter(pred) == Seq::<DirEntry>::empty(),
    decreases s.len(),
{
    reveal(Seq::filter);
    if s.len() > 0 {
        lemma_filter_none(s.drop_last(), pred);
        assert(!pred(s[s.len() - 1]));
    }
}

proof fn lemma_filter_single(x: DirEntry, pred: spec_fn(DirEntry) -> bool)
    ensures
        seq![x].filter(pred) == (if pred(x) { seq![x] } else { Seq::<DirEntry>::empty() }),
{
    reveal_with_fuel(Seq::filter, 2);
    assert(seq![x].drop_last() =~= Seq::<DirEntry>::empty());
}

/// Whether the entry with the given kind and lower-case name is listed
/// before `b`, whose lower-case name is `b_key`.
fn before(a_dir: bool, a_key: &Vec<char>, b: &DirEntry, b_key: &Vec<char>) -> (r: bool)
    requires
        b_key@ == name_key(*b),
    ensures
        r == ((a_dir && !is_dir(*b)) || (a_dir == is_dir(*b) && char_seq_lt(a_key@, name_key(*b)))),
{
    let b_dir = match b.entry_type {
        EntryType::Directory => true,
        EntryType::File => false,
    };
    (a_dir && !b_dir) || (a_dir == b_dir && chars_lt(a_key, b_key))
}

/// Orders a directory listing: directories first, then by lower-case name;
/// entries that agree on both keep their order (a stable sort).
pub fn sort_listing(entries: &Vec<DirEntry>) -> (r: Vec<DirEntry>)
    ensures
        listing_ordered(r@),
        forall|dir: bool, key: Seq<char>| #[trigger] of_rank(r@, dir, key) == of_rank(entries@, dir, key),
{
    let mut out: Vec<DirEntry> = Vec::new();
    let mut keys: Vec<Vec<char>> = Vec::new();
    let n = entries.len();
    let mut i: usize = 0;
    while i < n
        invariant
            n == entries.len(),
            i <= n,
            out.len() == keys.len(),
            forall|j: int| 0 <= j < keys.len() ==> (#[trigger] keys[j])@ == name_key(out[j]),
            listing_ordered(out@),
            forall|dir: bool, key: Seq<char>|
                #[trigger] of_rank(out@, dir, key) == of_rank(entries@.take(i as int), dir, key),
        decreases n - i,
    {
        let e = entries[i].clone();
        let lower = to_lowercase(e.name.as_str());
        let k = chars_of(lower.as_str());
        let d = match e.entry_type {
            EntryType::Directory => true,
            EntryType::File => false,
        };
        let mut p: usize = 0;
        while p < out.len() && !before(d, &k, &out[p], &keys[p])
            invariant
                p <= out.len(),
                out.len() == keys.len(),
                forall|j: int| 0 <= j < keys.len() ==> (#[trigger] keys[j])@ == name_key(out[j]),
                k@ == name_key(e),
                d == is_dir(e),
                forall|q: int| 0 <= q < p ==> !listed_before(e, #[trigger] out@[q]),
            decreases out.len() - p,
        {
            p = p + 1;
        }
        let ghost old_out = out@;
        let ghost stopped = p < out.len();
        proof {
            // every entry from p on comes after e
            assert forall|q: int| p <= q < old_out.len() implies listed_before(e, #[trigger] old_out[q]) by {
                assert(listed_before(e, old_out[p as int]));
                if q > p {
                    assert(!listed_before(old_out[q], old_out[p as int]));
                    lemma_before_then_not_before(e, old_out[p as int], old_out[q]);
                }
            }
        }
        out.insert(p, e);
        keys.insert(p, k);
        proof {
            let s = old_out;
            assert(out@ == s.insert(p as int, e));
            assert forall|a: int, b: int| 0 <= a < b < out@.len() implies !listed_before(
                #[trigger] out@[b],
                #[trigger] out@[a],
            ) by {
                if b < p {
                    assert(out@[a] == s[a] && out@[b] == s[b]);
                } else if b == p {
                    assert(out@[a] == s[a]);
                } else if a == p {
                    assert(out@[b] == s[b - 1]);
                    lemma_listed_before_strict(e, s[b - 1]);
                } else if a < p {
                    assert(out@[a] == s[a] && out@[b] == s[b - 1]);
                } else {
                    assert(out@[a] == s[a - 1] && out@[b] == s[b - 1]);
                }
            }
            assert forall|j: int| 0 <= j < keys.len() implies (#[trigger] keys[j])@ == name_key(out[j]) by {
                if j < p {
                } else if j == p {
                } else {
                    assert(keys[j] == keys@[j]);
                }
            }
            assert(entries@.take(i + 1) =~= entries@.take(i as int).push(e));
            assert forall|dir: bool, key: Seq<char>|
                #[trigger] of_rank(out@, dir, key) == of_rank(entries@.take(i + 1), dir, key) by {
                let pred = has_rank(dir, key);
                assert(of_rank(s, dir, key) == of_rank(entries@.take(i as int), dir, key));
                lemma_filter_insert(s, p as int, e, pred);
                lemma_filter_single(e, pred);
                entries@.take(i as int).lemma_filter_push(e, pred);
                if pred(e) {
                    assert forall|q: int| 0 <= q < s.skip(p as int).len() implies !pred(
                        #[trigger] s.skip(p as int)[q],
                    ) by {
                        assert(s.skip(p as int)[q] == s[p + q]);
                        lemma_listed_before_strict(e, s[p + q]);
                    }
                    lemma_filter_none(s.skip(p as int), pred);
                    assert(s.take(p as int).filter(pred) + seq![e] + Seq::<DirEntry>::empty()
                        =~= (s.take(p as int).filter(pred) + Seq::<DirEntry>::empty()).push(e));
                    assert(of_rank(out@, dir, key) == of_rank(s, dir, key).push(e));
                } else {
                    assert(s.take(p as int).filter(pred) + Seq::<DirEntry>::empty() + s.skip(p as int).filter(pred)
                        =~= s.take(p as int).filter(pred) + s.skip(p as int).filter(pred));
                }
            }
        }
        i = i + 1;
    }
    assert(entries@.take(n as int) =~= entries@);
    out
}

/// The first volume with the given id.
pub open spec fn first_volume(s: Seq<Volume>, volume_id: u64) -> Option<Volume>
    decreases s.len(),
{
    if s.len() == 0 {
        None
    } else if s[0].id == volume_id {
        Some(s[0])
    } else {
        first_volume(s.drop_first(), volume_id)
    }
}

/// `r` is the browse error that carries the message `msg`.
pub open spec fn is_browse_error(r: BrowseResponse, msg: Seq<char>) -> bool {
    r matches BrowseResponse::Error { message } && message@ == msg
}

/// A browse error with the given message.
fn browse_error(msg: &str) -> (r: BrowseResponse)
    ensures
        is_browse_error(r, msg@),
{
    BrowseResponse::Error { message: String::from_str(msg) }
}

/// Looks up the volume to list; an unknown id is answered with
/// "Volume not found".
pub fn select_volume(volumes: &Vec<Volume>, volume_id: u64) -> (r: Result<Volume, BrowseResponse>)
    ensures
        first_volume(volumes@, volume_id) matches Some(v) ==> r == Ok::<Volume, BrowseResponse>(v),
        first_volume(volumes@, volume_id) is None ==> (r matches Err(e) && is_browse_error(e, "Volume not found"@)),
{
    let mut i: usize = 0;
    assert(volumes@.skip(0) =~= volumes@);
    while i < volumes.len()
        invariant
            i <= volumes.len(),
            first_volume(volumes@, volume_id) == first_volume(volumes@.skip(i as int), volume_id),
        decreases volumes.len() - i,
    {
        if volumes[i].id == volume_id {
            return Ok(volumes[i].clone());
        }
        assert(volumes@.skip(i as int).drop_first() =~= volumes@.skip(i + 1));
        i = i + 1;
    }
    Err(browse_error("Volume not found"))
}

/// A member may browse a volume when the member's roles could be fetched
/// and include the volume's role.
pub open spec fn may_browse(member_roles: Option<Vec<u64>>, volume: Volume) -> bool {
    member_roles matches Some(roles) && roles@.contains(volume.role_id)
}

/// Whether a list of role ids holds the given role.
pub fn has_role(roles: &Vec<u64>, role_id: u64) -> (r: bool)
    ensures
        r == roles@.contains(role_id),
{
    let mut i: usize = 0;
    while i < roles.len()
        invariant
            i <= roles.len(),
            forall|j: int| 0 <= j < i ==> roles@[j] != role_id,
        decreases roles.len() - i,
    {
        if roles[i] == role_id {
            assert(roles@[i as int] == role_id);
            return true;
        }
        i = i + 1;
    }
    false
}

/// Checks the member's roles against the volume's role; `member_roles` is
/// `None` when they could not be fetched. A refusal is "Access denied".
pub fn check_access(member_roles: &Option<Vec<u64>>, volume: &Volume) -> (r: Result<(), BrowseResponse>)
    ensures
        may_browse(*member_roles, *volume) ==> r is Ok,
        !may_browse(*member_roles, *volume) ==> (r matches Err(e) && is_browse_error(e, "Access denied"@)),
{
    let allowed = match member_roles {
        Some(roles) => has_role(roles, volume.role_id),
        None => false,
    };
    if allowed {
        Ok(())
    } else {
        Err(browse_error("Access denied"))
    }
}

/// The canonical root of the volume; `None` (the directory could not be
/// resolved) is answered with "Volume directory does not exist".
pub fn check_root(root: Option<String>) -> (r: Result<String, BrowseResponse>)
    ensures
        root matches Some(p) ==> r == Ok::<String, BrowseResponse>(p),
        root is None ==> (r matches Err(e) && is_browse_error(e, "Volume directory does not exist"@)),
{
    match root {
        Some(p) => Ok(p),
        None => Err(browse_error("Volume directory does not exist")),
    }
}

/// The number of '/' characters at the start of `s`.
pub open spec fn leading_slashes(s: Seq<char>) -> nat
    decreases s.len(),
{
    if s.len() > 0 && s[0] == '/' {
        1 + leading_slashes(s.drop_first())
    } else {
        0
    }
}

/// The requested path with every leading '/' removed, so that it names a
/// place below the volume's root.
pub fn relative_sub_path(sub_path: &str) -> (r: String)
    ensures
        r@ == sub_path@.skip(leading_slashes(sub_path@) as int),
{
    let cs = chars_of(sub_path);
    let mut i: usize = 0;
    assert(cs@.skip(0) =~= cs@);
    while i < cs.len() && cs[i] == '/'
        invariant
            i <= cs.len(),
            i + leading_slashes(cs@.skip(i as int)) == leading_slashes(cs@),
        decreases cs.len() - i,
    {
        assert(cs@.skip(i as int).drop_first() =~= cs@.skip(i + 1));
        i = i + 1;
    }
    string_of_range(&cs, i, cs.len())
}

/// `target` is `root` itself or lies below it. Both are canonical paths
/// (absolute, no `.` or `..` components, no repeated or trailing
/// separator), for which this is the component-wise prefix test.
pub open spec fn path_within(root: Seq<char>, target: Seq<char>) -> bool {
    target == root || (root.len() < target.len() && target.take(root.len() as int) == root && (
    (root.len() > 0 && root.last() == '/') || target[root.len() as int] == '/'))
}

/// Decides whether the canonical `target` lies inside the canonical `root`.
pub fn is_within(root: &str, target: &str) -> (r: bool)
    ensures
        r == path_within(root@, target@),
{
    let rc = chars_of(root);
    let tc = chars_of(target);
    if chars_eq(&rc, &tc) {
        return true;
    }
    if rc.len() >= tc.len() {
        return false;
    }
    let prefix = string_of_range(&tc, 0, rc.len());
    let pc = chars_of(prefix.as_str());
    if !chars_eq(&pc, &rc) {
        assert(tc@.take(rc@.len() as int) =~= tc@.subrange(0, rc@.len() as int));
        return false;
    }
    assert(tc@.take(rc@.len() as int) =~= tc@.subrange(0, rc@.len() as int));
    (rc.len() > 0 && rc[rc.len() - 1] == '/') || tc[rc.len()] == '/'
}

/// Checks the canonical target directory: `None` (it could not be
/// resolved) is "Directory not found", and one outside the volume's root is
/// "Access denied".
pub fn check_target(root: &str, target: Option<String>) -> (r: Result<String, BrowseResponse>)
    ensures
        target is None ==> (r matches Err(e) && is_browse_error(e, "Directory not found"@)),
        target matches Some(t) ==> (path_within(root@, t@) ==> r == Ok::<String, BrowseResponse>(t)),
        target matches Some(t) ==> (!path_within(root@, t@) ==> (r matches Err(e) && is_browse_error(e, "Access denied"@))),
{
    match target {
        None => Err(browse_error("Directory not found")),
        Some(t) => {
            if is_within(root, t.as_str()) {
                Ok(t)
            } else {
                Err(browse_error("Access denied"))
            }
        },
    }
}

/// A target that is not a directory is answered with "Not a directory".
pub fn check_is_dir(is_directory: bool) -> (r: Result<(), BrowseResponse>)
    ensures
        is_directory ==> r is Ok,
        !is_directory ==> (r matches Err(e) && is_browse_error(e, "Not a directory"@)),
{
    if is_directory {
        Ok(())
    } else {
        Err(browse_error("Not a directory"))
    }
}

/// What the file system tells about one directory entry.
#[derive(Clone, Copy, Debug, PartialEq, Eq)]
pub struct EntryMetadata {
    pub is_dir: bool,
    pub len: u64,
    pub created: Option<UtcTime>,
    pub modified: Option<UtcTime>,
}

/// The listing entry for a name and its metadata, if the metadata could be
/// read: without it the entry is a file of size 0 with no times.
pub fn make_dir_entry(name: String, metadata: Option<EntryMetadata>) -> (r: DirEntry)
    ensures
        r.name == name,
        r.entry_type == (if metadata matches Some(m) && m.is_dir { EntryType::Directory } else { EntryType::File }),
        r.size == (match metadata { Some(m) => m.len, None => 0 }),
        r.created_at == (match metadata { Some(m) => m.created, None => None }),
        r.updated_at == (match metadata { Some(m) => m.modified, None => None }),
{
    match metadata {
        Some(m) => DirEntry {
            name,
            entry_type: if m.is_dir { EntryType::Directory } else { EntryType::File },
            size: m.len,
            created_at: m.created,
            updated_at: m.modified,
        },
        None => DirEntry { name, entry_type: EntryType::File, size: 0, created_at: None, updated_at: None },
    }
}

/// `r` answers a listing whose read gave `read`: the error "Failed to read
/// directory: " and the reason, or the entries in listing order (the same
/// entries of each rank, in the order they were read).
pub open spec fn listing_answer(read: Result<Vec<DirEntry>, String>, r: BrowseResponse) -> bool {
    &&& (read matches Err(e) ==> is_browse_error(r, "Failed to read directory: "@ + e@))
    &&& (read matches Ok(entries) ==> (r matches BrowseResponse::DirectoryListing { entries: out }
        && listing_ordered(out@)
        && forall|dir: bool, key: Seq<char>| #[trigger] of_rank(out@, dir, key) == of_rank(entries@, dir, key)))
}

/// The answer to a listing: the entries in listing order, or, when the
/// directory could not be read, "Failed to read directory: " and the reason.
pub fn listing_response(read: Result<Vec<DirEntry>, String>) -> (r: BrowseResponse)
    ensures
        listing_answer(read, r),
{
    match read {
        Err(e) => {
            let mut message = String::from_str("Failed to read directory: ");
            message.append(e.as_str());
            BrowseResponse::Error { message }
        },
        Ok(entries) => BrowseResponse::DirectoryListing { entries: sort_listing(&entries) },
    }
}

/// In an ordered listing, of two entries of the same kind whose lower-case
/// names are such that one is a proper prefix of the other, the shorter
/// name comes first (a listing shows "notes" before "notes.txt").
pub proof fn lemma_prefix_name_listed_first(s: Seq<DirEntry>, i: int, j: int)
    requires
        listing_ordered(s),
        0 <= i < s.len(),
        0 <= j < s.len(),
        is_dir(s[i]) == is_dir(s[j]),
        name_key(s[i]).len() < name_key(s[j]).len(),
        name_key(s[j]).take(name_key(s[i]).len() as int) == name_key(s[i]),
    ensures
        i < j,
{
    lemma_char_seq_lt_prefix(name_key(s[i]), name_key(s[j]));
    assert(listed_before(s[i], s[j]));
    if j < i {
        assert(!listed_before(s[i], s[j]));
    }
}

/// In an ordered listing, every directory comes before every file.
pub proof fn lemma_directories_first(s: Seq<DirEntry>, i: int, j: int)
    requires
        listing_ordered(s),
        0 <= i < s.len(),
        0 <= j < s.len(),
        is_dir(s[i]),
        !is_dir(s[j]),
    ensures
        i < j,
{
    assert(listed_before(s[i], s[j]));
    if j < i {
        assert(!listed_before(s[i], s[j]));
    }
}

// --- The listing, step by step ---

/// What a listing waits for, once the volume has been found.
#[derive(Debug, PartialEq, Eq)]
pub enum ListingWait {
    /// The roles of the member who asks (`None` if they could not be fetched).
    MemberRoles { volume: Volume, relative: String },
    /// The canonical form of the volume's directory (`None` if it cannot be
    /// resolved).
    Root { volume_path: String, relative: String },
    /// The canonical form of `relative` joined onto the canonical `root`
    /// (`None` if it cannot be resolved).
    Target { root: String, relative: String },
    /// Whether the target is a directory.
    IsDir { target: String },
    /// The entries of the target directory, or why they could not be read.
    Entries { target: String },
}

/// What the caller found out for a listing.
#[derive(Debug, PartialEq, Eq)]
pub enum ListingAnswer {
    Roles(Option<Vec<u64>>),
    Canonical(Option<String>),
    IsDirectory(bool),
    Read(Result<Vec<DirEntry>, String>),
}

/// The next move of a listing: wait for something more, or send the one
/// reply.
#[derive(Debug, PartialEq, Eq)]
pub enum ListingStep {
    Wait(ListingWait),
    Reply(BrowseResponse),
}

/// How far a listing has come; every step goes further, so a listing ends
/// with its reply after at most five waits.
pub open spec fn stage(w: ListingWait) -> nat {
    match w {
        ListingWait::MemberRoles { .. } => 0,
        ListingWait::Root { .. } => 1,
        ListingWait::Target { .. } => 2,
        ListingWait::IsDir { .. } => 3,
        ListingWait::Entries { .. } => 4,
    }
}

/// `a` is the kind of answer that `w` waits for.
pub open spec fn answers(w: ListingWait, a: ListingAnswer) -> bool {
    match w {
        ListingWait::MemberRoles { .. } => a is Roles,
        ListingWait::Root { .. } => a is Canonical,
        ListingWait::Target { .. } => a is Canonical,
        ListingWait::IsDir { .. } => a is IsDirectory,
        ListingWait::Entries { .. } => a is Read,
    }
}

/// `r` replies with the browse error carrying `msg`.
pub open spec fn replies_error(r: ListingStep, msg: Seq<char>) -> bool {
    r matches ListingStep::Reply(e) && is_browse_error(e, msg)
}

/// The listing of `sub_path` on volume `volume_id` begins: an unknown
/// volume is answered with "Volume not found" at once; otherwise the
/// member's roles are needed, and the path is taken relative to the root.
pub open spec fn listing_started(volumes: Seq<Volume>, volume_id: u64, sub_path: Seq<char>, r: ListingStep) -> bool {
    match first_volume(volumes, volume_id) {
        None => replies_error(r, "Volume not found"@),
        Some(v) => r matches ListingStep::Wait(ListingWait::MemberRoles { volume, relative })
            && volume == v && relative@ == sub_path.skip(leading_slashes(sub_path) as int),
    }
}

/// What follows an answer, in the order of the checks: the role check
/// comes before anything is asked of the file system ("Access denied"),
/// then the volume's directory ("Volume directory does not exist"), the
/// requested directory ("Directory not found", or "Access denied" when it
/// lies outside the volume), that it is a directory ("Not a directory"),
/// and the read, whose outcome is the reply.
pub open spec fn listing_continued(w: ListingWait, a: ListingAnswer, r: ListingStep) -> bool {
    match w {
        ListingWait::MemberRoles { volume, relative } => a matches ListingAnswer::Roles(roles) && if may_browse(roles, volume) {
            r == ListingStep::Wait(ListingWait::Root { volume_path: volume.path, relative })
        } else {
            replies_error(r, "Access denied"@)
        },
        ListingWait::Root { volume_path, relative } => a matches ListingAnswer::Canonical(c) && match c {
            Some(root) => r == ListingStep::Wait(ListingWait::Target { root, relative }),
            None => replies_error(r, "Volume directory does not exist"@),
        },
        ListingWait::Target { root, relative } => a matches ListingAnswer::Canonical(c) && match c {
            Some(t) => if path_within(root@, t@) {
                r == ListingStep::Wait(ListingWait::IsDir { target: t })
            } else {
                replies_error(r, "Access denied"@)
            },
            None => replies_error(r, "Directory not found"@),
        },
        ListingWait::IsDir { target } => a matches ListingAnswer::IsDirectory(d) && if d {
            r == ListingStep::Wait(ListingWait::Entries { target })
        } else {
            replies_error(r, "Not a directory"@)
        },
        ListingWait::Entries { target } => a matches ListingAnswer::Read(read)
            && r matches ListingStep::Reply(resp) && listing_answer(read, resp),
    }
}

/// Begins the listing of `sub_path` on volume `volume_id`.
pub fn start_listing(volumes: &Vec<Volume>, volume_id: u64, sub_path: &str) -> (r: ListingStep)
    ensures
        listing_started(volumes@, volume_id, sub_path@, r),
{
    match select_volume(volumes, volume_id) {
        Err(e) => ListingStep::Reply(e),
        Ok(volume) => ListingStep::Wait(ListingWait::MemberRoles { volume, relative: relative_sub_path(sub_path) }),
    }
}

/// Takes the answer to what the listing waited for and says what comes
/// next; the listing only ever moves forward.
pub fn continue_listing(wait: ListingWait, answer: ListingAnswer) -> (r: ListingStep)
    requires
        answers(wait, answer),
    ensures
        listing_continued(wait, answer, r),
        r matches ListingStep::Wait(next) ==> stage(next) > stage(wait),
{
    match wait {
        ListingWait::MemberRoles { volume, relative } => {
            let roles = match answer {
                ListingAnswer::Roles(roles) => roles,
                _ => None,
            };
            match check_access(&roles, &volume) {
                Ok(()) => ListingStep::Wait(ListingWait::Root { volume_path: volume.path, relative }),
                Err(e) => ListingStep::Reply(e),
            }
        },
        ListingWait::Root { volume_path, relative } => {
            let c = match answer {
                ListingAnswer::Canonical(c) => c,
                _ => None,
            };
            match check_root(c) {
                Ok(root) => ListingStep::Wait(ListingWait::Target { root, relative }),
                Err(e) => ListingStep::Reply(e),
            }
        },
        ListingWait::Target { root, relative } => {
            let c = match answer {
                ListingAnswer::Canonical(c) => c,
                _ => None,
            };
            match check_target(root.as_str(), c) {
                Ok(target) => ListingStep::Wait(ListingWait::IsDir { target }),
                Err(e) => ListingStep::Reply(e),
            }
        },
        ListingWait::IsDir { target } => {
            let d = match answer {
                ListingAnswer::IsDirectory(d) => d,
                _ => false,
            };
            match check_is_dir(d) {
                Ok(()) => ListingStep::Wait(ListingWait::Entries { target }),
                Err(e) => ListingStep::Reply(e),
            }
        },
        ListingWait::Entries { target } => {
            let read = match answer {
                ListingAnswer::Read(read) => read,
                _ => Err(String::new()),
            };
            ListingStep::Reply(listing_response(read))
        },
    }
}

} // verus!
