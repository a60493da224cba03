//! The persistent key-value stores (sled databases) and the byte encodings
//! of their keys.
//!
//! Each store owns its database handle and changes it only through `&mut`
//! methods, so what the handle holds is a value that the contracts below
//! can follow from call to call.
use vstd::prelude::*;

verus! {

#[verifier::external_type_specification]
#[verifier::external_body]
pub struct ExDb(sled::Db);

#[verifier::external_type_specification]
#[verifier::external_body]
pub struct ExSledError(sled::Error);

/// What a sled database holds: its keys and values, as bytes.
pub uninterp spec fn db_contents(db: sled::Db) -> Map<Seq<u8>, Seq<u8>>;

/// The identifiers that a sled database has given out through
/// `generate_id`, over its whole life.
pub uninterp spec fn issued_ids(db: sled::Db) -> Set<u64>;

/// Why a store operation failed.
#[derive(Debug, PartialEq, Eq)]
pub enum StorageError {
    /// The database reported an error.
    Database,
    /// Every key drawn was already in use.
    NoFreeKey,
}

pub(crate) fn database_error(_e: sled::Error) -> (r: StorageError)
    ensures
        r == StorageError::Database,
{
    StorageError::Database
}

/// sled's `open`: opens (or creates) the database at `path`. What it holds
/// is whatever is on disk, so nothing is claimed of its contents.
#[verifier::external_body]
pub(crate) fn db_open(path: &str) -> (r: Result<sled::Db, sled::Error>) {
    sled::open(path)
}

/// sled's `Tree::get`: on success, the value stored under `key`, or `None`
/// when there is none.
#[verifier::external_body]
pub(crate) fn db_get(db: &sled::Db, key: &[u8]) -> (r: Result<Option<Vec<u8>>, sled::Error>)
    ensures
        r matches Ok(v) ==> (match v {
            Some(b) => db_contents(*db).contains_key(key@) && db_contents(*db)[key@] == b@,
            None => !db_contents(*db).contains_key(key@),
        }),
{
    match db.get(key) {
        Ok(v) => Ok(v.map(|b| b.to_vec())),
        Err(e) => Err(e),
    }
}

/// sled's `Tree::contains_key`: on success, whether `key` has a value.
#[verifier::external_body]
pub(crate) fn db_contains_key(db: &sled::Db, key: &[u8]) -> (r: Result<bool, sled::Error>)
    ensures
        r matches Ok(b) ==> b == db_contents(*db).contains_key(key@),
{
    db.contains_key(key)
}

/// sled's `Tree::insert`: on success the database maps `key` to `value`
/// and is otherwise unchanged. After a failure nothing is claimed of what
/// it holds. It gives out no identifier.
#[verifier::external_body]
pub(crate) fn db_insert(db: &mut sled::Db, key: &[u8], value: &[u8]) -> (r: Result<(), sled::Error>)
    ensures
        r is Ok ==> db_contents(*final(db)) == db_contents(*old(db)).insert(key@, value@),
        issued_ids(*final(db)) == issued_ids(*old(db)),
{
    match db.insert(key, value) {
        Ok(_) => Ok(()),
        Err(e) => Err(e),
    }
}

/// sled's `Tree::remove`: on success `key` has no value any more, and the
/// result is the value it had, if any. After a failure nothing is claimed
/// of what the database holds. It gives out no identifier.
#[verifier::external_body]
pub(crate) fn db_remove(db: &mut sled::Db, key: &[u8]) -> (r: Result<Option<Vec<u8>>, sled::Error>)
    ensures
        r matches Ok(v) ==> (match v {
            Some(b) => db_contents(*old(db)).contains_key(key@) && db_contents(*old(db))[key@] == b@,
            None => !db_contents(*old(db)).contains_key(key@),
        }) && db_contents(*final(db)) == db_contents(*old(db)).remove(key@),
        issued_ids(*final(db)) == issued_ids(*old(db)),
{
    match db.remove(key) {
        Ok(v) => Ok(v.map(|b| b.to_vec())),
        Err(e) => Err(e),
    }
}

/// sled's `Db::generate_id`: an identifier that this database has never
/// given out before (sled persists its counter so that it never gives out
/// the same one twice, across restarts too). It does not change the keys
/// and values. After a failure the identifiers given out may have grown,
/// but none is forgotten.
#[verifier::external_body]
pub(crate) fn db_generate_id(db: &mut sled::Db) -> (r: Result<u64, sled::Error>)
    ensures
        db_contents(*final(db)) == db_contents(*old(db)),
        r matches Ok(id) ==> !issued_ids(*old(db)).contains(id)
            && issued_ids(*final(db)) == issued_ids(*old(db)).insert(id),
        r is Err ==> issued_ids(*old(db)).subset_of(issued_ids(*final(db))),
{
    db.generate_id()
}

/// Lexicographic order on byte strings, the order of sled's keys.
pub open spec fn bytes_lt(a: Seq<u8>, b: Seq<u8>) -> bool
    decreases a.len(),
{
    if a.len() == 0 {
        b.len() > 0
    } else if b.len() == 0 {
        false
    } else if a[0] != b[0] {
        a[0] < b[0]
    } else {
        bytes_lt(a.drop_first(), b.drop_first())
    }
}

/// sled's `Tree::iter`, collected: the entries come in ascending key order; every entry that could be read is a key
/// of the database with its value; when none failed, every key of the
/// database is among them.
#[verifier::external_body]
pub(crate) fn db_entries(db: &sled::Db) -> (r: Vec<Result<(Vec<u8>, Vec<u8>), sled::Error>>)
    ensures
        forall|i: int| 0 <= i < r@.len() ==> (#[trigger] r@[i] matches Ok(kv)
            ==> db_contents(*db).contains_key(kv.0@) && db_contents(*db)[kv.0@] == kv.1@),
        (forall|i: int| 0 <= i < r@.len() ==> (#[trigger] r@[i]) is Ok) ==> forall|k: Seq<u8>|
            #[trigger] db_contents(*db).contains_key(k) ==> exists|i: int| 0 <= i < r@.len() && (#[trigger] r@[i] matches Ok(kv) && kv.0@ == k),
        forall|i: int, j: int| 0 <= i < j < r@.len() ==> (#[trigger] r@[i] matches Ok(a) ==> (#[trigger] r@[j] matches Ok(b)
            ==> bytes_lt(a.0@, b.0@))),
{
    db.iter().map(|e| e.map(|(k, v)| (k.to_vec(), v.to_vec()))).collect()
}

/// Some key of `m` has the value `v`.
pub open spec fn holds_value(m: Map<Seq<u8>, Seq<u8>>, v: Seq<u8>) -> bool {
    exists|k: Seq<u8>| #[trigger] m.contains_key(k) && m[k] == v
}

/// `v` is the view of one of the byte vectors of `s`.
pub open spec fn appears(s: Seq<Vec<u8>>, v: Seq<u8>) -> bool {
    exists|t: int| 0 <= t < s.len() && (#[trigger] s[t])@ == v
}

/// The values of the entries that could be read, in order.
pub open spec fn ok_values(s: Seq<Result<(Vec<u8>, Vec<u8>), sled::Error>>) -> Seq<Seq<u8>>
    decreases s.len(),
{
    if s.len() == 0 {
        Seq::empty()
    } else {
        match s.last() {
            Ok(kv) => ok_values(s.drop_last()).push(kv.1@),
            Err(_) => ok_values(s.drop_last()),
        }
    }
}

/// Every entry could be read.
pub open spec fn all_read(s: Seq<Result<(Vec<u8>, Vec<u8>), sled::Error>>) -> bool {
    forall|i: int| 0 <= i < s.len() ==> (#[trigger] s[i]) is Ok
}

/// The values of the entries that could be read, in order, and whether
/// every entry could be read.
/// The third part tells, for each value, the position of its entry: the
/// positions increase.
pub(crate) fn values_of(entries: &Vec<Result<(Vec<u8>, Vec<u8>), sled::Error>>) -> (r: (Vec<Vec<u8>>, bool, Ghost<Seq<int>>))
    ensures
        r.0@.map_values(|v: Vec<u8>| v@) == ok_values(entries@),
        r.1 == all_read(entries@),
        r.2@.len() == r.0@.len(),
        forall|j: int| 0 <= j < r.0@.len() ==> 0 <= #[trigger] r.2@[j] < entries@.len()
            && (entries@[r.2@[j]] matches Ok(kv) && kv.1@ == r.0@[j]@),
        forall|a: int, b: int| 0 <= a < b < r.0@.len() ==> #[trigger] r.2@[a] < #[trigger] r.2@[b],
        forall|i: int| 0 <= i < entries@.len() ==> (#[trigger] entries@[i] matches Ok(kv) ==> appears(r.0@, kv.1@)),
{
    let mut out: Vec<Vec<u8>> = Vec::new();
    let mut complete = true;
    let mut i: usize = 0;
    let ghost mut idx: Seq<int> = Seq::empty();
    assert(entries@.take(0) =~= Seq::<Result<(Vec<u8>, Vec<u8>), sled::Error>>::empty());
    assert(out@.map_values(|v: Vec<u8>| v@) =~= Seq::<Seq<u8>>::empty());
    while i < entries.len()
        invariant
            i <= entries.len(),
            out@.map_values(|v: Vec<u8>| v@) == ok_values(entries@.take(i as int)),
            complete == all_read(entries@.take(i as int)),
            idx.len() == out@.len(),
            forall|j: int| 0 <= j < out@.len() ==> 0 <= #[trigger] idx[j] < i
                && (entries@[idx[j]] matches Ok(kv) && kv.1@ == out@[j]@),
            forall|a: int, b: int| 0 <= a < b < out@.len() ==> #[trigger] idx[a] < #[trigger] idx[b],
            forall|k: int| 0 <= k < i ==> (#[trigger] entries@[k] matches Ok(kv) ==> appears(out@, kv.1@)),
        decreases entries.len() - i,
    {
        let ghost before = out@;
        let ghost pre = entries@.take(i as int);
        let ghost next = entries@.take(i + 1);
        assert(next.drop_last() =~= pre);
        assert(next.last() == entries@[i as int]);
        match &entries[i] {
            Ok(kv) => {
                let v = kv.1.clone();
                assert(v@ =~= kv.1@);
                out.push(v);
                assert(out@.map_values(|v: Vec<u8>| v@) =~= before.map_values(|v: Vec<u8>| v@).push(kv.1@));
                proof {
                    let ib = idx;
                    idx = idx.push(i as int);
                    assert forall|j: int| 0 <= j < out@.len() implies 0 <= #[trigger] idx[j] < i + 1
                        && (entries@[idx[j]] matches Ok(kv) && kv.1@ == out@[j]@) by {
                        if j < before.len() {
                            assert(out@[j] == before[j]);
                            assert(idx[j] == ib[j]);
                        } else {
                            assert(entries@[i as int] matches Ok(e) && e.1@ == out@[j]@);
                        }
                    }
                    assert forall|a: int, b: int| 0 <= a < b < out@.len() implies #[trigger] idx[a] < #[trigger] idx[b] by {
                        assert(idx[a] == ib[a]);
                        if b < before.len() {
                            assert(idx[b] == ib[b]);
                        }
                    }
                }
                assert(out@[out@.len() - 1]@ == kv.1@);
            },
            Err(_) => {
                complete = false;
            },
        }
        assert(complete == all_read(next)) by {
            if !all_read(next) && all_read(pre) {
                assert forall|k: int| 0 <= k < pre.len() implies (#[trigger] pre[k]) is Ok by {
                    assert(pre[k] == next[k]);
                }
            }
            if all_read(next) {
                assert(next[i as int] is Ok);
                assert forall|k: int| 0 <= k < pre.len() implies (#[trigger] pre[k]) is Ok by {
                    assert(pre[k] == next[k]);
                }
            }
            if all_read(pre) && entries@[i as int] is Ok {
                assert forall|k: int| 0 <= k < next.len() implies (#[trigger] next[k]) is Ok by {
                    if k < i {
                        assert(pre[k] == next[k]);
                    }
                }
            }
        }
        assert forall|k: int| 0 <= k < i + 1 implies (#[trigger] entries@[k] matches Ok(kv) ==> appears(out@, kv.1@)) by {
            match entries@[k] {
                Ok(kv) => {
                    if k < i {
                        assert(appears(before, kv.1@));
                        let t = choose|t: int| 0 <= t < before.len() && (#[trigger] before[t])@ == kv.1@;
                        assert(out@[t] == before[t]);
                    } else {
                        assert(out@[out@.len() - 1]@ == kv.1@);
                    }
                },
                Err(_) => {},
            }
        }
        i = i + 1;
    }
    assert(entries@.take(entries@.len() as int) =~= entries@);
    (out, complete, Ghost(idx))
}

/// The values of the keys `ks`, in order, are `vs`, and the keys are in
/// ascending order.
pub open spec fn values_in_key_order(m: Map<Seq<u8>, Seq<u8>>, vs: Seq<Vec<u8>>, ks: Seq<Seq<u8>>) -> bool {
    &&& ks.len() == vs.len()
    &&& forall|j: int| 0 <= j < ks.len() ==> m.contains_key(#[trigger] ks[j]) && m[ks[j]] == vs[j]@
    &&& forall|a: int, b: int| 0 <= a < b < ks.len() ==> bytes_lt(#[trigger] ks[a], #[trigger] ks[b])
}

/// The values that could be read, in ascending key order, and whether
/// every entry could be read. Each value is the value of some key of the
/// database, and when every entry could be read, every key's value is
/// among them.
pub(crate) fn readable_values(db: &sled::Db) -> (r: (Vec<Vec<u8>>, bool))
    ensures
        forall|i: int| 0 <= i < r.0@.len() ==> holds_value(db_contents(*db), #[trigger] r.0@[i]@),
        exists|ks: Seq<Seq<u8>>| #[trigger] values_in_key_order(db_contents(*db), r.0@, ks),
        r.1 ==> forall|k: Seq<u8>| #[trigger] db_contents(*db).contains_key(k) ==> appears(r.0@, db_contents(*db)[k]),
{
    let entries = db_entries(db);
    let (values, complete, Ghost(idx)) = values_of(&entries);
    let ghost ks = Seq::new(values@.len(), |j: int| match entries@[idx[j]] { Ok(kv) => kv.0@, Err(_) => Seq::empty() });
    proof {
        assert forall|j: int| 0 <= j < ks.len() implies db_contents(*db).contains_key(#[trigger] ks[j])
            && db_contents(*db)[ks[j]] == values@[j]@ by {
            let i = idx[j];
            match entries@[i] {
                Ok(kv) => {},
                Err(_) => {},
            }
        }
        assert forall|a: int, b: int| 0 <= a < b < ks.len() implies bytes_lt(#[trigger] ks[a], #[trigger] ks[b]) by {
            let ia = idx[a];
            let ib = idx[b];
            assert(ia < ib);
            match entries@[ia] {
                Ok(x) => match entries@[ib] {
                    Ok(y) => {},
                    Err(_) => {},
                },
                Err(_) => {},
            }
        }
        assert(values_in_key_order(db_contents(*db), values@, ks));
        assert forall|j: int| 0 <= j < values@.len() implies holds_value(db_contents(*db), #[trigger] values@[j]@) by {
            assert(db_contents(*db).contains_key(ks[j]) && db_contents(*db)[ks[j]] == values@[j]@);
        }
        if complete {
            assert forall|k: Seq<u8>| #[trigger] db_contents(*db).contains_key(k) implies appears(values@, db_contents(*db)[k]) by {
                assert forall|i: int| 0 <= i < entries@.len() implies (#[trigger] entries@[i]) is Ok by {
                    assert(all_read(entries@));
                }
                let j = choose|j: int| 0 <= j < entries@.len() && (#[trigger] entries@[j] matches Ok(kv) && kv.0@ == k);
                match entries@[j] {
                    Ok(kv) => {
                        assert(appears(values@, kv.1@));
                    },
                    Err(_) => {},
                }
            }
        }
    }
    let r = (values, complete);
    assert(values_in_key_order(db_contents(*db), r.0@, ks));
    r
}

/// The big-endian bytes of a number, as `u64::to_be_bytes` writes them.
pub open spec fn be_bytes(n: u64) -> Seq<u8> {
    seq![
        (n >> 56u64) as u8,
        ((n >> 48u64) & 0xffu64) as u8,
        ((n >> 40u64) & 0xffu64) as u8,
        ((n >> 32u64) & 0xffu64) as u8,
        ((n >> 24u64) & 0xffu64) as u8,
        ((n >> 16u64) & 0xffu64) as u8,
        ((n >> 8u64) & 0xffu64) as u8,
        (n & 0xffu64) as u8,
    ]
}

/// The number whose big-endian bytes are `b` (eight of them), as
/// `u64::from_be_bytes` reads them.
pub open spec fn from_be(b: Seq<u8>) -> u64 {
    ((b[0] as u64) << 56u64) | ((b[1] as u64) << 48u64) | ((b[2] as u64) << 40u64) | ((b[3] as u64) << 32u64)
        | ((b[4] as u64) << 24u64) | ((b[5] as u64) << 16u64) | ((b[6] as u64) << 8u64) | (b[7] as u64)
}

/// Reading back the bytes of a number gives the number.
pub proof fn lemma_be_round_trip(n: u64)
    ensures
        be_bytes(n).len() == 8,
        from_be(be_bytes(n)) == n,
{
    let b0 = (n >> 56u64) as u8;
    let b1 = ((n >> 48u64) & 0xffu64) as u8;
    let b2 = ((n >> 40u64) & 0xffu64) as u8;
    let b3 = ((n >> 32u64) & 0xffu64) as u8;
    let b4 = ((n >> 24u64) & 0xffu64) as u8;
    let b5 = ((n >> 16u64) & 0xffu64) as u8;
    let b6 = ((n >> 8u64) & 0xffu64) as u8;
    let b7 = (n & 0xffu64) as u8;
    assert(((b0 as u64) << 56u64) | ((b1 as u64) << 48u64) | ((b2 as u64) << 40u64) | ((b3 as u64) << 32u64)
        | ((b4 as u64) << 24u64) | ((b5 as u64) << 16u64) | ((b6 as u64) << 8u64) | (b7 as u64) == n) by (bit_vector)
        requires
            b0 == (n >> 56u64) as u8,
            b1 == ((n >> 48u64) & 0xffu64) as u8,
            b2 == ((n >> 40u64) & 0xffu64) as u8,
            b3 == ((n >> 32u64) & 0xffu64) as u8,
            b4 == ((n >> 24u64) & 0xffu64) as u8,
            b5 == ((n >> 16u64) & 0xffu64) as u8,
            b6 == ((n >> 8u64) & 0xffu64) as u8,
            b7 == (n & 0xffu64) as u8,
    ;
}

/// Different numbers have different bytes.
pub proof fn lemma_be_injective(a: u64, b: u64)
    ensures
        be_bytes(a) == be_bytes(b) ==> a == b,
{
    lemma_be_round_trip(a);
    lemma_be_round_trip(b);
}

/// Lexicographic order on two runs of eight bytes.
pub open spec fn lex8(x: Seq<u8>, y: Seq<u8>) -> bool {
    x[0] < y[0] || (x[0] == y[0] && (x[1] < y[1] || (x[1] == y[1] && (x[2] < y[2] || (x[2] == y[2] && (
    x[3] < y[3] || (x[3] == y[3] && (x[4] < y[4] || (x[4] == y[4] && (x[5] < y[5] || (x[5] == y[5] && (
    x[6] < y[6] || (x[6] == y[6] && x[7] < y[7])))))))))))))
}

proof fn lemma_bytes_lt_eight(x: Seq<u8>, y: Seq<u8>)
    requires
        x.len() == 8,
        y.len() == 8,
    ensures
        bytes_lt(x, y) == lex8(x, y),
{
    reveal_with_fuel(bytes_lt, 9);
    let x1 = x.drop_first();
    let y1 = y.drop_first();
    let x2 = x1.drop_first();
    let y2 = y1.drop_first();
    let x3 = x2.drop_first();
    let y3 = y2.drop_first();
    let x4 = x3.drop_first();
    let y4 = y3.drop_first();
    let x5 = x4.drop_first();
    let y5 = y4.drop_first();
    let x6 = x5.drop_first();
    let y6 = y5.drop_first();
    let x7 = x6.drop_first();
    let y7 = y6.drop_first();
    let x8 = x7.drop_first();
    let y8 = y7.drop_first();
    assert(x8.len() == 0 && y8.len() == 0);
    assert(x1[0] == x[1] && x2[0] == x[2] && x3[0] == x[3] && x4[0] == x[4] && x5[0] == x[5] && x6[0] == x[6] && x7[0] == x[7]);
    assert(y1[0] == y[1] && y2[0] == y[2] && y3[0] == y[3] && y4[0] == y[4] && y5[0] == y[5] && y6[0] == y[6] && y7[0] == y[7]);
}

/// The big-endian bytes of numbers are in the order of the numbers, so
/// records keyed by id come out of sled in ascending id order.
pub proof fn lemma_be_bytes_order(a: u64, b: u64)
    ensures
        a < b <==> bytes_lt(be_bytes(a), be_bytes(b)),
{
    lemma_bytes_lt_eight(be_bytes(a), be_bytes(b));
    let a0 = (a >> 56u64) as u8;
    let a1 = ((a >> 48u64) & 0xffu64) as u8;
    let a2 = ((a >> 40u64) & 0xffu64) as u8;
    let a3 = ((a >> 32u64) & 0xffu64) as u8;
    let a4 = ((a >> 24u64) & 0xffu64) as u8;
    let a5 = ((a >> 16u64) & 0xffu64) as u8;
    let a6 = ((a >> 8u64) & 0xffu64) as u8;
    let a7 = (a & 0xffu64) as u8;
    let b0 = (b >> 56u64) as u8;
    let b1 = ((b >> 48u64) & 0xffu64) as u8;
    let b2 = ((b >> 40u64) & 0xffu64) as u8;
    let b3 = ((b >> 32u64) & 0xffu64) as u8;
    let b4 = ((b >> 24u64) & 0xffu64) as u8;
    let b5 = ((b >> 16u64) & 0xffu64) as u8;
    let b6 = ((b >> 8u64) & 0xffu64) as u8;
    let b7 = (b & 0xffu64) as u8;
    assert((a < b) == (a0 < b0 || (a0 == b0 && (a1 < b1 || (a1 == b1 && (a2 < b2 || (a2 == b2 && (
        a3 < b3 || (a3 == b3 && (a4 < b4 || (a4 == b4 && (a5 < b5 || (a5 == b5 && (
        a6 < b6 || (a6 == b6 && a7 < b7))))))))))))))) by (bit_vector)
        requires
            a0 == (a >> 56u64) as u8,
            a1 == ((a >> 48u64) & 0xffu64) as u8,
            a2 == ((a >> 40u64) & 0xffu64) as u8,
            a3 == ((a >> 32u64) & 0xffu64) as u8,
            a4 == ((a >> 24u64) & 0xffu64) as u8,
            a5 == ((a >> 16u64) & 0xffu64) as u8,
            a6 == ((a >> 8u64) & 0xffu64) as u8,
            a7 == (a & 0xffu64) as u8,
            b0 == (b >> 56u64) as u8,
            b1 == ((b >> 48u64) & 0xffu64) as u8,
            b2 == ((b >> 40u64) & 0xffu64) as u8,
            b3 == ((b >> 32u64) & 0xffu64) as u8,
            b4 == ((b >> 24u64) & 0xffu64) as u8,
            b5 == ((b >> 16u64) & 0xffu64) as u8,
            b6 == ((b >> 8u64) & 0xffu64) as u8,
            b7 == (b & 0xffu64) as u8,
    ;
}

/// The big-endian bytes of a number.
pub fn to_be_bytes(n: u64) -> (r: [u8; 8])
    ensures
        r@ == be_bytes(n),
{
    let r = [
        (n >> 56u64) as u8,
        ((n >> 48u64) & 0xffu64) as u8,
        ((n >> 40u64) & 0xffu64) as u8,
        ((n >> 32u64) & 0xffu64) as u8,
        ((n >> 24u64) & 0xffu64) as u8,
        ((n >> 16u64) & 0xffu64) as u8,
        ((n >> 8u64) & 0xffu64) as u8,
        (n & 0xffu64) as u8,
    ];
    assert(r@ =~= be_bytes(n));
    r
}

/// The number whose big-endian bytes are `b`.
pub fn from_be_bytes(b: &[u8]) -> (r: u64)
    requires
        b@.len() == 8,
    ensures
        r == from_be(b@),
{
    ((b[0] as u64) << 56u64) | ((b[1] as u64) << 48u64) | ((b[2] as u64) << 40u64) | ((b[3] as u64) << 32u64)
        | ((b[4] as u64) << 24u64) | ((b[5] as u64) << 16u64) | ((b[6] as u64) << 8u64) | (b[7] as u64)
}

/// The records of a store whose keys are the big-endian bytes of ids.
pub open spec fn records_by_id(m: Map<Seq<u8>, Seq<u8>>) -> Map<u64, Seq<u8>> {
    Map::new(|id: u64| m.contains_key(be_bytes(id)), |id: u64| m[be_bytes(id)])
}

/// Writing a record under an id's key writes it under the id.
pub proof fn lemma_records_insert(m: Map<Seq<u8>, Seq<u8>>, id: u64, v: Seq<u8>)
    ensures
        records_by_id(m.insert(be_bytes(id), v)) == records_by_id(m).insert(id, v),
{
    assert forall|x: u64| #[trigger] records_by_id(m.insert(be_bytes(id), v)).contains_key(x)
        == records_by_id(m).insert(id, v).contains_key(x) by {
        lemma_be_injective(x, id);
    }
    assert forall|x: u64| #[trigger] records_by_id(m.insert(be_bytes(id), v)).contains_key(x)
        implies records_by_id(m.insert(be_bytes(id), v))[x] == records_by_id(m).insert(id, v)[x] by {
        lemma_be_injective(x, id);
    }
    assert(records_by_id(m.insert(be_bytes(id), v)) =~= records_by_id(m).insert(id, v));
}

/// Removing an id's key removes the id.
pub proof fn lemma_records_remove(m: Map<Seq<u8>, Seq<u8>>, id: u64)
    ensures
        records_by_id(m.remove(be_bytes(id))) == records_by_id(m).remove(id),
{
    assert forall|x: u64| #[trigger] records_by_id(m.remove(be_bytes(id))).contains_key(x)
        == records_by_id(m).remove(id).contains_key(x) by {
        lemma_be_injective(x, id);
    }
    assert(records_by_id(m.remove(be_bytes(id))) =~= records_by_id(m).remove(id));
}

} // verus!
