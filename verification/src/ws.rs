//! The WebSocket side of the server: the open connections of each user,
//! sending to them, and what to do with each message a browser sends.
use vstd::prelude::*;
use std::collections::BTreeMap;
use vstd::std_specs::btree::spec_keys_iter;
use vstd::std_specs::iter::IteratorSpec;
use vstd::std_specs::cmp::OrdSpec;
use crate::login::User;
use crate::types::{AdminAction, BrowseAction, ClientMsg, ServerMsg};
use vstd::pervasive::cloned;

verus! {

#[verifier::external_type_specification]
#[verifier::external_body]
#[verifier::reject_recursive_types(T)]
pub struct ExUnboundedSender<T>(tokio::sync::mpsc::UnboundedSender<T>);

/// The messages that a sending handle has handed over to its channel, in
/// the order it handed them over.
pub uninterp spec fn accepted(tx: tokio::sync::mpsc::UnboundedSender<ServerMsg>) -> Seq<ServerMsg>;

/// tokio's `UnboundedSender::send`: on `Ok` the message was handed over to
/// the channel, after those handed over before; on `Err` (the receiving
/// half is gone) it was not. Whether the receiving half is still there
/// depends on the connection, so nothing is claimed of the outcome.
#[verifier::external_body]
fn channel_send(tx: &mut tokio::sync::mpsc::UnboundedSender<ServerMsg>, msg: ServerMsg) -> (r: bool)
    ensures
        r ==> accepted(*final(tx)) == accepted(*old(tx)).push(msg),
        !r ==> accepted(*final(tx)) == accepted(*old(tx)),
{
    match tx.send(msg) {
        Ok(()) => true,
        Err(_) => false,
    }
}

/// The sending half of one WebSocket connection, with the number that
/// identifies the connection.
pub struct SocketWriter {
    pub id: u64,
    pub tx: tokio::sync::mpsc::UnboundedSender<ServerMsg>,
}

impl SocketWriter {
    /// The messages this connection's writer has taken so far.
    pub open spec fn sent(self) -> Seq<ServerMsg> {
        accepted(self.tx)
    }

    /// Queues a message for the connection; `false` when the connection is
    /// gone, in which case the message is not queued.
    pub fn send(&mut self, msg: ServerMsg) -> (r: bool)
        ensures
            final(self).id == old(self).id,
            r ==> final(self).sent() == old(self).sent().push(msg),
            !r ==> final(self).sent() == old(self).sent(),
    {
        channel_send(&mut self.tx, msg)
    }
}

/// `after` is `before` once it has been handed a copy of `msg`: the copy is
/// among its messages exactly when the hand-over reported delivery.
pub open spec fn handed_once(before: SocketWriter, after: SocketWriter, msg: ServerMsg, delivered: bool) -> bool {
    &&& after.id == before.id
    &&& if delivered {
        exists|m: ServerMsg| cloned(msg, m) && after.sent() == #[trigger] before.sent().push(m)
    } else {
        after.sent() == before.sent()
    }
}

/// The writers whose flag is set, in order.
pub open spec fn kept_writers(ws: Seq<SocketWriter>, flags: Seq<bool>) -> Seq<SocketWriter>
    decreases ws.len(),
{
    if ws.len() == 0 || flags.len() == 0 {
        Seq::empty()
    } else if flags.last() {
        kept_writers(ws.drop_last(), flags.drop_last()).push(ws.last())
    } else {
        kept_writers(ws.drop_last(), flags.drop_last())
    }
}

/// The connection ids of a list of writers, in order.
pub open spec fn writer_ids(ws: Seq<SocketWriter>) -> Seq<u64> {
    ws.map_values(|w: SocketWriter| w.id)
}

/// The keys of a map come out of its key iterator in increasing order.
proof fn lemma_keys_increasing(m: &BTreeMap<u64, Vec<SocketWriter>>)
    ensures
        forall|i: int, j: int| 0 <= i < j < spec_keys_iter(m).remaining().len()
            ==> spec_keys_iter(m).remaining().unref()[i] < spec_keys_iter(m).remaining().unref()[j],
{
    broadcast use vstd::std_specs::btree::axiom_spec_keys_iter;
    broadcast use vstd::std_specs::btree::axiom_increasing_seq_meaning;
    broadcast use vstd::laws_cmp::group_laws_cmp;
    let rem = spec_keys_iter(m).remaining();
    assert(vstd::laws_cmp::obeys_cmp::<&u64>());
    assert(vstd::std_specs::btree::increasing_seq(rem));
    vstd::std_specs::btree::axiom_increasing_seq_meaning::<&u64>(rem);
    assert(forall|i: int, j: int| 0 <= i < j < rem.len() ==> OrdSpec::cmp_spec(#[trigger] &rem[i], #[trigger] &rem[j]) is Less);
    assert forall|i: int, j: int| 0 <= i < j < rem.len() implies rem.unref()[i] < rem.unref()[j] by {
        assert(OrdSpec::cmp_spec(&rem[i], &rem[j]) is Less);
    }
}

/// Holds the writers of the open WebSocket connections, by user id. One
/// user may have several connections (several tabs, say); a user with none
/// has no entry.
pub struct SocketStorage {
    senders: BTreeMap<u64, Vec<SocketWriter>>,
}

impl SocketStorage {
    #[verifier::type_invariant]
    spec fn no_empty_lists(self) -> bool {
        forall|u: u64| #[trigger] self.senders@.contains_key(u) ==> self.senders@[u]@.len() > 0
    }

    /// The connection ids of each connected user, in the order the
    /// connections were registered.
    pub closed spec fn connections(self) -> Map<u64, Seq<u64>> {
        Map::new(|u: u64| self.senders@.contains_key(u), |u: u64| writer_ids(self.senders@[u]@))
    }

    /// The writers of each connected user, in the order they were
    /// registered.
    pub closed spec fn writers(self) -> Map<u64, Seq<SocketWriter>> {
        Map::new(|u: u64| self.senders@.contains_key(u), |u: u64| self.senders@[u]@)
    }

    /// Every connected user has at least one connection.
    pub open spec fn all_connected_have_connections(self) -> bool {
        forall|u: u64| #[trigger] self.connections().contains_key(u) ==> self.connections()[u].len() > 0
    }

    /// No connections yet.
    pub fn new() -> (r: SocketStorage)
        ensures
            r.connections() == Map::<u64, Seq<u64>>::empty(),
            r.all_connected_have_connections(),
    {
        let r = SocketStorage { senders: BTreeMap::new() };
        assert(r.connections() =~= Map::<u64, Seq<u64>>::empty());
        r
    }

    /// Registers a connection of a user, after the user's other connections.
    pub fn insert(&mut self, user_id: u64, tx: SocketWriter)
        ensures
            final(self).connections() == old(self).connections().insert(
                user_id,
                if old(self).connections().contains_key(user_id) {
                    old(self).connections()[user_id].push(tx.id)
                } else {
                    seq![tx.id]
                },
            ),
            final(self).all_connected_have_connections(),
    {
        proof { use_type_invariant(&*self); }
        let ghost old_senders = self.senders@;
        let mut senders: BTreeMap<u64, Vec<SocketWriter>> = BTreeMap::new();
        std::mem::swap(&mut senders, &mut self.senders);
        let mut list = match senders.remove(&user_id) {
            Some(l) => l,
            None => Vec::new(),
        };
        let ghost tx_id = tx.id;
        list.push(tx);
        senders.insert(user_id, list);
        self.senders = senders;
        proof {
            assert(writer_ids(list@) =~= (if old_senders.contains_key(user_id) {
                writer_ids(old_senders[user_id]@).push(tx_id)
            } else {
                seq![tx_id]
            }));
            assert(self.connections() =~= old(self).connections().insert(
                user_id,
                if old(self).connections().contains_key(user_id) {
                    old(self).connections()[user_id].push(tx_id)
                } else {
                    seq![tx_id]
                },
            ));
        }
        proof { use_type_invariant(&*self); }
    }

    /// Unregisters the connection with the given id; a user left without
    /// connections is no longer connected.
    pub fn remove(&mut self, user_id: u64, conn_id: u64)
        ensures
            final(self).all_connected_have_connections(),
            !old(self).connections().contains_key(user_id) ==> final(self).connections() == old(self).connections(),
            old(self).connections().contains_key(user_id) ==> ({
                let rest = old(self).connections()[user_id].filter(|c: u64| c != conn_id);
                final(self).connections() == if rest.len() == 0 {
                    old(self).connections().remove(user_id)
                } else {
                    old(self).connections().insert(user_id, rest)
                }
            }),
    {
        proof { use_type_invariant(&*self); }
        let mut senders: BTreeMap<u64, Vec<SocketWriter>> = BTreeMap::new();
        std::mem::swap(&mut senders, &mut self.senders);
        let ghost old_senders = senders@;
        match senders.remove(&user_id) {
            None => {
                self.senders = senders;
                proof { assert(self.connections() =~= old(self).connections()); }
            },
            Some(mut list) => {
                let ghost ids = writer_ids(list@);
                let mut kept: Vec<SocketWriter> = Vec::new();
                let mut i: usize = 0;
                let n = list.len();
                while list.len() > 0
                    invariant
                        list.len() + i == n,
                        n == ids.len(),
                        writer_ids(list@) == ids.skip(i as int),
                        writer_ids(kept@) == ids.take(i as int).filter(|c: u64| c != conn_id),
                    decreases list.len(),
                {
                    let ghost lbefore = list@;
                    let w = list.remove(0);
                    proof {
                        assert(w == lbefore[0]);
                        assert(writer_ids(lbefore)[0] == w.id);
                        assert(writer_ids(lbefore)[0] == ids.skip(i as int)[0]);
                        assert(list@ =~= lbefore.subrange(1, lbefore.len() as int));
                        assert(writer_ids(list@) =~= writer_ids(lbefore).subrange(1, lbefore.len() as int));
                        assert(ids.take(i + 1) =~= ids.take(i as int).push(ids[i as int]));
                        assert(w.id == ids[i as int]);
                        ids.take(i as int).lemma_filter_push(ids[i as int], |c: u64| c != conn_id);
                        assert(writer_ids(list@) =~= ids.skip(i + 1));
                    }
                    if w.id != conn_id {
                        let ghost before = kept@;
                        kept.push(w);
                        assert(writer_ids(kept@) =~= writer_ids(before).push(ids[i as int]));
                    }
                    i = i + 1;
                }
                assert(ids.take(n as int) =~= ids);
                if kept.len() > 0 {
                    senders.insert(user_id, kept);
                    self.senders = senders;
                    proof {
                        assert(self.connections() =~= old(self).connections().insert(
                            user_id, ids.filter(|c: u64| c != conn_id)));
                    }
                } else {
                    self.senders = senders;
                    proof {
                        assert(self.connections() =~= old(self).connections().remove(user_id));
                    }
                }
            },
        }
        proof { use_type_invariant(&*self); }
    }

    /// Sends a copy of a message to every connection of a user, in order,
    /// and returns for each whether it was delivered. The connections that
    /// could not take it are dropped, the others stay in order, and a user
    /// left without connections is no longer connected. Nothing else changes.
    pub fn send_to(&mut self, user_id: u64, msg: &ServerMsg) -> (delivered: Vec<bool>)
        ensures
            final(self).all_connected_have_connections(),
            !old(self).writers().contains_key(user_id) ==> final(self).writers() == old(self).writers()
                && delivered@.len() == 0,
            old(self).writers().contains_key(user_id) ==> ({
                let ws = old(self).writers()[user_id];
                &&& delivered@.len() == ws.len()
                &&& exists|after: Seq<SocketWriter>| {
                    &&& after.len() == ws.len()
                    &&& (forall|i: int| 0 <= i < ws.len() ==> handed_once(ws[i], #[trigger] after[i], *msg, delivered@[i]))
                    &&& final(self).writers() == if kept_writers(after, delivered@).len() == 0 {
                        old(self).writers().remove(user_id)
                    } else {
                        old(self).writers().insert(user_id, #[trigger] kept_writers(after, delivered@))
                    }
                }
            }),
    {
        proof { use_type_invariant(&*self); }
        let mut delivered: Vec<bool> = Vec::new();
        let mut senders: BTreeMap<u64, Vec<SocketWriter>> = BTreeMap::new();
        std::mem::swap(&mut senders, &mut self.senders);
        match senders.remove(&user_id) {
            None => {
                self.senders = senders;
                proof { assert(self.writers() =~= old(self).writers()); }
            },
            Some(mut list) => {
                let ghost ws = list@;
                let ghost mut after: Seq<SocketWriter> = Seq::empty();
                let mut kept: Vec<SocketWriter> = Vec::new();
                let mut i: usize = 0;
                let n = list.len();
                while list.len() > 0
                    invariant
                        list.len() + i == n,
                        n == ws.len(),
                        list@ == ws.skip(i as int),
                        after.len() == i,
                        delivered@.len() == i,
                        forall|j: int| 0 <= j < i ==> handed_once(ws[j], #[trigger] after[j], *msg, delivered@[j]),
                        kept@ == kept_writers(after, delivered@),
                    decreases list.len(),
                {
                    let ghost lbefore = list@;
                    let mut w = list.remove(0);
                    proof {
                        assert(w == ws[i as int]);
                        assert(list@ =~= ws.skip(i + 1));
                    }
                    let ghost w_before = w;
                    let mc = msg.clone();
                    let ok = w.send(mc);
                    proof {
                        assert(handed_once(w_before, w, *msg, ok));
                    }
                    let ghost kbefore = kept@;
                    let ghost dbefore = delivered@;
                    let ghost abefore = after;
                    proof {
                        after = after.push(w);
                    }
                    delivered.push(ok);
                    proof {
                        assert(after.drop_last() =~= abefore);
                        assert(delivered@.drop_last() =~= dbefore);
                        assert forall|j: int| 0 <= j < i + 1 implies handed_once(ws[j], #[trigger] after[j], *msg, delivered@[j]) by {
                            if j < i {
                                assert(after[j] == abefore[j]);
                                assert(delivered@[j] == dbefore[j]);
                            }
                        }
                    }
                    if ok {
                        kept.push(w);
                        proof {
                            assert(kept@ =~= kbefore.push(after.last()));
                        }
                    }
                    i = i + 1;
                }
                assert(after.len() == ws.len());
                if kept.len() > 0 {
                    senders.insert(user_id, kept);
                    self.senders = senders;
                    proof {
                        assert(self.writers() =~= old(self).writers().insert(user_id, kept_writers(after, delivered@)));
                        assert(old(self).writers()[user_id] == ws);
                    }
                } else {
                    self.senders = senders;
                    proof {
                        assert(self.writers() =~= old(self).writers().remove(user_id));
                        assert(old(self).writers()[user_id] == ws);
                    }
                }
            },
        }
        proof { use_type_invariant(&*self); }
        delivered
    }

    /// The ids of the connected users, in increasing order, each once.
    pub fn connected_user_ids(&self) -> (r: Vec<u64>)
        ensures
            r@.to_set() == self.connections().dom(),
            r@.no_duplicates(),
            forall|i: int, j: int| 0 <= i < j < r@.len() ==> r@[i] < r@[j],
    {
        broadcast use vstd::std_specs::btree::axiom_spec_keys_iter;

        let mut out: Vec<u64> = Vec::new();
        let ghost keys_seq = spec_keys_iter(&self.senders).remaining().unref();
        for k in it: self.senders.keys()
            invariant
                keys_seq == spec_keys_iter(&self.senders).remaining().unref(),
                it.seq() == spec_keys_iter(&self.senders).remaining(),
                out@ == it.seq().take(it.index() as int).map_values(|x: &u64| *x),
        {
            proof {
                assert(it.seq().take(it.index() + 1) =~= it.seq().take(it.index() as int).push(k));
            }
            out.push(*k);
            proof {
                assert(out@ =~= it.seq().take(it.index() + 1).map_values(|x: &u64| *x));
            }
        }
        proof {
            assert(self.connections().dom() =~= self.senders@.dom());
            assert(out@ =~= keys_seq);
            lemma_keys_increasing(&self.senders);
        }
        out
    }
}

/// What to do with a message from a browser.
#[derive(Debug, PartialEq, Eq)]
pub enum Dispatch {
    /// Answer right away with this message.
    Reply(ServerMsg),
    /// Handle an admin request of the logged-in user.
    Admin(AdminAction),
    /// Send the logged-in user the volumes they may see.
    MyVolumes,
    /// List a directory of a volume for the logged-in user.
    ListDirectory { volume_id: u64, path: String },
    /// Nothing to do.
    Ignore,
}

/// Routes a browser's message: without a logged-in user every request is
/// answered with `Unauthenticated`; otherwise admin requests, volume lists
/// and directory listings go to their handlers. Entry actions are not
/// handled.
pub fn dispatch(authenticated: bool, msg: ClientMsg) -> (r: Dispatch)
    ensures
        !authenticated ==> r == Dispatch::Reply(ServerMsg::Unauthenticated),
        authenticated ==> r == (match msg {
            ClientMsg::Admin(action) => Dispatch::Admin(action),
            ClientMsg::GetMyVolumes => Dispatch::MyVolumes,
            ClientMsg::Browse(BrowseAction::ListDirectory { volume_id, path }) => Dispatch::ListDirectory { volume_id, path },
            ClientMsg::Browse(BrowseAction::EntryAction { .. }) => Dispatch::Ignore,
        }),
{
    if !authenticated {
        return Dispatch::Reply(ServerMsg::Unauthenticated);
    }
    match msg {
        ClientMsg::Admin(action) => Dispatch::Admin(action),
        ClientMsg::GetMyVolumes => Dispatch::MyVolumes,
        ClientMsg::Browse(BrowseAction::ListDirectory { volume_id, path }) => Dispatch::ListDirectory { volume_id, path },
        ClientMsg::Browse(BrowseAction::EntryAction { .. }) => Dispatch::Ignore,
    }
}

/// The first message of a connection: `Hello` with the user's name, or
/// `Unauthenticated` when nobody is logged in. No avatar is known for a
/// stored user.
pub fn hello(user: &Option<User>) -> (r: ServerMsg)
    ensures
        r == (match user {
            Some(u) => ServerMsg::Hello { username: u.username, avatar_url: None },
            None => ServerMsg::Unauthenticated,
        }),
{
    match user {
        Some(u) => ServerMsg::Hello { username: u.username.clone(), avatar_url: None },
        None => ServerMsg::Unauthenticated,
    }
}

} // verus!
