//! The backend's operations, as values, and their meaning.
//!
//! The cache talks to a key-value backend that keeps byte values and sets of
//! ids under [`CacheKey`]s. An operation is a [`StoreOp`]: a [`Command`] for
//! the backend, and a [`Tally`] that says to which count of a
//! [`CacheChange`] the backend's integer reply to it contributes.
//!
//! [`StoreState`] models what the backend holds, and [`step`] what one
//! command does to it and what the backend replies.
use vstd::prelude::*;

use crate::keys::CacheKey;

verus! {

/// One command to the backend.
pub enum Command {
    /// Store bytes under a key, without expiry.
    Put { key: CacheKey, bytes: Vec<u8> },
    /// Store several values in one round trip, in order.
    PutMany { items: Vec<(CacheKey, Vec<u8>)> },
    /// Add ids to a set; the reply counts the ids that were not members.
    AddToSet { key: CacheKey, ids: Vec<u64> },
    /// Remove an id from a set; the reply is `1` if it was a member, else `0`.
    RemoveFromSet { key: CacheKey, id: u64 },
    /// Move an id from one set to another; the reply is `1` if it was a member
    /// of the first, else `0` and nothing changes.
    MoveBetweenSets { from: CacheKey, to: CacheKey, id: u64 },
    /// Remove whatever is stored under a key.
    Delete { key: CacheKey },
}

/// Where the reply to a command is counted.
#[derive(Clone, Copy, Debug, PartialEq, Eq, Structural)]
pub enum Tally {
    /// Not counted.
    Ignored,
    /// Added to `channels`.
    Channels,
    /// Added to `users`.
    Users,
    /// Added to `roles`.
    Roles,
    /// Added to `guilds`.
    Guilds,
    /// Added to `unavailable_guilds`.
    UnavailableGuilds,
    /// Subtracted from `unavailable_guilds`.
    NoLongerUnavailable,
    /// Subtracted from `guilds` and added to `unavailable_guilds`.
    BecameUnavailable,
}

/// A command together with where its reply is counted.
pub struct StoreOp {
    pub cmd: Command,
    pub tally: Tally,
}

/// A [`Command`] with its byte buffers and id lists as sequences.
pub enum CommandView {
    Put { key: CacheKey, bytes: Seq<u8> },
    PutMany { items: Seq<(CacheKey, Seq<u8>)> },
    AddToSet { key: CacheKey, ids: Seq<u64> },
    RemoveFromSet { key: CacheKey, id: u64 },
    MoveBetweenSets { from: CacheKey, to: CacheKey, id: u64 },
    Delete { key: CacheKey },
}

/// A [`StoreOp`] as a value of the model.
pub struct OpView {
    pub cmd: CommandView,
    pub tally: Tally,
}

impl View for Command {
    type V = CommandView;

    open spec fn view(&self) -> CommandView {
        match self {
            Command::Put { key, bytes } => CommandView::Put { key: *key, bytes: bytes@ },
            Command::PutMany { items } => CommandView::PutMany { items: entries_view(items@) },
            Command::AddToSet { key, ids } => CommandView::AddToSet { key: *key, ids: ids@ },
            Command::RemoveFromSet { key, id } => CommandView::RemoveFromSet { key: *key, id: *id },
            Command::MoveBetweenSets { from, to, id } => CommandView::MoveBetweenSets {
                from: *from,
                to: *to,
                id: *id,
            },
            Command::Delete { key } => CommandView::Delete { key: *key },
        }
    }
}

impl View for StoreOp {
    type V = OpView;

    open spec fn view(&self) -> OpView {
        OpView { cmd: self.cmd@, tally: self.tally }
    }
}

/// A list of operations as a sequence of model values.
pub open spec fn plan_view(ops: Seq<StoreOp>) -> Seq<OpView> {
    ops.map_values(|op: StoreOp| op@)
}

/// What the backend holds: byte values and id sets, each under its key.
pub struct StoreState {
    pub values: Map<CacheKey, Seq<u8>>,
    pub sets: Map<CacheKey, Set<u64>>,
}

/// The members of the set under `k`; none where there is no set.
pub open spec fn members(st: StoreState, k: CacheKey) -> Set<u64> {
    if st.sets.contains_key(k) {
        st.sets[k]
    } else {
        Set::empty()
    }
}

pub open spec fn entries_view(items: Seq<(CacheKey, Vec<u8>)>) -> Seq<(CacheKey, Seq<u8>)> {
    items.map_values(|e: (CacheKey, Vec<u8>)| (e.0, e.1@))
}

/// Stores each entry in order, so that a later entry for a key wins.
pub open spec fn put_all(values: Map<CacheKey, Seq<u8>>, items: Seq<(CacheKey, Seq<u8>)>) -> Map<
    CacheKey,
    Seq<u8>,
>
    decreases items.len(),
{
    if items.len() == 0 {
        values
    } else {
        let last = items.last();
        put_all(values, items.drop_last()).insert(last.0, last.1)
    }
}

/// The number of `ids` that are not in `s`.
pub open spec fn new_ids(s: Set<u64>, ids: Seq<u64>) -> int {
    ids.to_set().difference(s).len() as int
}

/// The state after `cmd`, and the integer reply that counts are taken from:
/// the number of ids that an add added, and `1` or `0` for whether a removal
/// or a move found the id. Writes and deletions are never counted; they
/// reply `0` here.
pub open spec fn step(st: StoreState, cmd: CommandView) -> (StoreState, int) {
    match cmd {
        CommandView::Put { key, bytes } => (StoreState { values: st.values.insert(key, bytes), ..st }, 0),
        CommandView::PutMany { items } => (
            StoreState { values: put_all(st.values, items), ..st },
            0,
        ),
        CommandView::AddToSet { key, ids } => (
            StoreState { sets: st.sets.insert(key, members(st, key).union(ids.to_set())), ..st },
            new_ids(members(st, key), ids),
        ),
        CommandView::RemoveFromSet { key, id } => (
            StoreState { sets: st.sets.insert(key, members(st, key).remove(id)), ..st },
            if members(st, key).contains(id) {
                1
            } else {
                0
            },
        ),
        CommandView::MoveBetweenSets { from, to, id } => if members(st, from).contains(id) {
            let removed = st.sets.insert(from, members(st, from).remove(id));
            let moved = StoreState { sets: removed, ..st };
            (StoreState { sets: removed.insert(to, members(moved, to).insert(id)), ..st }, 1)
        } else {
            (st, 0)
        },
        CommandView::Delete { key } => (
            StoreState { values: st.values.remove(key), sets: st.sets.remove(key) },
            0,
        ),
    }
}

/// The state after running `ops` in order.
pub open spec fn run(st: StoreState, ops: Seq<OpView>) -> StoreState
    decreases ops.len(),
{
    if ops.len() == 0 {
        st
    } else {
        step(run(st, ops.drop_last()), ops.last().cmd).0
    }
}

/// The backend's replies to `ops`, run in order from `st`.
pub open spec fn replies(st: StoreState, ops: Seq<OpView>) -> Seq<int>
    decreases ops.len(),
{
    if ops.len() == 0 {
        Seq::empty()
    } else {
        replies(st, ops.drop_last()).push(step(run(st, ops.drop_last()), ops.last().cmd).1)
    }
}

/// Running two lists of operations one after the other is running their
/// concatenation.
pub proof fn lemma_run_concat(st: StoreState, a: Seq<OpView>, b: Seq<OpView>)
    ensures
        run(st, a + b) == run(run(st, a), b),
        replies(st, a + b) == replies(st, a) + replies(run(st, a), b),
    decreases b.len(),
{
    if b.len() == 0 {
        assert(a + b =~= a);
        assert(replies(st, a) + replies(run(st, a), b) =~= replies(st, a));
    } else {
        lemma_run_concat(st, a, b.drop_last());
        assert((a + b).drop_last() =~= a + b.drop_last());
        assert((a + b).last() == b.last());
        assert(replies(st, a + b) =~= replies(st, a) + replies(run(st, a), b));
    }
}

} // verus!
