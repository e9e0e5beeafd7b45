//! What holds of the entity cache's writes, over the backend model.
use vstd::prelude::*;

use crate::change::{tally, tally_upto, zero_counts, Counts};
use crate::entity::{
    add_op, channel_ops, guild_tail_ops, insert_ops, member_entries, member_ids, member_ops,
    member_pair, members_ops, partial_guild_ops, put_many_op, snapshot_ops, unavailable_finish_ops,
    unavailable_start_ops, GuildSnapshot,
};
use crate::keys::CacheKey;
use crate::records::{CachedChannel, ChannelView, GuildView, MemberView, Record, RoleView, UserView};
use crate::store::{members, new_ids, put_all, replies, run, step, OpView, StoreState, Tally, lemma_run_concat};

verus! {

proof fn lemma_run1(st: StoreState, a: OpView)
    ensures
        run(st, seq![a]) == step(st, a.cmd).0,
        replies(st, seq![a]) == seq![step(st, a.cmd).1],
{
    assert(seq![a].drop_last() =~= Seq::<OpView>::empty());
    assert(replies(st, Seq::<OpView>::empty()) =~= Seq::<int>::empty());
    assert(replies(st, seq![a]) =~= seq![step(st, a.cmd).1]);
}

proof fn lemma_run3(st: StoreState, a: OpView, b: OpView, c: OpView)
    ensures
        ({
            let s1 = step(st, a.cmd);
            let s2 = step(s1.0, b.cmd);
            let s3 = step(s2.0, c.cmd);
            run(st, seq![a, b, c]) == s3.0 && replies(st, seq![a, b, c]) == seq![s1.1, s2.1, s3.1]
        }),
{
    let s1 = step(st, a.cmd);
    let s2 = step(s1.0, b.cmd);
    lemma_run1(st, a);
    assert(seq![a, b].drop_last() =~= seq![a]);
    assert(seq![a, b, c].drop_last() =~= seq![a, b]);
    assert(replies(st, seq![a, b]) =~= seq![s1.1, s2.1]);
    assert(replies(st, seq![a, b, c]) =~= seq![s1.1, s2.1, step(s2.0, c.cmd).1]);
}

proof fn lemma_tally3(ops: Seq<OpView>, rs: Seq<int>)
    requires
        ops.len() == 3,
        rs.len() == 3,
        ops[0].tally == Tally::Ignored,
        ops[1].tally == Tally::Ignored,
    ensures
        tally(ops, rs) == tally_upto(ops, rs, 3),
        tally_upto(ops, rs, 2) == zero_counts(),
{
    assert(tally_upto(ops, rs, 0) == zero_counts());
    assert(tally_upto(ops, rs, 1) == zero_counts());
    assert(tally_upto(ops, rs, 2) == zero_counts());
}

/// Adding one id to a set: the id is then a member, and the reply is `1`
/// exactly when it was not one before.
proof fn lemma_new_id(s: Set<u64>, v: u64)
    ensures
        seq![v].to_set() == Set::<u64>::empty().insert(v),
        s.union(seq![v].to_set()) == s.insert(v),
        new_ids(s, seq![v]) == if s.contains(v) {
            0int
        } else {
            1int
        },
{
    let one = seq![v];
    assert(one.to_set() =~= Set::<u64>::empty().insert(v)) by {
        assert forall|x: u64| one.to_set().contains(x) <==> x == v by {
            if x == v {
                assert(one[0] == v);
            }
        }
    }
    assert(s.union(one.to_set()) =~= s.insert(v));
    if s.contains(v) {
        assert(one.to_set().difference(s) =~= Set::<u64>::empty());
    } else {
        assert(one.to_set().difference(s) =~= Set::<u64>::empty().insert(v));
    }
}

/// Adding the same id to a set a second time adds nothing: the reply to the
/// first add is `1` exactly when the id was not a member, the reply to the
/// second is `0`, and the id is a member after each.
pub proof fn lemma_insert_into_set(st: StoreState, key: CacheKey, value: u64)
    ensures
        replies(st, insert_ops(key, value))[0] == if members(st, key).contains(value) {
            0int
        } else {
            1int
        },
        members(run(st, insert_ops(key, value)), key).contains(value),
        replies(run(st, insert_ops(key, value)), insert_ops(key, value))[0] == 0,
        members(run(run(st, insert_ops(key, value)), insert_ops(key, value)), key).contains(value),
{
    let op = add_op(key, seq![value], Tally::Ignored);
    lemma_run1(st, op);
    lemma_new_id(members(st, key), value);
    let st1 = run(st, insert_ops(key, value));
    lemma_run1(st1, op);
    lemma_new_id(members(st1, key), value);
}

/// The state after caching channel `c`, stated directly.
pub open spec fn after_channel(st: StoreState, c: ChannelView) -> StoreState {
    let with_guild = match c.guild_id {
        Some(g) => st.sets.insert(CacheKey::GuildChannels(g), members(st, CacheKey::GuildChannels(g)).insert(c.id)),
        None => st.sets,
    };
    let moved = StoreState { sets: with_guild, ..st };
    StoreState {
        values: st.values.insert(CacheKey::Channel(c.id), CachedChannel::wire(c)),
        sets: with_guild.insert(CacheKey::Channels, members(moved, CacheKey::Channels).insert(c.id)),
    }
}

pub open spec fn channel_counts(st: StoreState, c: ChannelView) -> Counts {
    Counts {
        channels: if members(st, CacheKey::Channels).contains(c.id) {
            0
        } else {
            1
        },
        ..zero_counts()
    }
}

proof fn lemma_channel_once(st: StoreState, c: ChannelView)
    ensures
        run(st, channel_ops(c)) == after_channel(st, c),
        tally(channel_ops(c), replies(st, channel_ops(c))) == channel_counts(st, c),
{
    let put = crate::entity::put_op(CacheKey::Channel(c.id), CachedChannel::wire(c));
    let global = add_op(CacheKey::Channels, seq![c.id], Tally::Channels);
    let s1 = step(st, put.cmd).0;
    assert(members(s1, CacheKey::Channels) == members(st, CacheKey::Channels));
    match c.guild_id {
        Some(g) => {
            let local = add_op(CacheKey::GuildChannels(g), seq![c.id], Tally::Ignored);
            lemma_run3(st, put, local, global);
            lemma_new_id(members(s1, CacheKey::GuildChannels(g)), c.id);
            let s2 = step(s1, local.cmd).0;
            lemma_new_id(members(s2, CacheKey::Channels), c.id);
            assert(members(s2, CacheKey::Channels) == members(st, CacheKey::Channels));
            assert(run(st, channel_ops(c)).sets =~= after_channel(st, c).sets);
            assert(run(st, channel_ops(c)).values =~= after_channel(st, c).values);
            lemma_tally3(channel_ops(c), replies(st, channel_ops(c)));
        },
        None => {
            assert(seq![put, global].drop_last() =~= seq![put]);
            lemma_run1(st, put);
            lemma_new_id(members(s1, CacheKey::Channels), c.id);
            let rs = replies(st, channel_ops(c));
            assert(rs =~= seq![0int, new_ids(members(s1, CacheKey::Channels), seq![c.id])]);
            assert(run(st, channel_ops(c)).sets =~= after_channel(st, c).sets);
            assert(run(st, channel_ops(c)).values =~= after_channel(st, c).values);
            assert(tally_upto(channel_ops(c), rs, 0) == zero_counts());
            assert(tally_upto(channel_ops(c), rs, 1) == zero_counts());
        },
    }
}

/// Caching a channel twice in a row stores nothing new the second time: the
/// state after the second write is the state after the first, and the second
/// write counts no channel. The first write counts one channel exactly when
/// the channel's id was not yet in the global channel index.
pub proof fn lemma_channel_idempotent(st: StoreState, c: ChannelView)
    ensures
        run(run(st, channel_ops(c)), channel_ops(c)) == run(st, channel_ops(c)),
        tally(channel_ops(c), replies(st, channel_ops(c))) == channel_counts(st, c),
        tally(channel_ops(c), replies(run(st, channel_ops(c)), channel_ops(c))) == zero_counts(),
{
    lemma_channel_once(st, c);
    let st1 = after_channel(st, c);
    lemma_channel_once(st1, c);
    assert(members(st1, CacheKey::Channels).contains(c.id));
    let st2 = after_channel(st1, c);
    match c.guild_id {
        Some(g) => {
            assert(members(st1, CacheKey::GuildChannels(g)).insert(c.id) =~= members(st1, CacheKey::GuildChannels(g)));
        },
        None => {},
    }
    assert(members(st1, CacheKey::Channels).insert(c.id) =~= members(st1, CacheKey::Channels));
    assert(st2.values =~= st1.values);
    assert(st2.sets =~= st1.sets);
}

/// A guild id is in at most one of the two guild indexes.
pub open spec fn exclusive(st: StoreState, g: u64) -> bool {
    !(members(st, CacheKey::Guilds).contains(g) && members(st, CacheKey::UnavailableGuilds).contains(
        g,
    ))
}

proof fn lemma_deletes_keep_guild_indexes(st: StoreState, g: u64)
    ensures
        ({
            let st2 = run(st, unavailable_finish_ops(g, true));
            &&& members(st2, CacheKey::Guilds) == members(st, CacheKey::Guilds)
            &&& members(st2, CacheKey::UnavailableGuilds) == members(st, CacheKey::UnavailableGuilds)
            &&& !st2.values.contains_key(CacheKey::Guild(g))
        }),
{
    let ops = unavailable_finish_ops(g, true);
    assert(ops.drop_last().drop_last().drop_last().drop_last() =~= Seq::<OpView>::empty());
    assert(ops.drop_last().drop_last().drop_last() =~= seq![ops[0]]);
    assert(ops.drop_last().drop_last() =~= seq![ops[0], ops[1]]);
    assert(ops.drop_last() =~= seq![ops[0], ops[1], ops[2]]);
    lemma_run3(st, ops[0], ops[1], ops[2]);
}

/// Marking a guild unavailable leaves its id in the index of unavailable
/// guilds and out of the index of available ones. The first step moves the id
/// exactly when the guild was available; then the write counts one guild less
/// and one unavailable guild more, and the guild's entry is gone.
pub proof fn lemma_unavailable_guild(st: StoreState, g: u64)
    ensures
        ({
            let rs = replies(st, unavailable_start_ops(g));
            let st1 = run(st, unavailable_start_ops(g));
            let moved = rs[0] == 1;
            let st2 = run(st1, unavailable_finish_ops(g, moved));
            &&& moved == members(st, CacheKey::Guilds).contains(g)
            &&& !members(st2, CacheKey::Guilds).contains(g)
            &&& members(st2, CacheKey::UnavailableGuilds).contains(g)
            &&& exclusive(st2, g)
            &&& moved ==> tally(unavailable_start_ops(g), rs) == Counts {
                guilds: -1,
                unavailable_guilds: 1,
                ..zero_counts()
            }
            &&& moved ==> !st2.values.contains_key(CacheKey::Guild(g))
        }),
{
    let start = unavailable_start_ops(g);
    lemma_run1(st, start[0]);
    assert(start =~= seq![start[0]]);
    let rs = replies(st, start);
    let st1 = run(st, start);
    if members(st, CacheKey::Guilds).contains(g) {
        assert(members(st1, CacheKey::Guilds) =~= members(st, CacheKey::Guilds).remove(g));
        lemma_deletes_keep_guild_indexes(st1, g);
        assert(tally_upto(start, rs, 0) == zero_counts());
    } else {
        let add = add_op(CacheKey::UnavailableGuilds, seq![g], Tally::UnavailableGuilds);
        assert(unavailable_finish_ops(g, false) =~= seq![add]);
        lemma_run1(st1, add);
        lemma_new_id(members(st1, CacheKey::UnavailableGuilds), g);
    }
}

proof fn lemma_guild_tail(st: StoreState, gv: GuildView)
    ensures
        members(run(st, guild_tail_ops(gv)), CacheKey::Guilds).contains(gv.id),
        !members(run(st, guild_tail_ops(gv)), CacheKey::UnavailableGuilds).contains(gv.id),
{
    let ops = guild_tail_ops(gv);
    lemma_run3(st, ops[0], ops[1], ops[2]);
    assert(ops =~= seq![ops[0], ops[1], ops[2]]);
    let s1 = step(st, ops[0].cmd).0;
    lemma_new_id(members(s1, CacheKey::Guilds), gv.id);
}

/// Caching a guild leaves its id in the index of available guilds and out of
/// the index of unavailable ones.
pub proof fn lemma_guild_available(st: StoreState, s: GuildSnapshot)
    ensures
        members(run(st, snapshot_ops(s)), CacheKey::Guilds).contains(s.guild.id),
        !members(run(st, snapshot_ops(s)), CacheKey::UnavailableGuilds).contains(s.guild.id),
        exclusive(run(st, snapshot_ops(s)), s.guild.id),
{
    let ops = snapshot_ops(s);
    let tail = guild_tail_ops(s.guild@);
    let head = ops.subrange(0, ops.len() - 3);
    assert(ops =~= head + tail);
    lemma_run_concat(st, head, tail);
    lemma_guild_tail(run(st, head), s.guild@);
}

/// Caching a guild known only in part leaves its id in the index of
/// available guilds and out of the index of unavailable ones.
pub proof fn lemma_partial_guild_available(st: StoreState, g: GuildView, rs: Seq<RoleView>)
    ensures
        members(run(st, partial_guild_ops(g, rs)), CacheKey::Guilds).contains(g.id),
        !members(run(st, partial_guild_ops(g, rs)), CacheKey::UnavailableGuilds).contains(g.id),
{
    lemma_run_concat(st, crate::entity::roles_ops(g.id, rs), guild_tail_ops(g));
    lemma_guild_tail(run(st, crate::entity::roles_ops(g.id, rs)), g);
}

/// Caching the members `es` of guild `g` one at a time, in order.
pub open spec fn members_one_by_one(g: u64, es: Seq<(MemberView, UserView)>) -> Seq<OpView>
    decreases es.len(),
{
    if es.len() == 0 {
        Seq::empty()
    } else {
        members_one_by_one(g, es.drop_last()) + member_ops(g, es.last())
    }
}

/// The state after storing `entries` and adding `ids` to the member index of
/// guild `g` and to the global user index.
pub open spec fn after_members(
    st: StoreState,
    g: u64,
    entries: Seq<(CacheKey, Seq<u8>)>,
    ids: Set<u64>,
) -> StoreState {
    StoreState {
        values: put_all(st.values, entries),
        sets: st.sets.insert(
            CacheKey::GuildMembers(g),
            members(st, CacheKey::GuildMembers(g)).union(ids),
        ).insert(CacheKey::Users, members(st, CacheKey::Users).union(ids)),
    }
}

proof fn lemma_member_shape(st: StoreState, g: u64, entries: Seq<(CacheKey, Seq<u8>)>, ids: Seq<u64>, users: Tally)
    ensures
        run(
            st,
            seq![
                put_many_op(entries),
                add_op(CacheKey::GuildMembers(g), ids, Tally::Ignored),
                add_op(CacheKey::Users, ids, users),
            ],
        ) == after_members(st, g, entries, ids.to_set()),
{
    let a = put_many_op(entries);
    let b = add_op(CacheKey::GuildMembers(g), ids, Tally::Ignored);
    let c = add_op(CacheKey::Users, ids, users);
    lemma_run3(st, a, b, c);
    let s1 = step(st, a.cmd).0;
    let s2 = step(s1, b.cmd).0;
    assert(members(s2, CacheKey::Users) == members(st, CacheKey::Users));
    assert(run(st, seq![a, b, c]).sets =~= after_members(st, g, entries, ids.to_set()).sets);
}

proof fn lemma_put_all_concat(
    v: Map<CacheKey, Seq<u8>>,
    a: Seq<(CacheKey, Seq<u8>)>,
    b: Seq<(CacheKey, Seq<u8>)>,
)
    ensures
        put_all(v, a + b) == put_all(put_all(v, a), b),
    decreases b.len(),
{
    if b.len() == 0 {
        assert(a + b =~= a);
    } else {
        lemma_put_all_concat(v, a, b.drop_last());
        assert((a + b).drop_last() =~= a + b.drop_last());
        assert((a + b).last() == b.last());
    }
}

proof fn lemma_one_by_one(st: StoreState, g: u64, es: Seq<(MemberView, UserView)>)
    requires
        es.len() > 0,
    ensures
        run(st, members_one_by_one(g, es)) == after_members(
            st,
            g,
            member_entries(g, es),
            member_ids(es).to_set(),
        ),
    decreases es.len(),
{
    let e = es.last();
    let rest = es.drop_last();
    let single = member_ops(g, e);
    assert(member_ids(es) =~= member_ids(rest).push(e.1.id));
    lemma_new_id(Set::empty(), e.1.id);
    if rest.len() == 0 {
        assert(members_one_by_one(g, rest) =~= Seq::<OpView>::empty());
        assert(members_one_by_one(g, es) =~= single);
        assert(member_entries(g, rest) =~= Seq::<(CacheKey, Seq<u8>)>::empty());
        assert(member_entries(g, es) =~= member_pair(g, e));
        assert(member_ids(es) =~= seq![e.1.id]);
        lemma_member_shape(st, g, member_pair(g, e), seq![e.1.id], Tally::Users);
    } else {
        lemma_one_by_one(st, g, rest);
        lemma_run_concat(st, members_one_by_one(g, rest), single);
        let ids0 = member_ids(rest).to_set();
        let mid = after_members(st, g, member_entries(g, rest), ids0);
        lemma_member_shape(mid, g, member_pair(g, e), seq![e.1.id], Tally::Users);
        lemma_put_all_concat(st.values, member_entries(g, rest), member_pair(g, e));
        let ids = member_ids(es).to_set();
        assert(ids =~= ids0.insert(e.1.id)) by {
            member_ids(rest).lemma_push_to_set_commute(e.1.id);
        }
        let gm = CacheKey::GuildMembers(g);
        let us = CacheKey::Users;
        assert(members(mid, gm).union(seq![e.1.id].to_set()) =~= members(st, gm).union(ids));
        assert(members(mid, us).union(seq![e.1.id].to_set()) =~= members(st, us).union(ids));
        let fin = after_members(mid, g, member_pair(g, e), seq![e.1.id].to_set());
        assert(fin.sets =~= after_members(st, g, member_entries(g, es), ids).sets);
        assert(fin.values == after_members(st, g, member_entries(g, es), ids).values);
    }
}

/// Caching a non-empty list of members of a guild in one batch leaves the
/// backend as caching them one at a time, in order, does: the same entries
/// under the same keys, and the same index memberships.
pub proof fn lemma_members_batch(st: StoreState, g: u64, es: Seq<(MemberView, UserView)>)
    requires
        es.len() > 0,
    ensures
        run(st, members_ops(g, es)) == run(st, members_one_by_one(g, es)),
{
    lemma_one_by_one(st, g, es);
    lemma_member_shape(st, g, member_entries(g, es), member_ids(es), Tally::Users);
}

} // verus!
