//! The entity cache: which backend operations store a platform entity and
//! keep the indexes in step.
//!
//! Each `cache_*` method of [`Cache`] builds the operations of one cache
//! write. The caller runs them in order against the backend and hands the
//! integer replies to [`crate::change::change_of`], which gives the write's
//! [`CacheChange`]. Each method's result is stated as a sequence of model
//! operations (the `*_ops` spec functions), whose meaning
//! [`crate::store::run`] gives.
//!
//! Marking a guild unavailable takes two steps, since the second depends on
//! the backend's reply to the first: [`Cache::cache_unavailable_guild`], then
//! [`Cache::finish_unavailable_guild`].
//!
//! [`CacheChange`]: crate::change::CacheChange
use vstd::prelude::*;
use vstd::slice::slice_to_vec;

use crate::keys::CacheKey;
use crate::records::{
    CachedChannel, CachedGuild, CachedMember, CachedRole, CachedUser, ChannelView, GuildView,
    MemberView, Record, RoleView, UserView,
};
use crate::store::{entries_view, plan_view, Command, CommandView, OpView, StoreOp, Tally};

verus! {

/// The entity cache. Each `cache_*` method gives the operations of one
/// write; none of them talks to the backend itself.
pub struct Cache {}

impl Cache {
    pub fn new() -> (r: Cache) {
        Cache {}
    }
}

pub open spec fn put_op(key: CacheKey, bytes: Seq<u8>) -> OpView {
    OpView { cmd: CommandView::Put { key, bytes }, tally: Tally::Ignored }
}

pub open spec fn add_op(key: CacheKey, ids: Seq<u64>, tally: Tally) -> OpView {
    OpView { cmd: CommandView::AddToSet { key, ids }, tally }
}

pub open spec fn put_many_op(items: Seq<(CacheKey, Seq<u8>)>) -> OpView {
    OpView { cmd: CommandView::PutMany { items }, tally: Tally::Ignored }
}

pub open spec fn delete_op(key: CacheKey) -> OpView {
    OpView { cmd: CommandView::Delete { key }, tally: Tally::Ignored }
}

/// Caching one channel: store it, add its id to its guild's channel index
/// (if it has a guild), and to the global channel index, which is counted.
pub open spec fn channel_ops(c: ChannelView) -> Seq<OpView> {
    let put = put_op(CacheKey::Channel(c.id), CachedChannel::wire(c));
    let global = add_op(CacheKey::Channels, seq![c.id], Tally::Channels);
    match c.guild_id {
        Some(g) => seq![put, add_op(CacheKey::GuildChannels(g), seq![c.id], Tally::Ignored), global],
        None => seq![put, global],
    }
}

pub open spec fn channel_entry(c: ChannelView) -> (CacheKey, Seq<u8>) {
    (CacheKey::Channel(c.id), CachedChannel::wire(c))
}

pub open spec fn channel_views(cs: Seq<CachedChannel>) -> Seq<ChannelView> {
    cs.map_values(|c: CachedChannel| c@)
}

/// Caching the channels of a guild: one write of all entities, then the
/// guild's index and the counted global index, each with all ids at once.
pub open spec fn channels_ops(g: u64, cs: Seq<ChannelView>) -> Seq<OpView> {
    if cs.len() == 0 {
        Seq::empty()
    } else {
        let ids = cs.map_values(|c: ChannelView| c.id);
        seq![
            put_many_op(cs.map_values(|c: ChannelView| channel_entry(c))),
            add_op(CacheKey::GuildChannels(g), ids, Tally::Ignored),
            add_op(CacheKey::Channels, ids, Tally::Channels),
        ]
    }
}

fn put(key: CacheKey, bytes: Vec<u8>) -> (r: StoreOp)
    ensures
        r@ == put_op(key, bytes@),
{
    StoreOp { cmd: Command::Put { key, bytes }, tally: Tally::Ignored }
}

fn add_one(key: CacheKey, id: u64, tally: Tally) -> (r: StoreOp)
    ensures
        r@ == add_op(key, seq![id], tally),
{
    let mut ids = Vec::new();
    ids.push(id);
    assert(ids@ =~= seq![id]);
    StoreOp { cmd: Command::AddToSet { key, ids }, tally }
}

impl Cache {
    /// The operations that cache one channel.
    pub fn cache_channel(&self, c: &CachedChannel) -> (r: Vec<StoreOp>)
        requires
            CachedChannel::writable(c@),
        ensures
            plan_view(r@) == channel_ops(c@),
    {
        let mut ops = Vec::new();
        ops.push(put(CacheKey::Channel(c.id), c.encode()));
        match c.guild_id {
            Some(g) => ops.push(add_one(CacheKey::GuildChannels(g), c.id, Tally::Ignored)),
            None => {},
        }
        ops.push(add_one(CacheKey::Channels, c.id, Tally::Channels));
        assert(plan_view(ops@) =~= channel_ops(c@));
        ops
    }
}

impl Cache {
    /// The operations that cache the channels of guild `guild`; none for no
    /// channels.
    pub fn cache_channels(&self, guild: u64, channels: &Vec<CachedChannel>) -> (r: Vec<StoreOp>)
        requires
            forall|i: int| 0 <= i < channels@.len() ==> CachedChannel::writable(#[trigger] channels@[i]@),
        ensures
            plan_view(r@) == channels_ops(guild, channel_views(channels@)),
    {
        let ghost cs = channel_views(channels@);
        let mut ops = Vec::new();
        if channels.len() == 0 {
            assert(plan_view(ops@) =~= channels_ops(guild, cs));
            return ops;
        }
        let mut items: Vec<(CacheKey, Vec<u8>)> = Vec::new();
        let mut guild_ids: Vec<u64> = Vec::new();
        let mut all_ids: Vec<u64> = Vec::new();
        // one buffer for every encoding; each entry takes a copy of it
        let mut scratch: Vec<u8> = Vec::new();
        let mut i: usize = 0;
        while i < channels.len()
            invariant
                cs == channel_views(channels@),
                forall|j: int| 0 <= j < channels@.len() ==> CachedChannel::writable(#[trigger] channels@[j]@),
                i <= channels@.len(),
                entries_view(items@) =~= cs.take(i as int).map_values(|c: ChannelView| channel_entry(c)),
                guild_ids@ =~= cs.take(i as int).map_values(|c: ChannelView| c.id),
                all_ids@ =~= cs.take(i as int).map_values(|c: ChannelView| c.id),
            decreases channels@.len() - i,
        {
            let c = &channels[i];
            let bytes = c.encode();
            let ghost prev = items@;
            let ghost entry = (CacheKey::Channel(c.id), bytes@);
            assert(entry == channel_entry(cs[i as int]));
            items.push((CacheKey::Channel(c.id), bytes));
            assert(entries_view(items@) =~= entries_view(prev).push(entry));
            guild_ids.push(c.id);
            all_ids.push(c.id);
            i = i + 1;
            assert(cs.take(i as int) =~= cs.take(i - 1).push(cs[i - 1]));
        }
        assert(cs.take(i as int) =~= cs);
        ops.push(StoreOp { cmd: Command::PutMany { items }, tally: Tally::Ignored });
        ops.push(StoreOp { cmd: Command::AddToSet { key: CacheKey::GuildChannels(guild), ids: guild_ids }, tally: Tally::Ignored });
        ops.push(StoreOp { cmd: Command::AddToSet { key: CacheKey::Channels, ids: all_ids }, tally: Tally::Channels });
        assert(plan_view(ops@) =~= channels_ops(guild, cs));
        ops
    }
}

pub open spec fn remove_op(key: CacheKey, id: u64, tally: Tally) -> OpView {
    OpView { cmd: CommandView::RemoveFromSet { key, id }, tally }
}

pub open spec fn move_op(from: CacheKey, to: CacheKey, id: u64, tally: Tally) -> OpView {
    OpView { cmd: CommandView::MoveBetweenSets { from, to, id }, tally }
}

/// A member of a guild together with its user.
#[derive(Clone, Debug)]
pub struct MemberEntry {
    pub member: CachedMember,
    pub user: CachedUser,
}

impl View for MemberEntry {
    type V = (MemberView, UserView);

    open spec fn view(&self) -> (MemberView, UserView) {
        (self.member@, self.user@)
    }
}

/// The two entities that caching a member writes: the member, keyed by guild
/// and user id, then the user.
pub open spec fn member_pair(g: u64, e: (MemberView, UserView)) -> Seq<(CacheKey, Seq<u8>)> {
    seq![
        (CacheKey::Member(g, e.1.id), CachedMember::wire(e.0)),
        (CacheKey::User(e.1.id), CachedUser::wire(e.1)),
    ]
}

/// The entities of several members, each member followed by its user.
pub open spec fn member_entries(g: u64, es: Seq<(MemberView, UserView)>) -> Seq<(CacheKey, Seq<u8>)>
    decreases es.len(),
{
    if es.len() == 0 {
        Seq::empty()
    } else {
        member_entries(g, es.drop_last()) + member_pair(g, es.last())
    }
}

pub open spec fn member_ids(es: Seq<(MemberView, UserView)>) -> Seq<u64> {
    es.map_values(|e: (MemberView, UserView)| e.1.id)
}

/// Caching one member of guild `g`: store member and user, add the user's id
/// to the guild's member index and to the counted global user index.
pub open spec fn member_ops(g: u64, e: (MemberView, UserView)) -> Seq<OpView> {
    seq![
        put_many_op(member_pair(g, e)),
        add_op(CacheKey::GuildMembers(g), seq![e.1.id], Tally::Ignored),
        add_op(CacheKey::Users, seq![e.1.id], Tally::Users),
    ]
}

/// Caching the members of guild `g` in one batch.
pub open spec fn members_ops(g: u64, es: Seq<(MemberView, UserView)>) -> Seq<OpView> {
    if es.len() == 0 {
        Seq::empty()
    } else {
        seq![
            put_many_op(member_entries(g, es)),
            add_op(CacheKey::GuildMembers(g), member_ids(es), Tally::Ignored),
            add_op(CacheKey::Users, member_ids(es), Tally::Users),
        ]
    }
}

pub open spec fn entry_views(es: Seq<MemberEntry>) -> Seq<(MemberView, UserView)> {
    es.map_values(|e: MemberEntry| e@)
}

impl Cache {
    /// The operations that cache one member of guild `guild`.
    pub fn cache_member(&self, guild: u64, entry: &MemberEntry) -> (r: Vec<StoreOp>)
        ensures
            plan_view(r@) == member_ops(guild, entry@),
    {
        let mut items: Vec<(CacheKey, Vec<u8>)> = Vec::new();
        items.push((CacheKey::Member(guild, entry.user.id), entry.member.encode()));
        items.push((CacheKey::User(entry.user.id), entry.user.encode()));
        assert(entries_view(items@) =~= member_pair(guild, entry@));
        let mut ops = Vec::new();
        ops.push(StoreOp { cmd: Command::PutMany { items }, tally: Tally::Ignored });
        ops.push(add_one(CacheKey::GuildMembers(guild), entry.user.id, Tally::Ignored));
        ops.push(add_one(CacheKey::Users, entry.user.id, Tally::Users));
        assert(plan_view(ops@) =~= member_ops(guild, entry@));
        ops
    }
}

impl Cache {
    /// The operations that cache the members of guild `guild` in one batch; none
    /// for no members.
    pub fn cache_members(&self, guild: u64, members: &Vec<MemberEntry>) -> (r: Vec<StoreOp>)
        ensures
            plan_view(r@) == members_ops(guild, entry_views(members@)),
    {
        let ghost es = entry_views(members@);
        let mut ops = Vec::new();
        if members.len() == 0 {
            assert(plan_view(ops@) =~= members_ops(guild, es));
            return ops;
        }
        let mut items: Vec<(CacheKey, Vec<u8>)> = Vec::new();
        let mut guild_ids: Vec<u64> = Vec::new();
        let mut all_ids: Vec<u64> = Vec::new();
        // one buffer for every encoding; each entry takes a copy of it
        let mut scratch: Vec<u8> = Vec::new();
        let mut i: usize = 0;
        while i < members.len()
            invariant
                es == entry_views(members@),
                i <= members@.len(),
                entries_view(items@) =~= member_entries(guild, es.take(i as int)),
                guild_ids@ =~= member_ids(es.take(i as int)),
                all_ids@ =~= member_ids(es.take(i as int)),
            decreases members@.len() - i,
        {
            let e = &members[i];
            let ghost prev = items@;
            let mb = e.member.encode();
            let ub = e.user.encode();
            let ghost pair = seq![(CacheKey::Member(guild, e.user.id), mb@), (CacheKey::User(e.user.id), ub@)];
            assert(pair == member_pair(guild, es[i as int]));
            items.push((CacheKey::Member(guild, e.user.id), mb));
            items.push((CacheKey::User(e.user.id), ub));
            assert(entries_view(items@) =~= entries_view(prev) + pair);
            guild_ids.push(e.user.id);
            all_ids.push(e.user.id);
            i = i + 1;
            assert(es.take(i as int).drop_last() =~= es.take(i - 1));
            assert(es.take(i as int).last() == es[i - 1]);
            assert(member_ids(es.take(i as int)) =~= member_ids(es.take(i - 1)).push(es[i - 1].1.id));
        }
        assert(es.take(i as int) =~= es);
        ops.push(StoreOp { cmd: Command::PutMany { items }, tally: Tally::Ignored });
        ops.push(StoreOp { cmd: Command::AddToSet { key: CacheKey::GuildMembers(guild), ids: guild_ids }, tally: Tally::Ignored });
        ops.push(StoreOp { cmd: Command::AddToSet { key: CacheKey::Users, ids: all_ids }, tally: Tally::Users });
        assert(plan_view(ops@) =~= members_ops(guild, es));
        ops
    }
}

pub open spec fn role_entry(g: u64, r: RoleView) -> (CacheKey, Seq<u8>) {
    (CacheKey::Role(g, r.id), CachedRole::wire(r))
}

pub open spec fn role_views(rs: Seq<CachedRole>) -> Seq<RoleView> {
    rs.map_values(|r: CachedRole| r@)
}

/// Caching one role of guild `g`: store it, add its id to the guild's role
/// index and to the counted global role index.
pub open spec fn role_ops(g: u64, r: RoleView) -> Seq<OpView> {
    seq![
        put_op(CacheKey::Role(g, r.id), CachedRole::wire(r)),
        add_op(CacheKey::GuildRoles(g), seq![r.id], Tally::Ignored),
        add_op(CacheKey::Roles, seq![r.id], Tally::Roles),
    ]
}

/// Caching the roles of guild `g` in one batch.
pub open spec fn roles_ops(g: u64, rs: Seq<RoleView>) -> Seq<OpView> {
    if rs.len() == 0 {
        Seq::empty()
    } else {
        let ids = rs.map_values(|r: RoleView| r.id);
        seq![
            put_many_op(rs.map_values(|r: RoleView| role_entry(g, r))),
            add_op(CacheKey::GuildRoles(g), ids, Tally::Ignored),
            add_op(CacheKey::Roles, ids, Tally::Roles),
        ]
    }
}

impl Cache {
    /// The operations that cache one role of guild `guild`.
    pub fn cache_role(&self, guild: u64, role: &CachedRole) -> (r: Vec<StoreOp>)
        ensures
            plan_view(r@) == role_ops(guild, role@),
    {
        let mut ops = Vec::new();
        ops.push(put(CacheKey::Role(guild, role.id), role.encode()));
        ops.push(add_one(CacheKey::GuildRoles(guild), role.id, Tally::Ignored));
        ops.push(add_one(CacheKey::Roles, role.id, Tally::Roles));
        assert(plan_view(ops@) =~= role_ops(guild, role@));
        ops
    }
}

impl Cache {
    /// The operations that cache the roles of guild `guild` in one batch; none
    /// for no roles.
    pub fn cache_roles(&self, guild: u64, roles: &Vec<CachedRole>) -> (r: Vec<StoreOp>)
        ensures
            plan_view(r@) == roles_ops(guild, role_views(roles@)),
    {
        let ghost rs = role_views(roles@);
        let mut ops = Vec::new();
        if roles.len() == 0 {
            assert(plan_view(ops@) =~= roles_ops(guild, rs));
            return ops;
        }
        let mut items: Vec<(CacheKey, Vec<u8>)> = Vec::new();
        let mut guild_ids: Vec<u64> = Vec::new();
        let mut all_ids: Vec<u64> = Vec::new();
        // one buffer for every encoding; each entry takes a copy of it
        let mut scratch: Vec<u8> = Vec::new();
        let mut i: usize = 0;
        while i < roles.len()
            invariant
                rs == role_views(roles@),
                i <= roles@.len(),
                entries_view(items@) =~= rs.take(i as int).map_values(|r: RoleView| role_entry(guild, r)),
                guild_ids@ =~= rs.take(i as int).map_values(|r: RoleView| r.id),
                all_ids@ =~= rs.take(i as int).map_values(|r: RoleView| r.id),
            decreases roles@.len() - i,
        {
            let role = &roles[i];
            let bytes = role.encode();
            let ghost prev = items@;
            let ghost entry = (CacheKey::Role(guild, role.id), bytes@);
            assert(entry == role_entry(guild, rs[i as int]));
            items.push((CacheKey::Role(guild, role.id), bytes));
            assert(entries_view(items@) =~= entries_view(prev).push(entry));
            guild_ids.push(role.id);
            all_ids.push(role.id);
            i = i + 1;
            assert(rs.take(i as int) =~= rs.take(i - 1).push(rs[i - 1]));
        }
        assert(rs.take(i as int) =~= rs);
        ops.push(StoreOp { cmd: Command::PutMany { items }, tally: Tally::Ignored });
        ops.push(StoreOp { cmd: Command::AddToSet { key: CacheKey::GuildRoles(guild), ids: guild_ids }, tally: Tally::Ignored });
        ops.push(StoreOp { cmd: Command::AddToSet { key: CacheKey::Roles, ids: all_ids }, tally: Tally::Roles });
        assert(plan_view(ops@) =~= roles_ops(guild, rs));
        ops
    }
}

/// Caching a user: store it and add its id to the counted global user index.
pub open spec fn user_ops(u: UserView) -> Seq<OpView> {
    seq![put_op(CacheKey::User(u.id), CachedUser::wire(u)), add_op(CacheKey::Users, seq![u.id], Tally::Users)]
}

impl Cache {
    /// The operations that cache one user.
    pub fn cache_user(&self, user: &CachedUser) -> (r: Vec<StoreOp>)
        ensures
            plan_view(r@) == user_ops(user@),
    {
        let mut ops = Vec::new();
        ops.push(put(CacheKey::User(user.id), user.encode()));
        ops.push(add_one(CacheKey::Users, user.id, Tally::Users));
        assert(plan_view(ops@) =~= user_ops(user@));
        ops
    }
}

/// Caching the bot's own user: store it under its fixed key.
pub open spec fn current_user_ops(u: UserView) -> Seq<OpView> {
    seq![put_op(CacheKey::CurrentUser, CachedUser::wire(u))]
}

impl Cache {
    /// The operations that cache the bot's own user.
    pub fn cache_current_user(&self, user: &CachedUser) -> (r: Vec<StoreOp>)
        ensures
            plan_view(r@) == current_user_ops(user@),
    {
        let mut ops = Vec::new();
        ops.push(put(CacheKey::CurrentUser, user.encode()));
        assert(plan_view(ops@) =~= current_user_ops(user@));
        ops
    }
}

/// Storing a guild itself: store it, add its id to the counted index of
/// available guilds, and take it out of the index of unavailable guilds, the
/// removal counted against `unavailable_guilds`.
pub open spec fn guild_tail_ops(g: GuildView) -> Seq<OpView> {
    seq![
        put_op(CacheKey::Guild(g.id), CachedGuild::wire(g)),
        add_op(CacheKey::Guilds, seq![g.id], Tally::Guilds),
        remove_op(CacheKey::UnavailableGuilds, g.id, Tally::NoLongerUnavailable),
    ]
}

fn guild_tail_plan(guild: &CachedGuild) -> (r: Vec<StoreOp>)
    ensures
        plan_view(r@) == guild_tail_ops(guild@),
{
    let mut ops = Vec::new();
    ops.push(put(CacheKey::Guild(guild.id), guild.encode()));
    ops.push(add_one(CacheKey::Guilds, guild.id, Tally::Guilds));
    ops.push(StoreOp {
        cmd: Command::RemoveFromSet { key: CacheKey::UnavailableGuilds, id: guild.id },
        tally: Tally::NoLongerUnavailable,
    });
    assert(plan_view(ops@) =~= guild_tail_ops(guild@));
    ops
}

/// A guild as the platform sends it when it becomes available: the guild and
/// its channels, threads, members and roles.
pub struct GuildSnapshot {
    pub guild: CachedGuild,
    pub channels: Vec<CachedChannel>,
    pub threads: Vec<CachedChannel>,
    pub members: Vec<MemberEntry>,
    pub roles: Vec<CachedRole>,
}

pub open spec fn snapshot_ops(s: GuildSnapshot) -> Seq<OpView> {
    let id = s.guild.id;
    channels_ops(id, channel_views(s.channels@)) + channels_ops(id, channel_views(s.threads@))
        + members_ops(id, entry_views(s.members@)) + roles_ops(id, role_views(s.roles@))
        + guild_tail_ops(s.guild@)
}

pub open spec fn snapshot_writable(s: GuildSnapshot) -> bool {
    &&& forall|i: int|
        0 <= i < s.channels@.len() ==> CachedChannel::writable(#[trigger] s.channels@[i]@)
    &&& forall|i: int|
        0 <= i < s.threads@.len() ==> CachedChannel::writable(#[trigger] s.threads@[i]@)
}

impl Cache {
    /// The operations that cache a whole guild: its channels, threads, members
    /// and roles, each in one batch, then the guild itself.
    pub fn cache_guild(&self, snapshot: &GuildSnapshot) -> (r: Vec<StoreOp>)
        requires
            snapshot_writable(*snapshot),
        ensures
            plan_view(r@) == snapshot_ops(*snapshot),
    {
        let id = snapshot.guild.id;
        let mut ops = self.cache_channels(id, &snapshot.channels);
        let mut threads = self.cache_channels(id, &snapshot.threads);
        let mut members = self.cache_members(id, &snapshot.members);
        let mut roles = self.cache_roles(id, &snapshot.roles);
        let mut tail = guild_tail_plan(&snapshot.guild);
        let ghost (a, b, c, d, e) = (ops@, threads@, members@, roles@, tail@);
        ops.append(&mut threads);
        ops.append(&mut members);
        ops.append(&mut roles);
        ops.append(&mut tail);
        assert(ops@ =~= a + b + c + d + e);
        assert(plan_view(ops@) =~= plan_view(a) + plan_view(b) + plan_view(c) + plan_view(d) + plan_view(e));
        ops
    }
}

/// Caching a guild known only in part: its roles in one batch, then the
/// guild itself.
pub open spec fn partial_guild_ops(g: GuildView, rs: Seq<RoleView>) -> Seq<OpView> {
    roles_ops(g.id, rs) + guild_tail_ops(g)
}

impl Cache {
    /// The operations that cache a guild known only in part, with its roles.
    pub fn cache_partial_guild(&self, guild: &CachedGuild, roles: &Vec<CachedRole>) -> (r: Vec<StoreOp>)
        ensures
            plan_view(r@) == partial_guild_ops(guild@, role_views(roles@)),
    {
        let mut ops = self.cache_roles(guild.id, roles);
        let mut tail = guild_tail_plan(guild);
        let ghost (a, b) = (ops@, tail@);
        ops.append(&mut tail);
        assert(plan_view(ops@) =~= plan_view(a) + plan_view(b));
        ops
    }
}

/// The first step when a guild becomes unavailable: move its id from the
/// index of available guilds to that of unavailable ones. A move counts
/// `-1` guilds and `+1` unavailable guilds.
pub open spec fn unavailable_start_ops(g: u64) -> Seq<OpView> {
    seq![move_op(CacheKey::Guilds, CacheKey::UnavailableGuilds, g, Tally::BecameUnavailable)]
}

/// The second step, once the backend said whether the id moved. If it did,
/// the guild's entry and its channel, member and role indexes are deleted;
/// the entries of its children are left to expire. If it did not (the guild
/// was unavailable or unknown), its id is only added to the counted index of
/// unavailable guilds.
pub open spec fn unavailable_finish_ops(g: u64, moved: bool) -> Seq<OpView> {
    if moved {
        seq![
            delete_op(CacheKey::Guild(g)),
            delete_op(CacheKey::GuildChannels(g)),
            delete_op(CacheKey::GuildMembers(g)),
            delete_op(CacheKey::GuildRoles(g)),
        ]
    } else {
        seq![add_op(CacheKey::UnavailableGuilds, seq![g], Tally::UnavailableGuilds)]
    }
}

fn delete(key: CacheKey) -> (r: StoreOp)
    ensures
        r@ == delete_op(key),
{
    StoreOp { cmd: Command::Delete { key }, tally: Tally::Ignored }
}

impl Cache {
    /// The first step of marking guild `guild` unavailable.
    pub fn cache_unavailable_guild(&self, guild: u64) -> (r: Vec<StoreOp>)
        ensures
            plan_view(r@) == unavailable_start_ops(guild),
    {
        let mut ops = Vec::new();
        ops.push(StoreOp {
            cmd: Command::MoveBetweenSets { from: CacheKey::Guilds, to: CacheKey::UnavailableGuilds, id: guild },
            tally: Tally::BecameUnavailable,
        });
        assert(plan_view(ops@) =~= unavailable_start_ops(guild));
        ops
    }
}

/// Whether the reply to the first step says that the id moved.
pub fn moved(reply: i64) -> (r: bool)
    ensures
        r == (reply == 1),
{
    reply == 1
}

impl Cache {
    /// The second step of marking guild `guild` unavailable.
    pub fn finish_unavailable_guild(&self, guild: u64, moved: bool) -> (r: Vec<StoreOp>)
        ensures
            plan_view(r@) == unavailable_finish_ops(guild, moved),
    {
        let mut ops = Vec::new();
        if moved {
            ops.push(delete(CacheKey::Guild(guild)));
            ops.push(delete(CacheKey::GuildChannels(guild)));
            ops.push(delete(CacheKey::GuildMembers(guild)));
            ops.push(delete(CacheKey::GuildRoles(guild)));
        } else {
            ops.push(add_one(CacheKey::UnavailableGuilds, guild, Tally::UnavailableGuilds));
        }
        assert(plan_view(ops@) =~= unavailable_finish_ops(guild, moved));
        ops
    }
}

/// Adding one id to a set, uncounted.
pub open spec fn insert_ops(key: CacheKey, value: u64) -> Seq<OpView> {
    seq![add_op(key, seq![value], Tally::Ignored)]
}

impl Cache {
    /// The operation that adds `value` to the set under `key`.
    pub fn insert_into_set(&self, key: CacheKey, value: u64) -> (r: Vec<StoreOp>)
        ensures
            plan_view(r@) == insert_ops(key, value),
    {
        let mut ops = Vec::new();
        ops.push(add_one(key, value, Tally::Ignored));
        assert(plan_view(ops@) =~= insert_ops(key, value));
        ops
    }
}

/// Whether the reply to [`insert_into_set`] says that the value was new.
pub fn was_inserted(reply: i64) -> (r: bool)
    ensures
        r == (reply == 1),
{
    reply == 1
}

} // verus!
