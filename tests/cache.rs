use bathbot_cache::change::{change_of, CacheChange};
use bathbot_cache::entity::{moved, was_inserted, Cache, GuildSnapshot, MemberEntry};
use bathbot_cache::keys::CacheKey;
use bathbot_cache::records::{CachedChannel, CachedGuild, CachedMember, CachedRole, CachedUser};
use bathbot_cache::store::{Command, StoreOp, Tally};

fn channel(id: u64, guild: Option<u64>) -> CachedChannel {
    CachedChannel { id, guild_id: guild, kind: 0, name: Some(format!("chan{id}")) }
}

fn user(id: u64) -> CachedUser {
    CachedUser { id, name: format!("user{id}"), bot: false }
}

fn entry(guild: u64, id: u64) -> MemberEntry {
    MemberEntry {
        member: CachedMember { guild_id: guild, user_id: id, nick: None },
        user: user(id),
    }
}

fn added_to(op: &StoreOp) -> Option<(CacheKey, Vec<u64>)> {
    match &op.cmd {
        Command::AddToSet { key, ids } => Some((*key, ids.clone())),
        _ => None,
    }
}

#[test]
fn channel_in_guild_scenario() {
    let c = channel(42, Some(7));
    let ops = Cache::new().cache_channel(&c);
    assert_eq!(ops.len(), 3);
    match &ops[0].cmd {
        Command::Put { key, .. } => {
            assert_eq!(*key, CacheKey::Channel(42));
            assert_eq!(key.render(), "channel:42");
        }
        _ => panic!("expected a put"),
    }
    let (k, ids) = added_to(&ops[1]).unwrap();
    assert_eq!(k.render(), "guild_channels:7");
    assert_eq!(ids, vec![42]);
    let (k, ids) = added_to(&ops[2]).unwrap();
    assert_eq!(k.render(), "channels");
    assert_eq!(ids, vec![42]);
    assert_eq!(ops[2].tally, Tally::Channels);

    // the backend reports the id as new in the global index
    let change = change_of(&ops, &vec![0, 1, 1]).unwrap();
    assert_eq!(change, CacheChange { channels: 1, guilds: 0, roles: 0, unavailable_guilds: 0, users: 0 });
    // the second time the global index already holds it
    let change = change_of(&ops, &vec![0, 0, 0]).unwrap();
    assert_eq!(change, CacheChange::default());
}

#[test]
fn channel_without_guild_touches_no_guild_index() {
    let ops = Cache::new().cache_channel(&channel(5, None));
    assert_eq!(ops.len(), 2);
    assert_eq!(added_to(&ops[1]).unwrap().0, CacheKey::Channels);
}

#[test]
fn unavailable_guild_scenario() {
    let start = Cache::new().cache_unavailable_guild(100);
    match &start[0].cmd {
        Command::MoveBetweenSets { from, to, id } => {
            assert_eq!(*from, CacheKey::Guilds);
            assert_eq!(*to, CacheKey::UnavailableGuilds);
            assert_eq!(*id, 100);
        }
        _ => panic!("expected a move"),
    }
    let change = change_of(&start, &vec![1]).unwrap();
    assert_eq!(change, CacheChange { channels: 0, guilds: -1, roles: 0, unavailable_guilds: 1, users: 0 });
    assert!(moved(1));
    let finish = Cache::new().finish_unavailable_guild(100, true);
    match &finish[0].cmd {
        Command::Delete { key } => assert_eq!(key.render(), "guild:100"),
        _ => panic!("expected a delete"),
    }
    assert!(finish.iter().all(|op| matches!(op.cmd, Command::Delete { .. })));
}

#[test]
fn unavailable_guild_that_was_not_available() {
    let start = Cache::new().cache_unavailable_guild(9);
    assert!(!moved(0));
    assert_eq!(change_of(&start, &vec![0]).unwrap(), CacheChange::default());
    let finish = Cache::new().finish_unavailable_guild(9, false);
    assert_eq!(finish.len(), 1);
    let (k, ids) = added_to(&finish[0]).unwrap();
    assert_eq!(k, CacheKey::UnavailableGuilds);
    assert_eq!(ids, vec![9]);
    let change = change_of(&finish, &vec![1]).unwrap();
    assert_eq!(change.unavailable_guilds, 1);
    assert_eq!(change.guilds, 0);
}

#[test]
fn insert_into_set_reports_new_values() {
    let ops = Cache::new().insert_into_set(CacheKey::Users, 55);
    assert_eq!(added_to(&ops[0]).unwrap(), (CacheKey::Users, vec![55]));
    assert!(was_inserted(1));
    assert!(!was_inserted(0));
}

#[test]
fn batch_of_channels_uses_three_operations() {
    let cs = vec![channel(1, Some(3)), channel(2, Some(3))];
    let ops = Cache::new().cache_channels(3, &cs);
    assert_eq!(ops.len(), 3);
    match &ops[0].cmd {
        Command::PutMany { items } => {
            assert_eq!(items.len(), 2);
            assert_eq!(items[0].0, CacheKey::Channel(1));
            assert_eq!(items[1].0, CacheKey::Channel(2));
        }
        _ => panic!("expected a multi-set"),
    }
    assert_eq!(added_to(&ops[1]).unwrap(), (CacheKey::GuildChannels(3), vec![1, 2]));
    assert_eq!(added_to(&ops[2]).unwrap(), (CacheKey::Channels, vec![1, 2]));
    assert!(Cache::new().cache_channels(3, &vec![]).is_empty());
}

#[test]
fn members_batch_writes_what_single_writes_write() {
    let es = vec![entry(4, 10), entry(4, 11)];
    let batch = Cache::new().cache_members(4, &es);
    let mut single_items = Vec::new();
    for e in &es {
        let ops = Cache::new().cache_member(4, e);
        match &ops[0].cmd {
            Command::PutMany { items } => single_items.extend(items.iter().cloned()),
            _ => panic!("expected a multi-set"),
        }
    }
    match &batch[0].cmd {
        Command::PutMany { items } => assert_eq!(items, &single_items),
        _ => panic!("expected a multi-set"),
    }
    assert_eq!(added_to(&batch[1]).unwrap(), (CacheKey::GuildMembers(4), vec![10, 11]));
    assert_eq!(added_to(&batch[2]).unwrap(), (CacheKey::Users, vec![10, 11]));
    let change = change_of(&batch, &vec![0, 2, 1]).unwrap();
    assert_eq!(change.users, 1);
}

#[test]
fn roles_and_users() {
    let role = CachedRole { id: 8, name: "mod".to_string(), permissions: 3 };
    let ops = Cache::new().cache_role(2, &role);
    match &ops[0].cmd {
        Command::Put { key, .. } => assert_eq!(key.render(), "role:2:8"),
        _ => panic!("expected a put"),
    }
    assert_eq!(change_of(&ops, &vec![0, 1, 1]).unwrap().roles, 1);
    assert!(Cache::new().cache_roles(2, &vec![]).is_empty());
    assert_eq!(Cache::new().cache_roles(2, &vec![role]).len(), 3);
    let ops = Cache::new().cache_user(&user(77));
    assert_eq!(ops.len(), 2);
    assert_eq!(change_of(&ops, &vec![0, 1]).unwrap().users, 1);
    assert_eq!(CacheKey::Member(2, 77).render(), "member:2:77");
}

#[test]
fn guild_moves_to_available() {
    let snapshot = GuildSnapshot {
        guild: CachedGuild { id: 100, name: "g".to_string(), owner_id: 1, member_count: 2 },
        channels: vec![channel(1, Some(100))],
        threads: vec![],
        members: vec![entry(100, 5)],
        roles: vec![],
    };
    let ops = Cache::new().cache_guild(&snapshot);
    assert_eq!(ops.len(), 9);
    match &ops[8].cmd {
        Command::RemoveFromSet { key, id } => {
            assert_eq!(*key, CacheKey::UnavailableGuilds);
            assert_eq!(*id, 100);
        }
        _ => panic!("expected a removal"),
    }
    let replies = vec![0, 1, 1, 0, 1, 1, 0, 1, 1];
    let change = change_of(&ops, &replies).unwrap();
    assert_eq!(change, CacheChange { channels: 1, guilds: 1, roles: 0, unavailable_guilds: -1, users: 1 });
    let partial = Cache::new().cache_partial_guild(&snapshot.guild, &vec![]);
    assert_eq!(partial.len(), 3);
}

#[test]
fn change_needs_one_reply_per_operation() {
    let ops = Cache::new().cache_channel(&channel(42, Some(7)));
    assert!(change_of(&ops, &vec![0, 1]).is_none());
}

#[test]
fn change_rejects_overflowing_counts() {
    let mut ops = Cache::new().cache_channel(&channel(1, None));
    ops.extend(Cache::new().cache_channel(&channel(2, None)));
    assert!(change_of(&ops, &vec![0, i64::MAX, 0, 1]).is_none());
    assert_eq!(change_of(&ops, &vec![0, i64::MAX, 0, 0]).unwrap().channels, i64::MAX);
}

#[test]
fn changes_add_up() {
    let a = CacheChange { channels: 1, guilds: 2, roles: 3, unavailable_guilds: -1, users: 5 };
    let b = CacheChange { channels: 1, guilds: -1, roles: 0, unavailable_guilds: 1, users: 0 };
    assert_eq!(a.add(b), CacheChange { channels: 2, guilds: 1, roles: 3, unavailable_guilds: 0, users: 5 });
}
