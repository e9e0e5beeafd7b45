use std::collections::{HashMap, HashSet};

use bathbot_cache::change::{change_of, CacheChange};
use bathbot_cache::entity::{moved, was_inserted, Cache, GuildSnapshot, MemberEntry};
use bathbot_cache::keys::CacheKey;
use bathbot_cache::records::{CachedChannel, CachedGuild, CachedMember, CachedUser};
use bathbot_cache::store::{Command, StoreOp};

/// An in-memory backend with the semantics of the key-value store.
#[derive(Clone, Debug, Default, PartialEq)]
struct Backend {
    values: HashMap<String, Vec<u8>>,
    sets: HashMap<String, HashSet<u64>>,
}

impl Backend {
    fn run(&mut self, ops: &[StoreOp]) -> Vec<i64> {
        ops.iter().map(|op| self.step(&op.cmd)).collect()
    }

    fn step(&mut self, cmd: &Command) -> i64 {
        match cmd {
            Command::Put { key, bytes } => {
                self.values.insert(key.render(), bytes.clone());
                0
            }
            Command::PutMany { items } => {
                for (key, bytes) in items {
                    self.values.insert(key.render(), bytes.clone());
                }
                0
            }
            Command::AddToSet { key, ids } => {
                let set = self.sets.entry(key.render()).or_default();
                ids.iter().filter(|id| set.insert(**id)).count() as i64
            }
            Command::RemoveFromSet { key, id } => {
                let removed = self.sets.get_mut(&key.render()).is_some_and(|s| s.remove(id));
                i64::from(removed)
            }
            Command::MoveBetweenSets { from, to, id } => {
                let moved = self.sets.get_mut(&from.render()).is_some_and(|s| s.remove(id));
                if moved {
                    self.sets.entry(to.render()).or_default().insert(*id);
                }
                i64::from(moved)
            }
            Command::Delete { key } => {
                let a = self.values.remove(&key.render()).is_some();
                let b = self.sets.remove(&key.render()).is_some();
                i64::from(a || b)
            }
        }
    }

    fn has(&self, key: CacheKey, id: u64) -> bool {
        self.sets.get(&key.render()).is_some_and(|s| s.contains(&id))
    }

    /// Runs the plan and the change its replies make.
    fn apply(&mut self, ops: &Vec<StoreOp>) -> CacheChange {
        let replies = self.run(ops);
        change_of(ops, &replies).unwrap()
    }

    fn mark_unavailable(&mut self, guild: u64) -> CacheChange {
        let mut ops = Cache::new().cache_unavailable_guild(guild);
        let mut replies = self.run(&ops);
        let finish = Cache::new().finish_unavailable_guild(guild, moved(replies[0]));
        replies.extend(self.run(&finish));
        ops.extend(finish);
        change_of(&ops, &replies).unwrap()
    }
}

fn zero() -> CacheChange {
    CacheChange::default()
}

fn snapshot(id: u64) -> GuildSnapshot {
    GuildSnapshot {
        guild: CachedGuild { id, name: "guild".to_string(), owner_id: 1, member_count: 1 },
        channels: vec![CachedChannel { id: 3, guild_id: Some(id), kind: 0, name: None }],
        threads: vec![],
        members: vec![],
        roles: vec![],
    }
}

#[test]
fn caching_a_channel_twice_changes_nothing_the_second_time() {
    let mut backend = Backend::default();
    let c = CachedChannel { id: 42, guild_id: Some(7), kind: 0, name: Some("general".to_string()) };
    let first = backend.apply(&Cache::new().cache_channel(&c));
    assert_eq!(first, CacheChange { channels: 1, ..zero() });
    assert!(backend.values.contains_key("channel:42"));
    assert!(backend.has(CacheKey::GuildChannels(7), 42));
    assert!(backend.has(CacheKey::Channels, 42));
    let after_first = backend.clone();
    let second = backend.apply(&Cache::new().cache_channel(&c));
    assert_eq!(second, CacheChange { channels: 0, ..zero() });
    assert_eq!(backend, after_first);
}

#[test]
fn set_insertion_is_exact() {
    let mut backend = Backend::default();
    let ops = Cache::new().insert_into_set(CacheKey::Users, 55);
    assert!(was_inserted(backend.run(&ops)[0]));
    assert!(!was_inserted(backend.run(&ops)[0]));
    assert!(!was_inserted(backend.run(&ops)[0]));
}

#[test]
fn a_guild_is_in_exactly_one_index() {
    let mut backend = Backend::default();
    backend.apply(&Cache::new().cache_guild(&snapshot(100)));
    assert!(backend.has(CacheKey::Guilds, 100));
    assert!(!backend.has(CacheKey::UnavailableGuilds, 100));

    let change = backend.mark_unavailable(100);
    assert_eq!(change, CacheChange { guilds: -1, unavailable_guilds: 1, ..zero() });
    assert!(!backend.values.contains_key("guild:100"));
    assert!(!backend.has(CacheKey::Guilds, 100));
    assert!(backend.has(CacheKey::UnavailableGuilds, 100));

    // again, while it is unavailable: only the add is counted, and it adds nothing
    assert_eq!(backend.mark_unavailable(100), zero());
    assert!(backend.has(CacheKey::UnavailableGuilds, 100));

    let change = backend.apply(&Cache::new().cache_guild(&snapshot(100)));
    assert_eq!(change.guilds, 1);
    assert_eq!(change.unavailable_guilds, -1);
    assert!(backend.has(CacheKey::Guilds, 100));
    assert!(!backend.has(CacheKey::UnavailableGuilds, 100));

    // an unknown guild goes straight to the unavailable index
    assert_eq!(backend.mark_unavailable(5), CacheChange { unavailable_guilds: 1, ..zero() });

    let (guild, roles) = (snapshot(5).guild, vec![]);
    backend.apply(&Cache::new().cache_partial_guild(&guild, &roles));
    assert!(backend.has(CacheKey::Guilds, 5));
    assert!(!backend.has(CacheKey::UnavailableGuilds, 5));
}

#[test]
fn members_in_a_batch_or_one_by_one_leave_the_same_state() {
    let entry = |user: u64, nick: &str| MemberEntry {
        member: CachedMember { guild_id: 9, user_id: user, nick: Some(nick.to_string()) },
        user: CachedUser { id: user, name: format!("user{user}"), bot: false },
    };
    // the same user twice: the later entry wins either way
    let members = vec![entry(1, "a"), entry(2, "b"), entry(1, "c")];

    let mut batch = Backend::default();
    batch.sets.insert("users".to_string(), HashSet::from([2]));
    let mut single = batch.clone();

    let change = batch.apply(&Cache::new().cache_members(9, &members));
    assert_eq!(change, CacheChange { users: 1, ..zero() });
    for m in &members {
        single.apply(&Cache::new().cache_member(9, m));
    }
    assert_eq!(batch, single);
    assert!(batch.values.contains_key("member:9:1"));
    assert!(batch.has(CacheKey::GuildMembers(9), 2));
}
