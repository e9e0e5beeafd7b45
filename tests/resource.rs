use bathbot_cache::entity::Cache;
use bathbot_cache::records::{encode, CachedArchive, CachedStream, CachedUser, NichedStream};
use bathbot_cache::resource::{diffs_page, lookup, populate, CacheRead, GameMode, Lookup, Resource};

#[test]
fn resource_keys() {
    let r = Resource::PpRanking { mode: GameMode::Osu, page: 3, country: None };
    assert_eq!(r.key(), "pp_ranking_0_3");
    assert_eq!(r.expire_seconds(), 1800);
    let r = Resource::PpRanking { mode: GameMode::Mania, page: 12, country: Some("BE".to_string()) };
    assert_eq!(r.key(), "pp_ranking_3_12_BE");
    assert_eq!(Resource::Badges.key(), "osekai_badges");
    assert_eq!(Resource::Badges.expire_seconds(), 7200);
    assert_eq!(Resource::Medals.expire_seconds(), 3600);
    assert_eq!(Resource::MedalRanking { form: "rarity".to_string() }.key(), "osekai_ranking_rarity");
    assert_eq!(Resource::BestScores { timeframe: 2, mode: GameMode::Taiko }.key(), "osustats_best_2_1");
    let r = Resource::SnipeCountries { mode: GameMode::Catch };
    assert_eq!(r.key(), "snipe_countries_fruits");
    assert_eq!(r.expire_seconds(), 43_200);
    let r = Resource::MapDiffs { command: 5, index: 0, map: "abc".to_string() };
    assert_eq!(r.key(), "diffs_5_0_abc");
    assert_eq!(r.expire_seconds(), 30);
    assert_eq!(Resource::TwitchStream { user: 8 }.key(), "twitch_stream_8");
    assert_eq!(Resource::TwitchVod { user: 8 }.key(), "twitch_vod_8");
    assert_eq!(Resource::TwitchVod { user: 8 }.expire_seconds(), 60);
}

#[test]
fn diffs_pages() {
    assert_eq!(diffs_page(None), Some(0));
    assert_eq!(diffs_page(Some(0)), Some(0));
    assert_eq!(diffs_page(Some(1)), Some(0));
    assert_eq!(diffs_page(Some(50)), Some(49));
    assert_eq!(diffs_page(Some(51)), None);
}

#[test]
fn cold_then_warm_fetch() {
    let resource = Resource::PpRanking { mode: GameMode::Osu, page: 3, country: None };
    let mut backend: Option<Vec<u8>> = None;
    let mut fetches = 0;
    let mut writes = 0;
    let mut served = Vec::new();
    for _ in 0..2 {
        let read = match &backend {
            Some(bytes) => CacheRead::Hit(bytes.clone()),
            None => CacheRead::Miss,
        };
        match lookup::<CachedUser>(read) {
            Lookup::Cached(archive) => served.push(archive.value().name.clone()),
            Lookup::Fetch { write_back } => {
                fetches += 1;
                let fresh = CachedUser { id: fetches, name: format!("fetch{fetches}"), bot: false };
                let populated = populate(&resource, fresh, write_back);
                if let Some(w) = populated.write {
                    assert_eq!(w.key, "pp_ranking_0_3");
                    assert_eq!(w.expire_seconds, Some(1800));
                    writes += 1;
                    backend = Some(w.bytes);
                }
                served.push(populated.archive.value().name.clone());
            }
        }
    }
    assert_eq!(fetches, 1);
    assert_eq!(writes, 1);
    assert_eq!(served, vec!["fetch1".to_string(), "fetch1".to_string()]);
}

#[test]
fn unreachable_backend_is_not_written() {
    match lookup::<CachedUser>(CacheRead::Unreachable) {
        Lookup::Fetch { write_back } => assert!(!write_back),
        Lookup::Cached(_) => panic!("nothing to serve"),
    }
    let populated = populate(&Resource::Badges, CachedUser { id: 1, name: "b".to_string(), bot: true }, false);
    assert!(populated.write.is_none());
    assert_eq!(populated.archive.as_bytes(), encode(&CachedUser { id: 1, name: "b".to_string(), bot: true }).as_slice());
}

#[test]
fn corrupt_entry_is_refetched_and_overwritten() {
    match lookup::<CachedUser>(CacheRead::Hit(vec![1, 2, 3])) {
        Lookup::Fetch { write_back } => assert!(write_back),
        Lookup::Cached(_) => panic!("corrupt bytes must not be served"),
    }
}

#[test]
fn offline_stream_is_cached_as_the_niche() {
    let resource = Resource::TwitchStream { user: 8 };
    let populated = populate(&resource, NichedStream { stream: None }, true);
    let write = populated.write.unwrap();
    assert_eq!(write.bytes, vec![0u8; 8]);
    assert_eq!(write.expire_seconds, Some(60));
    // a later read serves "not live" from the cache instead of fetching
    match lookup::<NichedStream>(CacheRead::Hit(write.bytes)) {
        Lookup::Cached(archive) => {
            assert!(archive.value().stream.is_none());
            assert!(archive.try_cast().is_err());
        }
        Lookup::Fetch { .. } => panic!("an offline stream is a hit"),
    }
}

#[test]
fn live_stream_casts_to_a_plain_archive() {
    let live = CachedStream { user_id: 8, live: true, title: "farming".to_string() };
    let bytes = encode(&live);
    let niched = CachedArchive::<NichedStream>::open(bytes.clone()).unwrap();
    let plain = niched.try_cast().unwrap();
    assert_eq!(plain.as_bytes(), bytes.as_slice());
    assert_eq!(plain.value().title, "farming");
    assert!(plain.value().live);
    assert!(CachedArchive::<CachedStream>::open(vec![0u8; 8]).is_err());
}

#[test]
fn plain_stores() {
    let w = Cache::store("k", &[1, 2], 30);
    assert_eq!((w.key.as_str(), w.bytes.as_slice(), w.expire_seconds), ("k", &[1u8, 2][..], Some(30)));
    let w = Cache::store_forever("k", &[3]);
    assert_eq!(w.expire_seconds, None);
    assert_eq!(w.bytes, vec![3]);
}
