//! The resource cache: memoized results of expensive outside lookups.
//!
//! Every resource kind has a key template and a time to live. A lookup runs
//! the fetch-validate-populate protocol, as two decisions around the outside
//! work that the caller performs:
//!
//! 1. [`lookup`] decides, from what reading the key gave, whether the cached
//!    bytes are served or the resource is fetched, and whether a fresh value
//!    may then be written back.
//! 2. [`populate`] encodes the freshly fetched value, says what to write back,
//!    and gives the caller the same archive a hit would have given.
//!
//! [`serve`] states the whole protocol over a model of the backend.
use vstd::prelude::*;

use vstd::slice::slice_to_vec;

use crate::entity::Cache;
use crate::records::{opt_view, CachedArchive, Record};
use crate::text::{
    decimal, lemma_decimal_injective, lemma_decimal_lacks, lemma_split_at, push_decimal, push_str,
};

verus! {

/// The game modes.
#[derive(Clone, Copy, Debug, PartialEq, Eq, Structural, Hash)]
pub enum GameMode {
    Osu,
    Taiko,
    Catch,
    Mania,
}

/// The number of a mode, as the game numbers them.
pub open spec fn mode_number(m: GameMode) -> nat {
    match m {
        GameMode::Osu => 0,
        GameMode::Taiko => 1,
        GameMode::Catch => 2,
        GameMode::Mania => 3,
    }
}

/// The name of a mode.
pub open spec fn mode_name(m: GameMode) -> Seq<char> {
    match m {
        GameMode::Osu => "osu"@,
        GameMode::Taiko => "taiko"@,
        GameMode::Catch => "fruits"@,
        GameMode::Mania => "mania"@,
    }
}

impl GameMode {
    pub fn number(self) -> (r: u64)
        ensures
            r == mode_number(self),
    {
        match self {
            GameMode::Osu => 0,
            GameMode::Taiko => 1,
            GameMode::Catch => 2,
            GameMode::Mania => 3,
        }
    }

    pub fn name(self) -> (r: &'static str)
        ensures
            r@ == mode_name(self),
    {
        match self {
            GameMode::Osu => "osu",
            GameMode::Taiko => "taiko",
            GameMode::Catch => "fruits",
            GameMode::Mania => "mania",
        }
    }
}

/// The entry point of the resource cache.
pub struct RedisManager {}

impl RedisManager {
    pub fn new() -> (r: RedisManager) {
        RedisManager {}
    }
}

/// A kind of cached outside resource, with the parameters that its result
/// depends on.
pub enum Resource {
    /// All badges.
    Badges,
    /// All medals.
    Medals,
    /// A medal ranking, by the name of its form.
    MedalRanking { form: String },
    /// A page of the performance ranking of a mode, for all countries or one.
    PpRanking { mode: GameMode, page: u32, country: Option<String> },
    /// The best scores of a time frame in a mode.
    BestScores { timeframe: u8, mode: GameMode },
    /// The countries that have snipe data in a mode.
    SnipeCountries { mode: GameMode },
    /// The difficulties of a map, for one command and page.
    MapDiffs { command: u64, index: u32, map: String },
    /// Whether a streamer is live.
    TwitchStream { user: u64 },
    /// The last video of a streamer.
    TwitchVod { user: u64 },
}

pub open spec fn num(n: nat) -> Seq<char> {
    decimal(n)
}

/// The key of a resource: a fixed name and every parameter, each after an
/// underscore.
pub open spec fn resource_key(r: Resource) -> Seq<char> {
    match r {
        Resource::Badges => "osekai_badges"@,
        Resource::Medals => "osekai_medals"@,
        Resource::MedalRanking { form } => "osekai_ranking_"@ + form@,
        Resource::PpRanking { mode, page, country } => {
            let base = "pp_ranking_"@ + num(mode_number(mode)) + "_"@ + num(page as nat);
            match country {
                Some(c) => base + "_"@ + c@,
                None => base,
            }
        },
        Resource::BestScores { timeframe, mode } => "osustats_best_"@ + num(timeframe as nat) + "_"@
            + num(mode_number(mode)),
        Resource::SnipeCountries { mode } => "snipe_countries_"@ + mode_name(mode),
        Resource::MapDiffs { command, index, map } => "diffs_"@ + num(command as nat) + "_"@ + num(
            index as nat,
        ) + "_"@ + map@,
        Resource::TwitchStream { user } => "twitch_stream_"@ + num(user as nat),
        Resource::TwitchVod { user } => "twitch_vod_"@ + num(user as nat),
    }
}

/// Ranking pages with different parameters have different keys: the mode,
/// the page and the country can be read back from the key.
pub proof fn lemma_ranking_key_injective(
    m1: GameMode,
    p1: u32,
    c1: Option<String>,
    m2: GameMode,
    p2: u32,
    c2: Option<String>,
)
    requires
        resource_key(Resource::PpRanking { mode: m1, page: p1, country: c1 }) == resource_key(
            Resource::PpRanking { mode: m2, page: p2, country: c2 },
        ),
    ensures
        m1 == m2,
        p1 == p2,
        opt_view(c1) == opt_view(c2),
{
    reveal_strlit("_");
    let pre = "pp_ranking_"@;
    let sep = seq!['_'];
    let tail1 = match c1 {
        Some(c) => sep + c@,
        None => Seq::empty(),
    };
    let tail2 = match c2 {
        Some(c) => sep + c@,
        None => Seq::empty(),
    };
    let rest1 = num(mode_number(m1)) + sep + (num(p1 as nat) + tail1);
    let rest2 = num(mode_number(m2)) + sep + (num(p2 as nat) + tail2);
    let k1 = resource_key(Resource::PpRanking { mode: m1, page: p1, country: c1 });
    let k2 = resource_key(Resource::PpRanking { mode: m2, page: p2, country: c2 });
    assert(k1 =~= pre + rest1);
    assert(k2 =~= pre + rest2);
    assert(rest1 =~= k1.subrange(pre.len() as int, k1.len() as int));
    assert(rest2 =~= k2.subrange(pre.len() as int, k2.len() as int));
    lemma_decimal_lacks(mode_number(m1), '_');
    lemma_decimal_lacks(mode_number(m2), '_');
    lemma_split_at(num(mode_number(m1)), num(p1 as nat) + tail1, num(mode_number(m2)), num(p2 as nat) + tail2, '_');
    lemma_decimal_injective(mode_number(m1), mode_number(m2));
    lemma_decimal_lacks(p1 as nat, '_');
    lemma_decimal_lacks(p2 as nat, '_');
    match (c1, c2) {
        (Some(a), Some(b)) => {
            assert(num(p1 as nat) + tail1 =~= num(p1 as nat) + sep + a@);
            assert(num(p2 as nat) + tail2 =~= num(p2 as nat) + sep + b@);
            lemma_split_at(num(p1 as nat), a@, num(p2 as nat), b@, '_');
        },
        (None, None) => {
            assert(num(p1 as nat) + tail1 =~= num(p1 as nat));
            assert(num(p2 as nat) + tail2 =~= num(p2 as nat));
        },
        (Some(a), None) => {
            let x = num(p1 as nat) + tail1;
            assert(x =~= num(p2 as nat));
            assert(x[num(p1 as nat).len() as int] == '_');
            assert(false);
        },
        (None, Some(b)) => {
            let y = num(p2 as nat) + tail2;
            assert(y =~= num(p1 as nat));
            assert(y[num(p2 as nat).len() as int] == '_');
            assert(false);
        },
    }
    lemma_decimal_injective(p1 as nat, p2 as nat);
}

/// How many seconds a cached resource stays valid.
pub open spec fn resource_expiry(r: Resource) -> u64 {
    match r {
        Resource::Badges => 7200,
        Resource::Medals => 3600,
        Resource::MedalRanking { .. } => 7200,
        Resource::PpRanking { .. } => 1800,
        Resource::BestScores { .. } => 3600,
        Resource::SnipeCountries { .. } => 43_200,
        Resource::MapDiffs { .. } => 30,
        Resource::TwitchStream { .. } => 60,
        Resource::TwitchVod { .. } => 60,
    }
}

impl Resource {
    /// The key under which this resource is cached.
    pub fn key(&self) -> (r: String)
        ensures
            r@ == resource_key(*self),
    {
        let mut s = String::new();
        match self {
            Resource::Badges => push_str(&mut s, "osekai_badges"),
            Resource::Medals => push_str(&mut s, "osekai_medals"),
            Resource::MedalRanking { form } => {
                push_str(&mut s, "osekai_ranking_");
                push_str(&mut s, form.as_str());
            },
            Resource::PpRanking { mode, page, country } => {
                push_str(&mut s, "pp_ranking_");
                push_decimal(&mut s, mode.number());
                push_str(&mut s, "_");
                push_decimal(&mut s, *page as u64);
                match country {
                    Some(c) => {
                        push_str(&mut s, "_");
                        push_str(&mut s, c.as_str());
                    },
                    None => {},
                }
            },
            Resource::BestScores { timeframe, mode } => {
                push_str(&mut s, "osustats_best_");
                push_decimal(&mut s, *timeframe as u64);
                push_str(&mut s, "_");
                push_decimal(&mut s, mode.number());
            },
            Resource::SnipeCountries { mode } => {
                push_str(&mut s, "snipe_countries_");
                push_str(&mut s, mode.name());
            },
            Resource::MapDiffs { command, index, map } => {
                push_str(&mut s, "diffs_");
                push_decimal(&mut s, *command);
                push_str(&mut s, "_");
                push_decimal(&mut s, *index as u64);
                push_str(&mut s, "_");
                push_str(&mut s, map.as_str());
            },
            Resource::TwitchStream { user } => {
                push_str(&mut s, "twitch_stream_");
                push_decimal(&mut s, *user);
            },
            Resource::TwitchVod { user } => {
                push_str(&mut s, "twitch_vod_");
                push_decimal(&mut s, *user);
            },
        }
        assert(s@ =~= resource_key(*self));
        s
    }

    /// How many seconds this resource stays cached.
    pub fn expire_seconds(&self) -> (r: u64)
        ensures
            r == resource_expiry(*self),
    {
        match self {
            Resource::Badges => 7200,
            Resource::Medals => 3600,
            Resource::MedalRanking { .. } => 7200,
            Resource::PpRanking { .. } => 1800,
            Resource::BestScores { .. } => 3600,
            Resource::SnipeCountries { .. } => 43_200,
            Resource::MapDiffs { .. } => 30,
            Resource::TwitchStream { .. } => 60,
            Resource::TwitchVod { .. } => 60,
        }
    }
}

/// The page of map difficulties that a 1-based index asks for: index `0` or
/// `1` is the first page, no index too; an index over 50 asks for nothing.
pub fn diffs_page(index: Option<u32>) -> (r: Option<u32>)
    ensures
        r == match index {
            Some(i) => if i <= 50 {
                Some(if i == 0 { 0u32 } else { (i - 1) as u32 })
            } else {
                None
            },
            None => Some(0u32),
        },
{
    match index {
        Some(i) => if i <= 50 {
            Some(i.saturating_sub(1))
        } else {
            None
        },
        None => Some(0),
    }
}

/// What reading a resource's key gave.
pub enum CacheRead {
    /// The key held these bytes.
    Hit(Vec<u8>),
    /// The key held nothing; the connection can be used to write back.
    Miss,
    /// The backend could not be reached.
    Unreachable,
}

/// What to do after reading a resource's key.
pub enum Lookup<T> {
    /// Serve the cached archive.
    Cached(CachedArchive<T>),
    /// Fetch the resource from its source; write it back afterwards only if
    /// `write_back`.
    Fetch { write_back: bool },
}

/// Decides, from what reading a key gave, whether to serve the cached bytes.
/// Bytes that do not hold a record of `T` count as a miss, so the fresh value
/// overwrites them; an unreachable backend counts as a miss with nothing to
/// write back to.
pub fn lookup<T: Record>(read: CacheRead) -> (r: Lookup<T>)
    ensures
        match read {
            CacheRead::Hit(b) => match T::parse(b@) {
                Some(v) => r matches Lookup::Cached(a) && a.bytes_view() == b@ && a.value_view()
                    == v && a.wf(),
                None => r matches Lookup::Fetch { write_back } && write_back,
            },
            CacheRead::Miss => r matches Lookup::Fetch { write_back } && write_back,
            CacheRead::Unreachable => r matches Lookup::Fetch { write_back } && !write_back,
        },
{
    match read {
        CacheRead::Hit(bytes) => match CachedArchive::<T>::open(bytes) {
            Ok(a) => Lookup::Cached(a),
            Err(_) => Lookup::Fetch { write_back: true },
        },
        CacheRead::Miss => Lookup::Fetch { write_back: true },
        CacheRead::Unreachable => Lookup::Fetch { write_back: false },
    }
}

/// A write of bytes under a text key, with the seconds after which it
/// expires, if it does.
pub struct StoreWrite {
    pub key: String,
    pub bytes: Vec<u8>,
    pub expire_seconds: Option<u64>,
}

impl Cache {
    /// The write of `bytes` under `key`, expiring after `expire_seconds`.
    pub fn store(key: &str, bytes: &[u8], expire_seconds: u64) -> (r: StoreWrite)
        ensures
            r.key@ == key@,
            r.bytes@ == bytes@,
            r.expire_seconds == Some(expire_seconds),
    {
        StoreWrite { key: String::from_str(key), bytes: slice_to_vec(bytes), expire_seconds: Some(expire_seconds) }
    }

    /// The write of `bytes` under `key`, without expiry.
    pub fn store_forever(key: &str, bytes: &[u8]) -> (r: StoreWrite)
        ensures
            r.key@ == key@,
            r.bytes@ == bytes@,
            r.expire_seconds is None,
    {
        StoreWrite { key: String::from_str(key), bytes: slice_to_vec(bytes), expire_seconds: None }
    }
}

/// The result of populating: the archive for the caller, and the write-back
/// if there is one.
pub struct Populated<T> {
    pub archive: CachedArchive<T>,
    pub write: Option<StoreWrite>,
}

/// Encodes a freshly fetched resource. The caller gets the archive that a
/// later hit on the written bytes gives; the bytes are written back under
/// the resource's key, with its expiry, only if `write_back`.
pub fn populate<T: Record>(resource: &Resource, fresh: T, write_back: bool) -> (r: Populated<T>)
    requires
        T::writable(fresh@),
    ensures
        r.archive.bytes_view() == T::wire(fresh@),
        r.archive.value_view() == fresh@,
        r.archive.wf(),
        T::parse(T::wire(fresh@)) == Some(fresh@),
        r.write is Some <==> write_back,
        r.write matches Some(w) ==> w.key@ == resource_key(*resource) && w.bytes@ == T::wire(fresh@)
            && w.expire_seconds == Some(resource_expiry(*resource)),
{
    let bytes = fresh.encode();
    proof { T::lemma_round_trip(fresh@); }
    let write = if write_back {
        let key = resource.key();
        Some(Cache::store(key.as_str(), bytes.as_slice(), resource.expire_seconds()))
    } else {
        None
    };
    let archive = CachedArchive::from_parts(bytes, fresh);
    Populated { archive, write }
}

/// What serving a resource from a backend that holds `cache` does, when the
/// source would give `fresh`: the backend afterwards, the number of fetches
/// from the source, the number of writes to the backend, and the value served.
pub open spec fn serve<T: Record>(cache: Map<Seq<char>, Seq<u8>>, key: Seq<char>, fresh: T::V) -> (
    Map<Seq<char>, Seq<u8>>,
    nat,
    nat,
    T::V,
) {
    if cache.contains_key(key) && T::parse(cache[key]) is Some {
        (cache, 0, 0, T::parse(cache[key])->0)
    } else {
        (cache.insert(key, T::wire(fresh)), 1, 1, fresh)
    }
}

/// On a cold cache, serving a resource fetches it once and writes it once;
/// serving it again while the entry lives fetches and writes nothing and
/// serves a value equal to the first, whatever the source would give then.
pub proof fn lemma_serve_twice<T: Record>(
    cache: Map<Seq<char>, Seq<u8>>,
    key: Seq<char>,
    fresh: T::V,
    later: T::V,
)
    requires
        !cache.contains_key(key),
        T::valid(fresh),
    ensures
        serve::<T>(cache, key, fresh).1 == 1,
        serve::<T>(cache, key, fresh).2 == 1,
        serve::<T>(serve::<T>(cache, key, fresh).0, key, later).1 == 0,
        serve::<T>(serve::<T>(cache, key, fresh).0, key, later).2 == 0,
        serve::<T>(serve::<T>(cache, key, fresh).0, key, later).3 == serve::<T>(cache, key, fresh).3,
{
    T::lemma_round_trip(fresh);
}

} // verus!
