//! The key space: every entity and index of the cache has exactly one key.
//!
//! A key is a value of [`CacheKey`]; [`CacheKey::render`] gives the text
//! under which the backend stores the entry, and
//! [`lemma_key_text_injective`] shows that different keys never share a
//! text.
use vstd::prelude::*;

use crate::text::{
    decimal, lacks, lemma_decimal_injective, lemma_decimal_lacks, lemma_split_at, push_decimal,
    push_str,
};

verus! {

/// The key of one entry of the backend.
#[derive(Clone, Copy, Debug, PartialEq, Eq, Structural, Hash)]
pub enum CacheKey {
    /// The stored channel with this id.
    Channel(u64),
    /// The stored guild with this id.
    Guild(u64),
    /// The stored role of a guild: guild id, role id.
    Role(u64, u64),
    /// The stored member of a guild: guild id, user id.
    Member(u64, u64),
    /// The stored user with this id.
    User(u64),
    /// The stored user of the bot itself.
    CurrentUser,
    /// The ids of a guild's channels.
    GuildChannels(u64),
    /// The ids of a guild's members.
    GuildMembers(u64),
    /// The ids of a guild's roles.
    GuildRoles(u64),
    /// The ids of every stored channel.
    Channels,
    /// The ids of every available guild.
    Guilds,
    /// The ids of every unavailable guild.
    UnavailableGuilds,
    /// The ids of every stored user.
    Users,
    /// The ids of every stored role.
    Roles,
}

pub open spec fn one_id(prefix: Seq<char>, id: u64) -> Seq<char> {
    prefix + seq![':'] + decimal(id as nat)
}

pub open spec fn two_ids(prefix: Seq<char>, a: u64, b: u64) -> Seq<char> {
    prefix + seq![':'] + decimal(a as nat) + seq![':'] + decimal(b as nat)
}

/// The text of a key: a family name, then each id in decimal after a colon.
pub open spec fn key_text(k: CacheKey) -> Seq<char> {
    match k {
        CacheKey::Channel(id) => one_id("channel"@, id),
        CacheKey::Guild(id) => one_id("guild"@, id),
        CacheKey::Role(g, r) => two_ids("role"@, g, r),
        CacheKey::Member(g, u) => two_ids("member"@, g, u),
        CacheKey::User(id) => one_id("user"@, id),
        CacheKey::CurrentUser => "current_user"@,
        CacheKey::GuildChannels(g) => one_id("guild_channels"@, g),
        CacheKey::GuildMembers(g) => one_id("guild_members"@, g),
        CacheKey::GuildRoles(g) => one_id("guild_roles"@, g),
        CacheKey::Channels => "channels"@,
        CacheKey::Guilds => "guilds"@,
        CacheKey::UnavailableGuilds => "unavailable_guilds"@,
        CacheKey::Users => "users"@,
        CacheKey::Roles => "roles"@,
    }
}

fn render_one(prefix: &str, id: u64) -> (r: String)
    ensures
        r@ == one_id(prefix@, id),
{
    let mut s = String::new();
    push_str(&mut s, prefix);
    push_str(&mut s, ":");
    proof { reveal_strlit(":"); }
    push_decimal(&mut s, id);
    s
}

fn render_two(prefix: &str, a: u64, b: u64) -> (r: String)
    ensures
        r@ == two_ids(prefix@, a, b),
{
    let mut s = render_one(prefix, a);
    push_str(&mut s, ":");
    proof { reveal_strlit(":"); }
    push_decimal(&mut s, b);
    s
}

impl CacheKey {
    /// The text under which the backend stores this entry.
    pub fn render(&self) -> (r: String)
        ensures
            r@ == key_text(*self),
    {
        match *self {
            CacheKey::Channel(id) => render_one("channel", id),
            CacheKey::Guild(id) => render_one("guild", id),
            CacheKey::Role(g, r) => render_two("role", g, r),
            CacheKey::Member(g, u) => render_two("member", g, u),
            CacheKey::User(id) => render_one("user", id),
            CacheKey::CurrentUser => String::from_str("current_user"),
            CacheKey::GuildChannels(g) => render_one("guild_channels", g),
            CacheKey::GuildMembers(g) => render_one("guild_members", g),
            CacheKey::GuildRoles(g) => render_one("guild_roles", g),
            CacheKey::Channels => String::from_str("channels"),
            CacheKey::Guilds => String::from_str("guilds"),
            CacheKey::UnavailableGuilds => String::from_str("unavailable_guilds"),
            CacheKey::Users => String::from_str("users"),
            CacheKey::Roles => String::from_str("roles"),
        }
    }
}

/// The family name of a key: its text up to the first colon.
pub open spec fn family(k: CacheKey) -> Seq<char> {
    match k {
        CacheKey::Channel(_) => "channel"@,
        CacheKey::Guild(_) => "guild"@,
        CacheKey::Role(_, _) => "role"@,
        CacheKey::Member(_, _) => "member"@,
        CacheKey::User(_) => "user"@,
        CacheKey::CurrentUser => "current_user"@,
        CacheKey::GuildChannels(_) => "guild_channels"@,
        CacheKey::GuildMembers(_) => "guild_members"@,
        CacheKey::GuildRoles(_) => "guild_roles"@,
        CacheKey::Channels => "channels"@,
        CacheKey::Guilds => "guilds"@,
        CacheKey::UnavailableGuilds => "unavailable_guilds"@,
        CacheKey::Users => "users"@,
        CacheKey::Roles => "roles"@,
    }
}

/// The ids that a key's text carries after its family name.
pub open spec fn key_ids(k: CacheKey) -> Seq<u64> {
    match k {
        CacheKey::Channel(a) => seq![a],
        CacheKey::Guild(a) => seq![a],
        CacheKey::Role(a, b) => seq![a, b],
        CacheKey::Member(a, b) => seq![a, b],
        CacheKey::User(a) => seq![a],
        CacheKey::GuildChannels(a) => seq![a],
        CacheKey::GuildMembers(a) => seq![a],
        CacheKey::GuildRoles(a) => seq![a],
        _ => Seq::empty(),
    }
}

proof fn lemma_family(k: CacheKey)
    ensures
        lacks(family(k), ':'),
{
    reveal_strlit("channel");
    reveal_strlit("guild");
    reveal_strlit("role");
    reveal_strlit("member");
    reveal_strlit("user");
    reveal_strlit("current_user");
    reveal_strlit("guild_channels");
    reveal_strlit("guild_members");
    reveal_strlit("guild_roles");
    reveal_strlit("channels");
    reveal_strlit("guilds");
    reveal_strlit("unavailable_guilds");
    reveal_strlit("users");
    reveal_strlit("roles");
}

/// The position of a key's variant among the variants of [`CacheKey`].
pub open spec fn variant(k: CacheKey) -> int {
    match k {
        CacheKey::Channel(_) => 0,
        CacheKey::Guild(_) => 1,
        CacheKey::Role(_, _) => 2,
        CacheKey::Member(_, _) => 3,
        CacheKey::User(_) => 4,
        CacheKey::CurrentUser => 5,
        CacheKey::GuildChannels(_) => 6,
        CacheKey::GuildMembers(_) => 7,
        CacheKey::GuildRoles(_) => 8,
        CacheKey::Channels => 9,
        CacheKey::Guilds => 10,
        CacheKey::UnavailableGuilds => 11,
        CacheKey::Users => 12,
        CacheKey::Roles => 13,
    }
}

/// The length and first character of a family name tell the variant.
pub open spec fn family_sign(k: CacheKey) -> (nat, char) {
    match k {
        CacheKey::Channel(_) => (7, 'c'),
        CacheKey::Guild(_) => (5, 'g'),
        CacheKey::Role(_, _) => (4, 'r'),
        CacheKey::Member(_, _) => (6, 'm'),
        CacheKey::User(_) => (4, 'u'),
        CacheKey::CurrentUser => (12, 'c'),
        CacheKey::GuildChannels(_) => (14, 'g'),
        CacheKey::GuildMembers(_) => (13, 'g'),
        CacheKey::GuildRoles(_) => (11, 'g'),
        CacheKey::Channels => (8, 'c'),
        CacheKey::Guilds => (6, 'g'),
        CacheKey::UnavailableGuilds => (18, 'u'),
        CacheKey::Users => (5, 'u'),
        CacheKey::Roles => (5, 'r'),
    }
}

proof fn lemma_family_sign(k: CacheKey)
    ensures
        family(k).len() == family_sign(k).0,
        family(k)[0] == family_sign(k).1,
{
    reveal_strlit("channel");
    reveal_strlit("guild");
    reveal_strlit("role");
    reveal_strlit("member");
    reveal_strlit("user");
    reveal_strlit("current_user");
    reveal_strlit("guild_channels");
    reveal_strlit("guild_members");
    reveal_strlit("guild_roles");
    reveal_strlit("channels");
    reveal_strlit("guilds");
    reveal_strlit("unavailable_guilds");
    reveal_strlit("users");
    reveal_strlit("roles");
}

/// Keys with the same family name are of the same variant.
proof fn lemma_family_variant(a: CacheKey, b: CacheKey)
    requires
        family(a) == family(b),
    ensures
        variant(a) == variant(b),
{
    lemma_family_sign(a);
    lemma_family_sign(b);
}

/// Keys of the same variant with the same ids are equal.
proof fn lemma_same_variant(a: CacheKey, b: CacheKey)
    requires
        variant(a) == variant(b),
        key_ids(a) == key_ids(b),
    ensures
        a == b,
{
    match a {
        CacheKey::Role(x, y) => {
            match b {
                CacheKey::Role(u, v) => {
                    assert(seq![x, y][0] == x && seq![x, y][1] == y);
                    assert(seq![u, v][0] == u && seq![u, v][1] == v);
                },
                _ => assert(variant(b) != 2),
            }
        },
        CacheKey::Member(x, y) => {
            match b {
                CacheKey::Member(u, v) => {
                    assert(seq![x, y][0] == x && seq![x, y][1] == y);
                    assert(seq![u, v][0] == u && seq![u, v][1] == v);
                },
                _ => assert(variant(b) != 3),
            }
        },
        CacheKey::Channel(x) => {
            match b {
                CacheKey::Channel(u) => {
                    assert(seq![x][0] == x);
                    assert(seq![u][0] == u);
                },
                _ => assert(variant(b) != 0),
            }
        },
        CacheKey::Guild(x) => {
            match b {
                CacheKey::Guild(u) => {
                    assert(seq![x][0] == x);
                    assert(seq![u][0] == u);
                },
                _ => assert(variant(b) != 1),
            }
        },
        CacheKey::User(x) => {
            match b {
                CacheKey::User(u) => {
                    assert(seq![x][0] == x);
                    assert(seq![u][0] == u);
                },
                _ => assert(variant(b) != 4),
            }
        },
        CacheKey::GuildChannels(x) => {
            match b {
                CacheKey::GuildChannels(u) => {
                    assert(seq![x][0] == x);
                    assert(seq![u][0] == u);
                },
                _ => assert(variant(b) != 6),
            }
        },
        CacheKey::GuildMembers(x) => {
            match b {
                CacheKey::GuildMembers(u) => {
                    assert(seq![x][0] == x);
                    assert(seq![u][0] == u);
                },
                _ => assert(variant(b) != 7),
            }
        },
        CacheKey::GuildRoles(x) => {
            match b {
                CacheKey::GuildRoles(u) => {
                    assert(seq![x][0] == x);
                    assert(seq![u][0] == u);
                },
                _ => assert(variant(b) != 8),
            }
        },
        _ => {},
    }
}

/// The text of a key after its family name and the colon that follows it.
pub open spec fn ids_text(k: CacheKey) -> Seq<char> {
    let ids = key_ids(k);
    if ids.len() == 1 {
        decimal(ids[0] as nat)
    } else {
        decimal(ids[0] as nat) + seq![':'] + decimal(ids[1] as nat)
    }
}

proof fn lemma_key_shape(k: CacheKey)
    ensures
        key_ids(k).len() == 0 ==> key_text(k) == family(k),
        key_ids(k).len() > 0 ==> key_text(k) == family(k) + seq![':'] + ids_text(k),
        key_ids(k).len() <= 2,
{
    match k {
        CacheKey::Role(x, y) => {
            assert(seq![x, y][0] == x && seq![x, y][1] == y);
            assert(key_text(k) =~= family(k) + seq![':'] + ids_text(k));
        },
        CacheKey::Member(x, y) => {
            assert(seq![x, y][0] == x && seq![x, y][1] == y);
            assert(key_text(k) =~= family(k) + seq![':'] + ids_text(k));
        },
        _ => {
            if key_ids(k).len() > 0 {
                assert(key_ids(k).len() == 1);
                assert(key_text(k) =~= family(k) + seq![':'] + ids_text(k));
            }
        },
    }
}

/// Different keys have different texts: no two entries of the backend share
/// a key.
pub proof fn lemma_key_text_injective(a: CacheKey, b: CacheKey)
    requires
        key_text(a) == key_text(b),
    ensures
        a == b,
{
    lemma_family(a);
    lemma_family(b);
    lemma_key_shape(a);
    lemma_key_shape(b);
    let (na, nb) = (key_ids(a).len(), key_ids(b).len());
    if na == 0 && nb == 0 {
        lemma_family_variant(a, b);
        assert(key_ids(a) =~= key_ids(b));
        lemma_same_variant(a, b);
    } else if na == 0 {
        assert(key_text(b)[family(b).len() as int] == ':');
        assert(false);
    } else if nb == 0 {
        assert(key_text(a)[family(a).len() as int] == ':');
        assert(false);
    } else {
        lemma_split_at(family(a), ids_text(a), family(b), ids_text(b), ':');
        lemma_family_variant(a, b);
        lemma_same_variant_shape(a, b);
        let (ia, ib) = (key_ids(a), key_ids(b));
        if na == 1 {
            lemma_decimal_injective(ia[0] as nat, ib[0] as nat);
        } else {
            lemma_decimal_lacks(ia[0] as nat, ':');
            lemma_decimal_lacks(ib[0] as nat, ':');
            lemma_split_at(
                decimal(ia[0] as nat),
                decimal(ia[1] as nat),
                decimal(ib[0] as nat),
                decimal(ib[1] as nat),
                ':',
            );
            lemma_decimal_injective(ia[0] as nat, ib[0] as nat);
            lemma_decimal_injective(ia[1] as nat, ib[1] as nat);
        }
        assert(ia =~= ib);
        lemma_same_variant(a, b);
    }
}

proof fn lemma_same_variant_shape(a: CacheKey, b: CacheKey)
    requires
        variant(a) == variant(b),
    ensures
        key_ids(a).len() == key_ids(b).len(),
{
}

} // verus!
