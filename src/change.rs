//! [`CacheChange`]: how many index memberships one cache write added.
use vstd::prelude::*;

use crate::store::{plan_view, OpView, StoreOp, Tally};

verus! {

/// The counts of newly added index memberships from one cache operation.
/// A negative count means memberships were taken away.
#[derive(Clone, Copy, Debug, PartialEq, Eq, Structural)]
pub struct CacheChange {
    pub channels: i64,
    pub guilds: i64,
    pub roles: i64,
    pub unavailable_guilds: i64,
    pub users: i64,
}

/// The counts of a [`CacheChange`], as integers.
pub struct Counts {
    pub channels: int,
    pub guilds: int,
    pub roles: int,
    pub unavailable_guilds: int,
    pub users: int,
}

pub open spec fn zero_counts() -> Counts {
    Counts { channels: 0, guilds: 0, roles: 0, unavailable_guilds: 0, users: 0 }
}

pub open spec fn in_i64(x: int) -> bool {
    i64::MIN <= x <= i64::MAX
}

pub open spec fn counts_fit(c: Counts) -> bool {
    in_i64(c.channels) && in_i64(c.guilds) && in_i64(c.roles) && in_i64(c.unavailable_guilds)
        && in_i64(c.users)
}

impl View for CacheChange {
    type V = Counts;

    open spec fn view(&self) -> Counts {
        Counts {
            channels: self.channels as int,
            guilds: self.guilds as int,
            roles: self.roles as int,
            unavailable_guilds: self.unavailable_guilds as int,
            users: self.users as int,
        }
    }
}

pub open spec fn add_counts(a: Counts, b: Counts) -> Counts {
    Counts {
        channels: a.channels + b.channels,
        guilds: a.guilds + b.guilds,
        roles: a.roles + b.roles,
        unavailable_guilds: a.unavailable_guilds + b.unavailable_guilds,
        users: a.users + b.users,
    }
}

/// `c` after a reply `r` counted as `t`.
pub open spec fn count_reply(c: Counts, t: Tally, r: int) -> Counts {
    match t {
        Tally::Ignored => c,
        Tally::Channels => Counts { channels: c.channels + r, ..c },
        Tally::Users => Counts { users: c.users + r, ..c },
        Tally::Roles => Counts { roles: c.roles + r, ..c },
        Tally::Guilds => Counts { guilds: c.guilds + r, ..c },
        Tally::UnavailableGuilds => Counts { unavailable_guilds: c.unavailable_guilds + r, ..c },
        Tally::NoLongerUnavailable => Counts { unavailable_guilds: c.unavailable_guilds - r, ..c },
        Tally::BecameUnavailable => Counts {
            guilds: c.guilds - r,
            unavailable_guilds: c.unavailable_guilds + r,
            ..c
        },
    }
}

/// The counts after the first `n` replies.
pub open spec fn tally_upto(ops: Seq<OpView>, rs: Seq<int>, n: int) -> Counts
    decreases n,
{
    if n <= 0 {
        zero_counts()
    } else {
        count_reply(tally_upto(ops, rs, n - 1), ops[n - 1].tally, rs[n - 1])
    }
}

/// Every count after each of the first `n` replies fits an `i64`.
pub open spec fn fits_upto(ops: Seq<OpView>, rs: Seq<int>, n: int) -> bool
    decreases n,
{
    if n <= 0 {
        true
    } else {
        fits_upto(ops, rs, n - 1) && counts_fit(tally_upto(ops, rs, n))
    }
}

/// The change that the replies `rs` to `ops` make.
pub open spec fn tally(ops: Seq<OpView>, rs: Seq<int>) -> Counts {
    tally_upto(ops, rs, ops.len() as int)
}

pub open spec fn replies_view(rs: Seq<i64>) -> Seq<int> {
    rs.map_values(|x: i64| x as int)
}

impl CacheChange {
    /// No change.
    pub fn none() -> (r: CacheChange)
        ensures
            r@ == zero_counts(),
    {
        CacheChange { channels: 0, guilds: 0, roles: 0, unavailable_guilds: 0, users: 0 }
    }

    /// The sum of two changes, count by count.
    pub fn add(self, other: CacheChange) -> (r: CacheChange)
        requires
            counts_fit(add_counts(self@, other@)),
        ensures
            r@ == add_counts(self@, other@),
    {
        CacheChange {
            channels: self.channels + other.channels,
            guilds: self.guilds + other.guilds,
            roles: self.roles + other.roles,
            unavailable_guilds: self.unavailable_guilds + other.unavailable_guilds,
            users: self.users + other.users,
        }
    }
}

impl Default for CacheChange {
    fn default() -> (r: CacheChange)
        ensures
            r@ == zero_counts(),
    {
        CacheChange::none()
    }
}

fn count_one(c: CacheChange, t: Tally, r: i64) -> (out: Option<CacheChange>)
    ensures
        match out {
            Some(d) => d@ == count_reply(c@, t, r as int) && counts_fit(d@),
            None => !counts_fit(count_reply(c@, t, r as int)),
        },
{
    match t {
        Tally::Ignored => Some(c),
        Tally::Channels => match c.channels.checked_add(r) {
            Some(v) => Some(CacheChange { channels: v, ..c }),
            None => None,
        },
        Tally::Users => match c.users.checked_add(r) {
            Some(v) => Some(CacheChange { users: v, ..c }),
            None => None,
        },
        Tally::Roles => match c.roles.checked_add(r) {
            Some(v) => Some(CacheChange { roles: v, ..c }),
            None => None,
        },
        Tally::Guilds => match c.guilds.checked_add(r) {
            Some(v) => Some(CacheChange { guilds: v, ..c }),
            None => None,
        },
        Tally::UnavailableGuilds => match c.unavailable_guilds.checked_add(r) {
            Some(v) => Some(CacheChange { unavailable_guilds: v, ..c }),
            None => None,
        },
        Tally::NoLongerUnavailable => match c.unavailable_guilds.checked_sub(r) {
            Some(v) => Some(CacheChange { unavailable_guilds: v, ..c }),
            None => None,
        },
        Tally::BecameUnavailable => match (c.guilds.checked_sub(r), c.unavailable_guilds.checked_add(r)) {
            (Some(g), Some(u)) => Some(CacheChange { guilds: g, unavailable_guilds: u, ..c }),
            _ => None,
        },
    }
}

/// The change that the backend's `replies` to `ops` make, each reply counted
/// where its operation says. `None` when there is not one reply per operation,
/// or when a count leaves the range of `i64` on the way.
pub fn change_of(ops: &Vec<StoreOp>, replies: &Vec<i64>) -> (r: Option<CacheChange>)
    ensures
        r is Some <==> (replies@.len() == ops@.len() && fits_upto(
            plan_view(ops@),
            replies_view(replies@),
            ops@.len() as int,
        )),
        r matches Some(c) ==> c@ == tally(plan_view(ops@), replies_view(replies@)),
{
    if replies.len() != ops.len() {
        return None;
    }
    let ghost rs = replies_view(replies@);
    let ghost pv = plan_view(ops@);
    let mut acc = CacheChange::none();
    let mut i: usize = 0;
    while i < ops.len()
        invariant
            replies@.len() == ops@.len(),
            rs == replies_view(replies@),
            i <= ops@.len(),
            pv == plan_view(ops@),
            acc@ == tally_upto(pv, rs, i as int),
            fits_upto(pv, rs, i as int),
        decreases ops@.len() - i,
    {
        match count_one(acc, ops[i].tally, replies[i]) {
            Some(next) => {
                assert(rs[i as int] == replies@[i as int] as int);
                assert(pv[i as int].tally == ops@[i as int].tally);
                acc = next;
                i = i + 1;
            },
            None => {
                proof {
                    assert(rs[i as int] == replies@[i as int] as int);
                    assert(pv[i as int].tally == ops@[i as int].tally);
                    assert(tally_upto(pv, rs, i + 1) == count_reply(
                        acc@,
                        pv[i as int].tally,
                        rs[i as int],
                    ));
                    if fits_upto(pv, rs, ops@.len() as int) {
                        lemma_fits_prefix(pv, rs, i + 1, ops@.len() as int);
                    }
                }
                return None;
            },
        }
    }
    Some(acc)
}

pub proof fn lemma_fits_prefix(ops: Seq<OpView>, rs: Seq<int>, m: int, n: int)
    requires
        0 <= m <= n,
        fits_upto(ops, rs, n),
    ensures
        fits_upto(ops, rs, m),
    decreases n - m,
{
    if m < n {
        lemma_fits_prefix(ops, rs, m, n - 1);
    }
}

} // verus!
