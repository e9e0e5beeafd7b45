//! The arguments of the command that asks how much performance a player is
//! missing to reach a rank.
//!
//! The target is given among the first two arguments either as a rank (a
//! number, or a two-letter country code followed by a number, as `be50`),
//! or as the name of the player whose rank is to be reached. Either may be
//! prefixed: `rank=`, `reach=` or `r=` for the target, `user=`, `u=`,
//! `name=` or `n=` for the player.
use vstd::prelude::*;

use crate::records::opt_view;
use crate::args::{is_alpha, is_alpha_exec, is_digit, is_digit_exec, Args};
use crate::resource::GameMode;
use crate::text::{decimal, digit_value, digits_value, push_decimal, push_str};

verus! {

pub open spec fn all_digits(s: Seq<char>) -> bool {
    forall|i: int| 0 <= i < s.len() ==> is_digit(#[trigger] s[i])
}

/// `s` is a number: at least one digit and digits only, of value at most
/// `max`.
pub open spec fn is_number(s: Seq<char>, max: nat) -> bool {
    s.len() > 0 && all_digits(s) && digits_value(s) <= max
}

/// `s` is what the standard parser of `u32` accepts: a number, possibly
/// after a `+`.
pub open spec fn parses_u32(s: Seq<char>) -> bool {
    if s.len() > 0 && s[0] == '+' {
        is_number(s.drop_first(), u32::MAX as nat)
    } else {
        is_number(s, u32::MAX as nat)
    }
}

/// The value of a text that [`parses_u32`] accepts.
pub open spec fn u32_value(s: Seq<char>) -> nat {
    if s.len() > 0 && s[0] == '+' {
        digits_value(s.drop_first())
    } else {
        digits_value(s)
    }
}

/// Reads `s` as a `u32` the way the standard parser does.
pub fn parse_u32(s: &str) -> (r: Option<u32>)
    ensures
        r is Some <==> parses_u32(s@),
        r matches Some(v) ==> v == u32_value(s@),
{
    let n = s.unicode_len();
    let parsed = if n > 0 && s.get_char(0) == '+' {
        assert(s@.drop_first() =~= s@.subrange(1, n as int));
        parse_number(s, 1, n, 4294967295u64)
    } else {
        assert(s@ =~= s@.subrange(0, n as int));
        parse_number(s, 0, n, 4294967295u64)
    };
    match parsed {
        Some(v) => Some(v as u32),
        None => None,
    }
}

proof fn lemma_prefix_value(s: Seq<char>, k: int)
    requires
        0 <= k <= s.len(),
    ensures
        digits_value(s.take(k)) <= digits_value(s),
    decreases s.len() - k,
{
    if k < s.len() {
        lemma_prefix_value(s.drop_last(), k);
        assert(s.drop_last().take(k) =~= s.take(k));
    } else {
        assert(s.take(k) =~= s);
    }
}

/// Reads the characters of `s` from `from` to `to` as a number of value at
/// most `max`.
pub fn parse_number(s: &str, from: usize, to: usize, max: u64) -> (r: Option<u64>)
    requires
        from <= to <= s@.len(),
    ensures
        match r {
            Some(v) => is_number(s@.subrange(from as int, to as int), max as nat) && v
                == digits_value(s@.subrange(from as int, to as int)),
            None => !is_number(s@.subrange(from as int, to as int), max as nat),
        },
{
    let ghost t = s@.subrange(from as int, to as int);
    if from == to {
        return None;
    }
    let mut acc: u64 = 0;
    let mut i = from;
    while i < to
        invariant
            from <= i <= to <= s@.len(),
            t == s@.subrange(from as int, to as int),
            all_digits(t.take(i - from)),
            acc == digits_value(t.take(i - from)),
            acc <= max,
        decreases to - i,
    {
        let c = s.get_char(i);
        if !is_digit_exec(c) {
            assert(t[i - from] == c);
            return None;
        }
        let d = (c as u32 - 48) as u64;
        let ghost k = i - from;
        assert(t.take(k + 1).drop_last() =~= t.take(k));
        assert(t.take(k + 1).last() == c);
        assert(digits_value(t.take(k + 1)) == acc * 10 + d);
        if d > max || acc > (max - d) / 10 {
            proof {
                if d <= max {
                    assert(acc * 10 + d > max) by (nonlinear_arith)
                        requires
                            acc > (max - d) / 10,
                            d <= max,
                    ;
                }
                lemma_prefix_value(t, k + 1);
            }
            return None;
        }
        assert(acc * 10 + d <= max) by (nonlinear_arith)
            requires
                acc <= (max - d) / 10,
                d <= max,
        ;
        acc = acc * 10 + d;
        i = i + 1;
        assert(all_digits(t.take(i - from)));
    }
    assert(t.take(to - from) =~= t);
    Some(acc)
}

pub fn all_digits_exec(s: &str, from: usize, to: usize) -> (r: bool)
    requires
        from <= to <= s@.len(),
    ensures
        r == all_digits(s@.subrange(from as int, to as int)),
{
    let ghost t = s@.subrange(from as int, to as int);
    let mut i = from;
    while i < to
        invariant
            from <= i <= to <= s@.len(),
            t == s@.subrange(from as int, to as int),
            forall|j: int| 0 <= j < i - from ==> is_digit(#[trigger] t[j]),
        decreases to - i,
    {
        if !is_digit_exec(s.get_char(i)) {
            assert(t[i - from] == s@[i as int]);
            return false;
        }
        i = i + 1;
    }
    true
}

/// Whether the characters of `s` from `from` to `to` are those of `lit`.
pub fn text_eq(s: &str, from: usize, to: usize, lit: &str) -> (r: bool)
    requires
        from <= to <= s@.len(),
    ensures
        r == (s@.subrange(from as int, to as int) == lit@),
{
    let ghost t = s@.subrange(from as int, to as int);
    let n = lit.unicode_len();
    if to - from != n {
        return false;
    }
    let mut i: usize = 0;
    while i < n
        invariant
            from <= to <= s@.len(),
            n == lit@.len(),
            to - from == n,
            t == s@.subrange(from as int, to as int),
            i <= n,
            forall|j: int| 0 <= j < i ==> t[j] == lit@[j],
        decreases n - i,
    {
        if s.get_char(from + i) != lit.get_char(i) {
            assert(t[i as int] != lit@[i as int]);
            return false;
        }
        i = i + 1;
    }
    assert(t =~= lit@);
    true
}

/// What one of the first two arguments says about the target.
pub enum Target {
    /// A rank, with its country if one was given.
    Rank { value: String, country: Option<String>, prefixed: bool },
    /// The name of a player, given with a name prefix.
    Name(String),
    /// Neither.
    Unknown,
}

pub enum TargetView {
    Rank { value: Seq<char>, country: Option<Seq<char>>, prefixed: bool },
    Name(Seq<char>),
    Unknown,
}

impl View for Target {
    type V = TargetView;

    open spec fn view(&self) -> TargetView {
        match self {
            Target::Rank { value, country, prefixed } => TargetView::Rank {
                value: value@,
                country: opt_view(*country),
                prefixed: *prefixed,
            },
            Target::Name(n) => TargetView::Name(n@),
            Target::Unknown => TargetView::Unknown,
        }
    }
}

/// A two-letter country code followed by a number, as `be50`.
pub open spec fn country_rank(a: Seq<char>) -> bool {
    a.len() > 2 && is_alpha(a[0]) && is_alpha(a[1]) && all_digits(a.subrange(2, a.len() as int))
}

/// `a` read as a rank: a number, or a country code and a number.
pub open spec fn parse_rank(a: Seq<char>, prefixed: bool) -> Option<TargetView> {
    if parses_u32(a) {
        Some(TargetView::Rank { value: a, country: None, prefixed })
    } else if country_rank(a) {
        Some(
            TargetView::Rank {
                value: a.subrange(2, a.len() as int),
                country: Some(a.subrange(0, 2)),
                prefixed,
            },
        )
    } else {
        None
    }
}

/// The index of the first `=` in `s` from `i` on, or the length.
pub open spec fn first_eq(s: Seq<char>, i: int) -> int
    decreases s.len() - i,
{
    if i >= s.len() {
        s.len() as int
    } else if s[i] == '=' {
        i
    } else {
        first_eq(s, i + 1)
    }
}

pub open spec fn rank_word(k: Seq<char>) -> bool {
    k == "rank"@ || k == "reach"@ || k == "r"@
}

pub open spec fn name_word(k: Seq<char>) -> bool {
    k == "user"@ || k == "u"@ || k == "name"@ || k == "n"@
}

/// What an argument says: without `=`, a rank or nothing; with a rank prefix,
/// the rank after it (taken as a name to reach if it is no rank); with a name
/// prefix, the name after it; with another prefix, nothing.
pub open spec fn classify(a: Seq<char>) -> TargetView {
    let e = first_eq(a, 0);
    if e >= a.len() {
        match parse_rank(a, false) {
            Some(t) => t,
            None => TargetView::Unknown,
        }
    } else {
        let key = a.subrange(0, e);
        let value = a.subrange(e + 1, a.len() as int);
        if rank_word(key) {
            match parse_rank(value, true) {
                Some(t) => t,
                None => TargetView::Rank { value, country: None, prefixed: true },
            }
        } else if name_word(key) {
            TargetView::Name(value)
        } else {
            TargetView::Unknown
        }
    }
}

proof fn lemma_first_eq(s: Seq<char>, i: int)
    requires
        0 <= i <= s.len(),
    ensures
        i <= first_eq(s, i) <= s.len(),
    decreases s.len() - i,
{
    if i < s.len() && s[i] != '=' {
        lemma_first_eq(s, i + 1);
    }
}

fn parse_rank_exec(a: &str, n: usize, from: usize, prefixed: bool) -> (r: Option<Target>)
    requires
        n == a@.len(),
        from <= n,
    ensures
        match r {
            Some(t) => parse_rank(a@.subrange(from as int, n as int), prefixed) == Some(t@),
            None => parse_rank(a@.subrange(from as int, n as int), prefixed) is None,
        },
{
    let ghost t = a@.subrange(from as int, n as int);
    let is_u32 = if from < n && a.get_char(from) == '+' {
        assert(t.drop_first() =~= a@.subrange(from + 1, n as int));
        parse_number(a, from + 1, n, 4294967295u64).is_some()
    } else {
        parse_number(a, from, n, 4294967295u64).is_some()
    };
    if is_u32 {
        return Some(Target::Rank { value: String::from_str(a.substring_char(from, n)), country: None, prefixed });
    }
    if n - from > 2 && is_alpha_exec(a.get_char(from)) && is_alpha_exec(a.get_char(from + 1))
        && all_digits_exec(a, from + 2, n) {
        assert(a@.subrange(from + 2, n as int) =~= t.subrange(2, t.len() as int));
        let value = String::from_str(a.substring_char(from + 2, n));
        let country = String::from_str(a.substring_char(from, from + 2));
        assert(a@.subrange(from as int, from + 2) =~= t.subrange(0, 2));
        Some(Target::Rank { value, country: Some(country), prefixed })
    } else {
        proof {
            if n - from > 2 && is_alpha(t[0]) && is_alpha(t[1]) {
                assert(a@.subrange(from + 2, n as int) =~= t.subrange(2, t.len() as int));
            }
        }
        None
    }
}

/// What the argument `a` says about the target.
pub fn classify_exec(a: &str) -> (r: Target)
    ensures
        r@ == classify(a@),
{
    let n = a.unicode_len();
    let mut e: usize = 0;
    while e < n && a.get_char(e) != '='
        invariant
            n == a@.len(),
            e <= n,
            first_eq(a@, e as int) == first_eq(a@, 0),
        decreases n - e,
    {
        e = e + 1;
    }
    proof { lemma_first_eq(a@, 0); }
    if e >= n {
        assert(a@.subrange(0, n as int) =~= a@);
        return match parse_rank_exec(a, n, 0, false) {
            Some(t) => t,
            None => Target::Unknown,
        };
    }
    let value_from = e + 1;
    if text_eq(a, 0, e, "rank") || text_eq(a, 0, e, "reach") || text_eq(a, 0, e, "r") {
        match parse_rank_exec(a, n, value_from, true) {
            Some(t) => t,
            None => Target::Rank {
                value: String::from_str(a.substring_char(value_from, n)),
                country: None,
                prefixed: true,
            },
        }
    } else if text_eq(a, 0, e, "user") || text_eq(a, 0, e, "u") || text_eq(a, 0, e, "name")
        || text_eq(a, 0, e, "n") {
        Target::Name(String::from_str(a.substring_char(value_from, n)))
    } else {
        Target::Unknown
    }
}

/// The user id of a mention, written `<@id>` or `<@!id>`.
pub open spec fn mention_id(n: Seq<char>) -> Option<u64> {
    if n.len() >= 4 && n[0] == '<' && n[1] == '@' && n.last() == '>' {
        let body = n.subrange(2, n.len() - 1);
        let digits = if body[0] == '!' {
            body.drop_first()
        } else {
            body
        };
        if is_number(digits, u64::MAX as nat) {
            Some(digits_value(digits) as u64)
        } else {
            None
        }
    } else {
        None
    }
}

/// The user id that `n` mentions, if it is a mention.
pub fn get_mention_user(n: &str) -> (r: Option<u64>)
    ensures
        r == mention_id(n@),
{
    let len = n.unicode_len();
    if len >= 4 && n.get_char(0) == '<' && n.get_char(1) == '@' && n.get_char(len - 1) == '>' {
        let ghost body = n@.subrange(2, len - 1);
        let from: usize = if n.get_char(2) == '!' {
            3
        } else {
            2
        };
        proof {
            if from == 3 {
                assert(body.drop_first() =~= n@.subrange(3, len - 1));
            } else {
                assert(body =~= n@.subrange(2, len - 1));
            }
        }
        match parse_number(n, from, len - 1, u64::MAX) {
            Some(v) => Some(v),
            None => None,
        }
    } else {
        None
    }
}

/// The target and player that the first two arguments give: the rank, its
/// country, and the name.
pub open spec fn pick_target(
    first_target: TargetView,
    second_target: TargetView,
    first: Seq<char>,
    second: Seq<char>,
) -> (Option<Seq<char>>, Option<Seq<char>>, Option<Seq<char>>) {
    match first_target {
        TargetView::Rank { value: v1, country: c1, prefixed: x1 } => match second_target {
            TargetView::Rank { value: v2, country: c2, prefixed: x2 } => if !x1 && x2 {
                (Some(v2), c2, Some(first))
            } else {
                (Some(v1), c1, Some(second))
            },
            TargetView::Name(n) => (Some(v1), c1, Some(n)),
            TargetView::Unknown => (Some(v1), c1, Some(second)),
        },
        TargetView::Name(n1) => match second_target {
            TargetView::Rank { value: v2, country: c2, .. } => (Some(v2), c2, Some(n1)),
            TargetView::Name(n2) => (Some(n1), None, Some(n2)),
            TargetView::Unknown => (Some(second), None, Some(n1)),
        },
        TargetView::Unknown => match second_target {
            TargetView::Rank { value: v2, country: c2, .. } => (Some(v2), c2, Some(first)),
            TargetView::Name(n2) => (Some(first), None, Some(n2)),
            TargetView::Unknown => (Some(first), None, Some(second)),
        },
    }
}

/// The rank, country and name that the arguments `ws` give.
pub open spec fn read_target(ws: Seq<Seq<char>>) -> (
    Option<Seq<char>>,
    Option<Seq<char>>,
    Option<Seq<char>>,
) {
    if ws.len() == 0 {
        (None, None, None)
    } else if ws.len() == 1 {
        match classify(ws[0]) {
            TargetView::Rank { value, country, .. } => (Some(value), country, None),
            TargetView::Name(n) => (None, None, Some(n)),
            TargetView::Unknown => (None, None, Some(ws[0])),
        }
    } else {
        pick_target(classify(ws[0]), classify(ws[1]), ws[0], ws[1])
    }
}

/// The arguments of the command.
pub struct RankPp {
    /// The rank to reach, or the name of the player whose rank to reach.
    pub rank: String,
    pub mode: Option<GameMode>,
    /// The player who wants to reach it.
    pub name: Option<String>,
    /// The country of the rank.
    pub country: Option<String>,
    /// The user that the player was given as a mention of.
    pub discord: Option<u64>,
}

pub struct RankPpView {
    pub rank: Seq<char>,
    pub mode: Option<GameMode>,
    pub name: Option<Seq<char>>,
    pub country: Option<Seq<char>>,
    pub discord: Option<u64>,
}

impl View for RankPp {
    type V = RankPpView;

    open spec fn view(&self) -> RankPpView {
        RankPpView {
            rank: self.rank@,
            mode: self.mode,
            name: opt_view(self.name),
            country: opt_view(self.country),
            discord: self.discord,
        }
    }
}

/// The command's arguments from its words: a name that is a mention becomes
/// the user; without a rank, the name is the target; without either, there
/// are none.
pub open spec fn rank_pp(mode: Option<GameMode>, ws: Seq<Seq<char>>) -> Option<RankPpView> {
    let (rank, country, name0) = read_target(ws);
    let (name, discord) = match name0 {
        Some(n) => match mention_id(n) {
            Some(id) => (None, Some(id)),
            None => (Some(n), None),
        },
        None => (None, None),
    };
    match rank {
        Some(r) => Some(RankPpView { rank: r, mode, name, country, discord }),
        None => match name {
            Some(n) => Some(RankPpView { rank: n, mode, name: None, country, discord }),
            None => None,
        },
    }
}

pub const RANK_ERROR: &'static str = "Failed to parse `rank`. Provide it either as positive number or as country acronym followed by a positive number e.g. `be10` as one of the first two arguments.";

impl RankPp {
    /// Reads the command's arguments from its first two words.
    pub fn args(mode: Option<GameMode>, args: Args) -> (r: Result<RankPp, &'static str>)
        requires
            args.wf(),
        ensures
            match r {
                Ok(x) => rank_pp(mode, args.rest()) == Some(x@),
                Err(e) => rank_pp(mode, args.rest()) is None && e@ == RANK_ERROR@,
            },
    {
        let mut args = args;
        let ghost ws = args.rest();
        let mut rank: Option<String> = None;
        let mut country: Option<String> = None;
        let mut name: Option<String> = None;
        match args.next() {
            Some(first) => {
                let ghost after_first = args.rest();
                match args.next() {
                    Some(second) => {
                        assert(ws[1] == after_first[0]);
                        let first_target = classify_exec(first.as_str());
                        let second_target = classify_exec(second.as_str());
                        match first_target {
                            Target::Rank { value: v1, country: c1, prefixed: x1 } => match second_target {
                                Target::Rank { value: v2, country: c2, prefixed: x2 } => {
                                    if !x1 && x2 {
                                        rank = Some(v2);
                                        country = c2;
                                        name = Some(first);
                                    } else {
                                        rank = Some(v1);
                                        country = c1;
                                        name = Some(second);
                                    }
                                },
                                Target::Name(n) => {
                                    rank = Some(v1);
                                    country = c1;
                                    name = Some(n);
                                },
                                Target::Unknown => {
                                    rank = Some(v1);
                                    country = c1;
                                    name = Some(second);
                                },
                            },
                            Target::Name(n1) => match second_target {
                                Target::Rank { value: v2, country: c2, .. } => {
                                    rank = Some(v2);
                                    country = c2;
                                    name = Some(n1);
                                },
                                Target::Name(n2) => {
                                    rank = Some(n1);
                                    name = Some(n2);
                                },
                                Target::Unknown => {
                                    rank = Some(second);
                                    name = Some(n1);
                                },
                            },
                            Target::Unknown => match second_target {
                                Target::Rank { value: v2, country: c2, .. } => {
                                    rank = Some(v2);
                                    country = c2;
                                    name = Some(first);
                                },
                                Target::Name(n2) => {
                                    rank = Some(first);
                                    name = Some(n2);
                                },
                                Target::Unknown => {
                                    rank = Some(first);
                                    name = Some(second);
                                },
                            },
                        }
                    },
                    None => {
                        match classify_exec(first.as_str()) {
                            Target::Rank { value, country: c, .. } => {
                                rank = Some(value);
                                country = c;
                            },
                            Target::Name(n) => {
                                name = Some(n);
                            },
                            Target::Unknown => {
                                name = Some(first);
                            },
                        }
                    },
                }
            },
            None => {},
        }
        assert((opt_view(rank), opt_view(country), opt_view(name)) == read_target(ws));
        let mut discord: Option<u64> = None;
        let mut name2: Option<String> = None;
        match name {
            Some(n) => match get_mention_user(n.as_str()) {
                Some(id) => {
                    discord = Some(id);
                },
                None => {
                    name2 = Some(n);
                },
            },
            None => {},
        }
        match rank {
            Some(r) => Ok(RankPp { rank: r, mode, name: name2, country, discord }),
            None => match name2 {
                Some(n) => Ok(RankPp { rank: n, mode, name: None, country, discord }),
                None => Err(RANK_ERROR),
            },
        }
    }
}

/// The player who holds a rank.
pub struct RankHolder {
    pub country_code: String,
    pub global_rank: u32,
}

/// A rank as the reply shows it.
pub struct RankFormat {
    pub rank: u32,
    pub global: bool,
    pub holder: RankHolder,
}

/// `#123` for a global rank; `BE12 (#3456)` for a country rank, with the
/// holder's global rank.
pub open spec fn rank_text(f: RankFormat) -> Seq<char> {
    if f.global {
        "#"@ + decimal(f.rank as nat)
    } else {
        f.holder.country_code@ + decimal(f.rank as nat) + " (#"@ + decimal(
            f.holder.global_rank as nat,
        ) + ")"@
    }
}

impl RankFormat {
    pub fn new(rank: u32, global: bool, holder: RankHolder) -> (r: RankFormat)
        ensures
            r.rank == rank,
            r.global == global,
            r.holder == holder,
    {
        RankFormat { rank, global, holder }
    }

    pub fn render(&self) -> (r: String)
        ensures
            r@ == rank_text(*self),
    {
        let mut s = String::new();
        if self.global {
            push_str(&mut s, "#");
            push_decimal(&mut s, self.rank as u64);
        } else {
            push_str(&mut s, self.holder.country_code.as_str());
            push_decimal(&mut s, self.rank as u64);
            push_str(&mut s, " (#");
            push_decimal(&mut s, self.holder.global_rank as u64);
            push_str(&mut s, ")");
        }
        assert(s@ =~= rank_text(*self));
        s
    }
}

/// A target rank, or the player who holds it.
pub enum RankOrHolder {
    Rank(u32),
    Holder(RankHolder),
}

impl RankOrHolder {
    /// The global rank meant.
    pub fn rank(&self) -> (r: u32)
        ensures
            r == match self {
                RankOrHolder::Rank(rank) => *rank,
                RankOrHolder::Holder(h) => h.global_rank,
            },
    {
        match self {
            RankOrHolder::Rank(rank) => *rank,
            RankOrHolder::Holder(h) => h.global_rank,
        }
    }
}

} // verus!
