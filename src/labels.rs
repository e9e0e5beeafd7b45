//! Small words and numbers that command replies are built from.
use vstd::prelude::*;

use crate::resource::GameMode;

verus! {

/// The English ordinal suffix of `idx`: `st`, `nd`, `rd` or `th`.
pub open spec fn suffix_of(idx: nat) -> Seq<char> {
    if 11 <= idx % 100 <= 13 {
        "th"@
    } else if idx % 10 == 1 {
        "st"@
    } else if idx % 10 == 2 {
        "nd"@
    } else if idx % 10 == 3 {
        "rd"@
    } else {
        "th"@
    }
}

pub fn idx_suffix(idx: usize) -> (r: &'static str)
    ensures
        r@ == suffix_of(idx as nat),
{
    let m = idx % 100;
    if 11 <= m && m <= 13 {
        "th"
    } else if idx % 10 == 1 {
        "st"
    } else if idx % 10 == 2 {
        "nd"
    } else if idx % 10 == 3 {
        "rd"
    } else {
        "th"
    }
}

/// The possessive ending for a name: `'` after a final `s`, else `'s`.
pub open spec fn possessive(name: Seq<char>) -> Seq<char> {
    if name.len() > 0 && name.last() == 's' {
        "'"@
    } else {
        "'s"@
    }
}

pub fn plural(name: &str) -> (r: &'static str)
    ensures
        r@ == possessive(name@),
{
    let n = name.unicode_len();
    if n > 0 && name.get_char(n - 1) == 's' {
        "'"
    } else {
        "'s"
    }
}

/// The name of a mode in a ranking's title: none for osu!, else the mode's.
pub open spec fn ranking_mode_text(mode: GameMode) -> Seq<char> {
    match mode {
        GameMode::Osu => ""@,
        GameMode::Taiko => "taiko"@,
        GameMode::Catch => "ctb"@,
        GameMode::Mania => "mania"@,
    }
}

pub fn mode_str(mode: GameMode) -> (r: &'static str)
    ensures
        r@ == ranking_mode_text(mode),
{
    match mode {
        GameMode::Osu => "",
        GameMode::Taiko => "taiko",
        GameMode::Catch => "ctb",
        GameMode::Mania => "mania",
    }
}

/// The number of plays in one month, the month given by its first day.
#[derive(Clone, Copy, Debug, PartialEq, Eq, Structural)]
pub struct MonthlyCount {
    pub start_day: i32,
    pub count: i32,
}

/// The first and last month of a play count graph, and its height: the
/// largest count, at least 2.
pub fn first_last_max(counts: &Vec<MonthlyCount>) -> (r: (i32, i32, i32))
    requires
        counts@.len() > 0,
    ensures
        r.0 == counts@[0].start_day,
        r.1 == counts@.last().start_day,
        r.2 >= 2,
        forall|i: int| 0 <= i < counts@.len() ==> counts@[i].count <= r.2,
        r.2 == 2 || exists|i: int| 0 <= i < counts@.len() && counts@[i].count == r.2,
{
    let mut max: i32 = 2;
    let mut i: usize = 0;
    while i < counts.len()
        invariant
            i <= counts@.len(),
            max >= 2,
            forall|j: int| 0 <= j < i ==> counts@[j].count <= max,
            max == 2 || exists|j: int| 0 <= j < i && counts@[j].count == max,
        decreases counts@.len() - i,
    {
        if counts[i].count > max {
            max = counts[i].count;
        }
        i = i + 1;
    }
    (counts[0].start_day, counts[counts.len() - 1].start_day, max)
}

} // verus!
