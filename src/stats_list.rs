//! The embed that lists the players with the most global leaderboard scores.
use vstd::prelude::*;

use crate::osu::{flag_url, flag_url_text};
use crate::text::{decimal, push_decimal, push_str, push_with_comma, with_comma};

verus! {

/// A player and their number of global leaderboard scores.
pub struct OsuStatsPlayer {
    pub user_id: u32,
    pub username: String,
    pub count: u32,
}

/// The author line of an embed.
pub struct Author {
    pub name: String,
    pub icon_url: Option<String>,
}

pub struct OsuStatsListEmbed {
    pub author: Author,
    pub description: String,
    pub footer: String,
    pub thumbnail: String,
}

/// The players per page.
pub const PLAYERS_PER_PAGE: usize = 15;

/// One line of the list: position, name linked to the profile, count.
pub open spec fn player_line(p: OsuStatsPlayer, idx: nat) -> Seq<char> {
    "**"@ + decimal(idx) + ". ["@ + p.username@ + "](https://osu.ppy.sh/users/"@ + decimal(
        p.user_id as nat,
    ) + ")**: "@ + with_comma(p.count as nat) + "\n"@
}

/// The lines of `ps`, the first at position `base + 1`.
pub open spec fn player_lines(ps: Seq<OsuStatsPlayer>, base: nat) -> Seq<char>
    decreases ps.len(),
{
    if ps.len() == 0 {
        Seq::empty()
    } else {
        player_lines(ps.drop_last(), base) + player_line(ps.last(), base + ps.len())
    }
}

impl OsuStatsListEmbed {
    /// The embed of page `pages.0` of `pages.1`, listing `players`.
    pub fn new(
        players: &Vec<OsuStatsPlayer>,
        country: &Option<String>,
        first_place_id: u32,
        pages: (usize, usize),
    ) -> (r: OsuStatsListEmbed)
        requires
            pages.0 >= 1,
            (pages.0 - 1) * 15 + players@.len() <= usize::MAX,
        ensures
            r.author.name@ == "Most global leaderboard scores"@,
            r.author.icon_url matches Some(u) ==> country matches Some(c) && u@ == flag_url_text(
                c@,
                256,
            ),
            r.author.icon_url is None <==> country is None,
            r.description@ == player_lines(players@, ((pages.0 - 1) * 15) as nat),
            r.footer@ == "Page "@ + decimal(pages.0 as nat) + "/"@ + decimal(pages.1 as nat),
            r.thumbnail@ == "https://a.ppy.sh/"@ + decimal(first_place_id as nat),
    {
        let icon_url = match country {
            Some(c) => Some(flag_url(c.as_str())),
            None => None,
        };
        let author = Author { name: String::from_str("Most global leaderboard scores"), icon_url };
        let base = (pages.0 - 1) * PLAYERS_PER_PAGE;
        let mut description = String::new();
        let mut i: usize = 0;
        while i < players.len()
            invariant
                i <= players@.len(),
                base == (pages.0 - 1) * 15,
                base + players@.len() <= usize::MAX,
                description@ == player_lines(players@.take(i as int), base as nat),
            decreases players@.len() - i,
        {
            let p = &players[i];
            push_str(&mut description, "**");
            push_decimal(&mut description, (base + i + 1) as u64);
            push_str(&mut description, ". [");
            push_str(&mut description, p.username.as_str());
            push_str(&mut description, "](https://osu.ppy.sh/users/");
            push_decimal(&mut description, p.user_id as u64);
            push_str(&mut description, ")**: ");
            push_with_comma(&mut description, p.count as u64);
            push_str(&mut description, "\n");
            i = i + 1;
            assert(players@.take(i as int).drop_last() =~= players@.take(i - 1));
            assert(players@.take(i as int).last() == *p);
            assert(description@ =~= player_lines(players@.take(i as int), base as nat));
        }
        assert(players@.take(i as int) =~= players@);
        let mut footer = String::new();
        push_str(&mut footer, "Page ");
        push_decimal(&mut footer, pages.0 as u64);
        push_str(&mut footer, "/");
        push_decimal(&mut footer, pages.1 as u64);
        let mut thumbnail = String::new();
        push_str(&mut thumbnail, "https://a.ppy.sh/");
        push_decimal(&mut thumbnail, first_place_id as u64);
        OsuStatsListEmbed { author, description, footer, thumbnail }
    }
}

} // verus!
