//! Small pieces of the text that score embeds show.
use vstd::prelude::*;

use crate::osu::GameMods;
use crate::resource::GameMode;
use crate::text::{decimal, push_decimal, push_str};

verus! {

/// A score's combo next to the map's maximum combo.
pub struct ComboFormatter {
    pub score: u32,
    pub max: Option<u32>,
}

/// `**123x**/456x`, or `**123x**/-` without a maximum.
pub open spec fn combo_text(score: u32, max: Option<u32>) -> Seq<char> {
    "**"@ + decimal(score as nat) + "x**/"@ + match max {
        Some(m) => decimal(m as nat) + "x"@,
        None => "-"@,
    }
}

impl ComboFormatter {
    pub fn new(score: u32, max: Option<u32>) -> (r: ComboFormatter)
        ensures
            r.score == score,
            r.max == max,
    {
        ComboFormatter { score, max }
    }

    pub fn render(&self) -> (r: String)
        ensures
            r@ == combo_text(self.score, self.max),
    {
        let mut s = String::new();
        push_str(&mut s, "**");
        push_decimal(&mut s, self.score as u64);
        push_str(&mut s, "x**/");
        match self.max {
            Some(m) => {
                push_decimal(&mut s, m as u64);
                push_str(&mut s, "x");
            },
            None => push_str(&mut s, "-"),
        }
        assert(s@ =~= combo_text(self.score, self.max));
        s
    }
}

/// The key count of a mania map: a key mod's, or the circle size's.
pub struct KeyFormatter {
    pub mods: GameMods,
    pub cs: u32,
}

/// The key count that the mods force, by the legacy key mod flags.
pub open spec fn key_mod(bits: u32) -> Option<u32> {
    if bits & 67108864 != 0 {
        Some(1u32)
    } else if bits & 268435456 != 0 {
        Some(2u32)
    } else if bits & 134217728 != 0 {
        Some(3u32)
    } else if bits & 32768 != 0 {
        Some(4u32)
    } else if bits & 65536 != 0 {
        Some(5u32)
    } else if bits & 131072 != 0 {
        Some(6u32)
    } else if bits & 262144 != 0 {
        Some(7u32)
    } else if bits & 524288 != 0 {
        Some(8u32)
    } else if bits & 16777216 != 0 {
        Some(9u32)
    } else {
        None
    }
}

/// `[4K]`: the key mod's count if there is one, else the circle size.
pub open spec fn key_text(mods: GameMods, cs: u32) -> Seq<char> {
    let keys = match key_mod(mods.bits) {
        Some(k) => k,
        None => cs,
    };
    "["@ + decimal(keys as nat) + "K]"@
}

fn key_mod_exec(bits: u32) -> (r: Option<u32>)
    ensures
        r == key_mod(bits),
{
    if bits & 67108864 != 0 {
        Some(1)
    } else if bits & 268435456 != 0 {
        Some(2)
    } else if bits & 134217728 != 0 {
        Some(3)
    } else if bits & 32768 != 0 {
        Some(4)
    } else if bits & 65536 != 0 {
        Some(5)
    } else if bits & 131072 != 0 {
        Some(6)
    } else if bits & 262144 != 0 {
        Some(7)
    } else if bits & 524288 != 0 {
        Some(8)
    } else if bits & 16777216 != 0 {
        Some(9)
    } else {
        None
    }
}

impl KeyFormatter {
    pub fn new(mods: GameMods, cs: u32) -> (r: KeyFormatter)
        ensures
            r.mods == mods,
            r.cs == cs,
    {
        KeyFormatter { mods, cs }
    }

    pub fn render(&self) -> (r: String)
        ensures
            r@ == key_text(self.mods, self.cs),
    {
        let keys = match key_mod_exec(self.mods.bits) {
            Some(k) => k,
            None => self.cs,
        };
        let mut s = String::new();
        push_str(&mut s, "[");
        push_decimal(&mut s, keys as u64);
        push_str(&mut s, "K]");
        assert(s@ =~= key_text(self.mods, self.cs));
        s
    }
}

/// The hit counts of a score.
#[derive(Clone, Copy, Debug, PartialEq, Eq, Structural)]
pub struct HitStats {
    pub perfect: u32,
    pub great: u32,
    pub good: u32,
    pub ok: u32,
    pub meh: u32,
    pub miss: u32,
    pub large_tick_hit: u32,
    pub small_tick_hit: u32,
}

/// A score's hit counts in the order its mode shows them.
pub struct HitResultFormatter {
    pub mode: GameMode,
    pub stats: HitStats,
}

pub open spec fn max_u32(a: u32, b: u32) -> u32 {
    if a >= b {
        a
    } else {
        b
    }
}

pub open spec fn count(n: u32) -> Seq<char> {
    decimal(n as nat) + "/"@
}

/// `{300s/100s/50s/misses}`; mania first shows the perfect and after the
/// greats the good hits, taiko has no 50s, and catch counts large and small
/// droplets where they are more than the 100s and 50s.
pub open spec fn hits_text(mode: GameMode, st: HitStats) -> Seq<char> {
    let n100 = if mode == GameMode::Catch {
        max_u32(st.ok, st.large_tick_hit)
    } else {
        st.ok
    };
    let n50 = if mode == GameMode::Catch {
        max_u32(st.meh, st.small_tick_hit)
    } else {
        st.meh
    };
    "{"@ + (if mode == GameMode::Mania {
        count(st.perfect)
    } else {
        Seq::empty()
    }) + count(st.great) + (if mode == GameMode::Mania {
        count(st.good)
    } else {
        Seq::empty()
    }) + count(n100) + (if mode != GameMode::Taiko {
        count(n50)
    } else {
        Seq::empty()
    }) + decimal(st.miss as nat) + "}"@
}

fn push_count(s: &mut String, n: u32)
    ensures
        final(s)@ == old(s)@ + count(n),
{
    push_decimal(s, n as u64);
    push_str(s, "/");
}

impl HitResultFormatter {
    pub fn new(mode: GameMode, stats: HitStats) -> (r: HitResultFormatter)
        ensures
            r.mode == mode,
            r.stats == stats,
    {
        HitResultFormatter { mode, stats }
    }

    pub fn render(&self) -> (r: String)
        ensures
            r@ == hits_text(self.mode, self.stats),
    {
        let st = self.stats;
        let catch = self.mode == GameMode::Catch;
        let mania = self.mode == GameMode::Mania;
        let n100 = if catch && st.large_tick_hit > st.ok {
            st.large_tick_hit
        } else {
            st.ok
        };
        let n50 = if catch && st.small_tick_hit > st.meh {
            st.small_tick_hit
        } else {
            st.meh
        };
        let mut s = String::new();
        push_str(&mut s, "{");
        if mania {
            push_count(&mut s, st.perfect);
        }
        push_count(&mut s, st.great);
        if mania {
            push_count(&mut s, st.good);
        }
        push_count(&mut s, n100);
        if self.mode != GameMode::Taiko {
            push_count(&mut s, n50);
        }
        push_decimal(&mut s, st.miss as u64);
        push_str(&mut s, "}");
        assert(s@ =~= hits_text(self.mode, self.stats));
        s
    }
}

/// The text that the pages of a score list carry.
pub enum SingleScoreContent {
    /// The same text on every page.
    SameForAll(String),
    /// A text on one page only.
    OnlyForIndex { idx: usize, content: String },
    /// No text.
    Nothing,
}

impl SingleScoreContent {
    /// The text of page `index`; empty where it has none.
    pub fn content_for(&self, index: usize) -> (r: String)
        ensures
            r@ == match self {
                SingleScoreContent::SameForAll(c) => c@,
                SingleScoreContent::OnlyForIndex { idx, content } => if *idx == index {
                    content@
                } else {
                    Seq::empty()
                },
                SingleScoreContent::Nothing => Seq::empty(),
            },
    {
        match self {
            SingleScoreContent::SameForAll(c) => c.clone(),
            SingleScoreContent::OnlyForIndex { idx, content } => if *idx == index {
                content.clone()
            } else {
                String::new()
            },
            SingleScoreContent::Nothing => String::new(),
        }
    }
}

/// Which entry of a score list to mark.
#[derive(Clone, Copy, Debug, PartialEq, Eq, Structural)]
pub enum MarkIndex {
    /// Don't mark anything.
    Skip,
    /// Mark the given index.
    Mark(usize),
    /// Don't mark anything, but the value came from the builder.
    Unmarked,
}

impl MarkIndex {
    /// Whether entry `i` is marked.
    pub fn marks(self, i: usize) -> (r: bool)
        ensures
            r == (self == MarkIndex::Mark(i)),
    {
        match self {
            MarkIndex::Mark(j) => j == i,
            _ => false,
        }
    }
}

} // verus!
