//! Mods, mod selections, and other small facts of the game.
use vstd::prelude::*;
use vstd::string::StringSliceAdditionalSpecFns;

use crate::resource::GameMode;
use crate::text::{decimal, hex, push_decimal, push_hex, push_str};

verus! {

/// A set of game mods, as the game's legacy bit flags.
#[derive(Clone, Copy, Debug, PartialEq, Eq, Structural, Hash)]
pub struct GameMods {
    pub bits: u32,
}

pub const HIDDEN: u32 = 8;
pub const SUDDEN_DEATH: u32 = 32;
pub const DOUBLE_TIME: u32 = 64;
pub const NIGHTCORE: u32 = 512;
pub const FLASHLIGHT: u32 = 1024;
pub const PERFECT: u32 = 16384;
pub const FADE_IN: u32 = 1048576;

/// The mods of a score, with Nightcore also counted as Double Time and
/// Perfect as Sudden Death.
pub open spec fn implied(bits: u32) -> u32 {
    bits | (if bits & NIGHTCORE != 0 {
        DOUBLE_TIME
    } else {
        0
    }) | (if bits & PERFECT != 0 {
        SUDDEN_DEATH
    } else {
        0
    })
}

impl GameMods {
    pub fn is_empty(self) -> (r: bool)
        ensures
            r == (self.bits == 0),
    {
        self.bits == 0
    }

    pub fn contains(self, flag: u32) -> (r: bool)
        ensures
            r == (self.bits & flag != 0),
    {
        self.bits & flag != 0
    }
}

/// Which scores a set of mods selects.
#[derive(Clone, Copy, Debug, PartialEq, Eq, Structural)]
pub enum ModSelection {
    /// Scores with at least these mods.
    Include(GameMods),
    /// Scores with none of these mods.
    Exclude(GameMods),
    /// Scores with exactly these mods.
    Exact(GameMods),
}

pub open spec fn selection_mods(s: ModSelection) -> GameMods {
    match s {
        ModSelection::Include(m) => m,
        ModSelection::Exclude(m) => m,
        ModSelection::Exact(m) => m,
    }
}

/// Whether a score with mods `score` is selected. An empty inclusion or
/// exact selection selects the scores without mods, an empty exclusion those
/// with some. Nightcore counts as Double Time and Perfect as Sudden Death.
pub open spec fn selects(s: ModSelection, score: GameMods) -> bool {
    match s {
        ModSelection::Include(m) => if m.bits == 0 {
            score.bits == 0
        } else {
            m.bits & !implied(score.bits) == 0
        },
        ModSelection::Exclude(m) => if m.bits == 0 {
            score.bits != 0
        } else {
            m.bits & implied(score.bits) == 0
        },
        ModSelection::Exact(m) => score.bits == m.bits,
    }
}

/// Whether a score is kept when filtering a list: as [`selects`], but
/// Nightcore and Perfect imply nothing.
pub open spec fn keeps(s: ModSelection, score: GameMods) -> bool {
    match s {
        ModSelection::Include(m) => if m.bits == 0 {
            score.bits == 0
        } else {
            m.bits & !score.bits == 0
        },
        ModSelection::Exclude(m) => if m.bits == 0 {
            score.bits != 0
        } else {
            m.bits & score.bits == 0
        },
        ModSelection::Exact(m) => score.bits == m.bits,
    }
}

fn implied_exec(bits: u32) -> (r: u32)
    ensures
        r == implied(bits),
{
    let dt: u32 = if bits & NIGHTCORE != 0 {
        DOUBLE_TIME
    } else {
        0
    };
    let sd: u32 = if bits & PERFECT != 0 {
        SUDDEN_DEATH
    } else {
        0
    };
    bits | dt | sd
}

impl ModSelection {
    pub fn as_mods(&self) -> (r: &GameMods)
        ensures
            *r == selection_mods(*self),
    {
        match self {
            ModSelection::Include(m) => m,
            ModSelection::Exclude(m) => m,
            ModSelection::Exact(m) => m,
        }
    }

    pub fn into_mods(self) -> (r: GameMods)
        ensures
            r == selection_mods(self),
    {
        match self {
            ModSelection::Include(m) => m,
            ModSelection::Exclude(m) => m,
            ModSelection::Exact(m) => m,
        }
    }

    /// Returns `true` if the score's mods coincide with this selection.
    pub fn filter_score(&self, score: GameMods) -> (r: bool)
        ensures
            r == selects(*self, score),
    {
        match *self {
            ModSelection::Include(m) => if m.bits == 0 {
                score.bits == 0
            } else {
                m.bits & !implied_exec(score.bits) == 0
            },
            ModSelection::Exclude(m) => if m.bits == 0 {
                score.bits != 0
            } else {
                m.bits & implied_exec(score.bits) == 0
            },
            ModSelection::Exact(m) => score.bits == m.bits,
        }
    }

    fn keeps_exec(&self, score: GameMods) -> (r: bool)
        ensures
            r == keeps(*self, score),
    {
        match *self {
            ModSelection::Include(m) => if m.bits == 0 {
                score.bits == 0
            } else {
                m.bits & !score.bits == 0
            },
            ModSelection::Exclude(m) => if m.bits == 0 {
                score.bits != 0
            } else {
                m.bits & score.bits == 0
            },
            ModSelection::Exact(m) => score.bits == m.bits,
        }
    }

    /// Makes sure that included or exact mods exist in `mode` and do not
    /// exclude each other (as EZ and HR do); excluded mods are not checked.
    pub fn validate(self, mode: GameMode) -> (r: Result<(), &'static str>)
        ensures
            match self {
                ModSelection::Exclude(_) => r is Ok,
                ModSelection::Include(m) | ModSelection::Exact(m) => r == validation(
                    mods_known(m.bits, mode),
                    mods_compatible(m.bits, mode),
                ),
            },
    {
        let m = match self {
            ModSelection::Include(m) => m,
            ModSelection::Exclude(_) => return Ok(()),
            ModSelection::Exact(m) => m,
        };
        let known = known_in_mode(m.bits, mode);
        let compatible = if known {
            compatible_in_mode(m.bits, mode)
        } else {
            false
        };
        validation_outcome(known, compatible)
    }

    /// Removes the scores whose mods do not coincide with this selection,
    /// keeping the order of the others.
    pub fn filter_scores(&self, scores: &mut Vec<GameMods>)
        ensures
            final(scores)@ == old(scores)@.filter(|m: GameMods| keeps(*self, m)),
    {
        let ghost orig = scores@;
        let mut kept: Vec<GameMods> = Vec::new();
        let mut i: usize = 0;
        while i < scores.len()
            invariant
                scores@ == orig,
                i <= orig.len(),
                kept@ == orig.take(i as int).filter(|m: GameMods| keeps(*self, m)),
            decreases orig.len() - i,
        {
            let m = scores[i];
            if self.keeps_exec(m) {
                kept.push(m);
            }
            proof {
                assert(orig.take(i + 1).drop_last() =~= orig.take(i as int));
                assert(orig.take(i + 1).last() == m);
                reveal(Seq::filter);
            }
            i = i + 1;
            assert(orig.take(i as int) =~= orig.take(i - 1).push(m));
        }
        assert(orig.take(i as int) =~= orig);
        *scores = kept;
    }
}

/// Whether every mod of `bits` exists in `mode`.
pub uninterp spec fn mods_known(bits: u32, mode: GameMode) -> bool;

/// Whether no mod of `bits`, taken in `mode`, excludes another.
pub uninterp spec fn mods_compatible(bits: u32, mode: GameMode) -> bool;

/// Relies on rosu-v2's `GameModsIntermode::try_with_mode` (after
/// `GameModsIntermode::from_bits` reads the legacy bits): `Some` exactly when
/// every mod is known in the mode.
#[verifier::external_body]
fn known_in_mode(bits: u32, mode: GameMode) -> (r: bool)
    ensures
        r == mods_known(bits, mode),
{
    let mode = match mode {
        GameMode::Osu => rosu_v2::prelude::GameMode::Osu,
        GameMode::Taiko => rosu_v2::prelude::GameMode::Taiko,
        GameMode::Catch => rosu_v2::prelude::GameMode::Catch,
        GameMode::Mania => rosu_v2::prelude::GameMode::Mania,
    };
    rosu_v2::prelude::GameModsIntermode::from_bits(bits).try_with_mode(mode).is_some()
}

/// Relies on rosu-v2's `GameMods::is_valid` (on the mods that
/// `GameModsIntermode::with_mode` gives, which are those of `try_with_mode`
/// when every mod is known): whether no mod excludes another.
#[verifier::external_body]
fn compatible_in_mode(bits: u32, mode: GameMode) -> (r: bool)
    requires
        mods_known(bits, mode),
    ensures
        r == mods_compatible(bits, mode),
{
    let mode = match mode {
        GameMode::Osu => rosu_v2::prelude::GameMode::Osu,
        GameMode::Taiko => rosu_v2::prelude::GameMode::Taiko,
        GameMode::Catch => rosu_v2::prelude::GameMode::Catch,
        GameMode::Mania => rosu_v2::prelude::GameMode::Mania,
    };
    rosu_v2::prelude::GameModsIntermode::from_bits(bits).with_mode(mode).is_valid()
}

pub const INAPPROPRIATE_MODS: &'static str = "Looks like inappropriate mods for the mode";

pub const INVALID_MODS: &'static str = "Looks like an invalid mod combination";

/// The outcome of checking included or exact mods, from whether they all
/// exist in the mode and whether none excludes another.
pub open spec fn validation(known: bool, compatible: bool) -> Result<(), &'static str> {
    if !known {
        Err(INAPPROPRIATE_MODS)
    } else if compatible {
        Ok(())
    } else {
        Err(INVALID_MODS)
    }
}

pub fn validation_outcome(known: bool, compatible: bool) -> (r: Result<(), &'static str>)
    ensures
        r == validation(known, compatible),
{
    if !known {
        Err(INAPPROPRIATE_MODS)
    } else if compatible {
        Ok(())
    } else {
        Err(INVALID_MODS)
    }
}

/// A map id, of a single map or of a map set.
#[derive(Clone, Copy, Debug, PartialEq, Eq, Structural)]
pub enum MapIdType {
    Beatmap(u32),
    Mapset(u32),
}

impl MapIdType {
    /// The id, whichever kind it is.
    pub fn id(self) -> (r: u32)
        ensures
            r == match self {
                MapIdType::Beatmap(id) => id,
                MapIdType::Mapset(id) => id,
            },
    {
        match self {
            MapIdType::Beatmap(id) => id,
            MapIdType::Mapset(id) => id,
        }
    }
}

/// The adjustable attributes of a map.
#[derive(Clone, Copy, Debug, PartialEq, Eq, Structural)]
pub enum AttributeKind {
    Ar,
    Cs,
    Hp,
    Od,
}

/// The mods that a grade depends on.
pub trait GradeGameMods {
    spec fn spec_mods(&self) -> u32;

    fn hd(&self) -> (r: bool)
        ensures
            r == (self.spec_mods() & HIDDEN != 0),
    ;

    fn fl(&self) -> (r: bool)
        ensures
            r == (self.spec_mods() & FLASHLIGHT != 0),
    ;

    fn fi(&self) -> (r: bool)
        ensures
            r == (self.spec_mods() & FADE_IN != 0),
    ;
}

impl GradeGameMods for GameMods {
    open spec fn spec_mods(&self) -> u32 {
        self.bits
    }

    fn hd(&self) -> (r: bool) {
        self.bits & HIDDEN != 0
    }

    fn fl(&self) -> (r: bool) {
        self.bits & FLASHLIGHT != 0
    }

    fn fi(&self) -> (r: bool) {
        self.bits & FADE_IN != 0
    }
}

/// The URL of a country's flag image of the given size.
pub open spec fn flag_url_text(code: Seq<char>, size: u32) -> Seq<char> {
    "https://osuflags.omkserver.nl/"@ + code + "-"@ + decimal(size as nat) + ".png"@
}

pub fn flag_url(country_code: &str) -> (r: String)
    ensures
        r@ == flag_url_text(country_code@, 256),
{
    flag_url_size(country_code, 256)
}

pub fn flag_url_size(country_code: &str, size: u32) -> (r: String)
    ensures
        r@ == flag_url_text(country_code@, size),
{
    let mut s = String::new();
    push_str(&mut s, "https://osuflags.omkserver.nl/");
    push_str(&mut s, country_code);
    push_str(&mut s, "-");
    push_decimal(&mut s, size as u64);
    push_str(&mut s, ".png");
    assert(s@ =~= flag_url_text(country_code@, size));
    s
}

pub open spec fn upper_byte(b: u8) -> u8 {
    if 97 <= b <= 122 {
        (b - 32) as u8
    } else {
        b
    }
}

/// The regional indicator symbol of an ASCII letter.
pub open spec fn indicator(b: u8) -> nat {
    upper_byte(b) as nat + 0x1F1A5
}

/// The URL of the game's flag image for a two-letter country code.
pub open spec fn flag_svg_text(code: Seq<u8>) -> Seq<char> {
    "https://osu.ppy.sh/assets/images/flags/"@ + hex(indicator(code[0])) + "-"@ + hex(
        indicator(code[1]),
    ) + ".svg"@
}

fn to_ascii_upper(b: u8) -> (r: u8)
    ensures
        r == upper_byte(b),
{
    if 97 <= b && b <= 122 {
        b - 32
    } else {
        b
    }
}

pub fn flag_url_svg(country_code: &str) -> (r: String)
    requires
        country_code.spec_bytes().len() == 2,
    ensures
        r@ == flag_svg_text(country_code.spec_bytes()),
{
    let bytes = country_code.as_bytes();
    let first = to_ascii_upper(bytes[0]) as u64 + 0x1F1A5;
    let second = to_ascii_upper(bytes[1]) as u64 + 0x1F1A5;
    let mut s = String::new();
    push_str(&mut s, "https://osu.ppy.sh/assets/images/flags/");
    push_hex(&mut s, first);
    push_str(&mut s, "-");
    push_hex(&mut s, second);
    push_str(&mut s, ".svg");
    assert(s@ =~= flag_svg_text(country_code.spec_bytes()));
    s
}

} // verus!
