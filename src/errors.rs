//! Errors of the library's commands, as text for the user.
use vstd::prelude::*;

use crate::rank::text_eq;
use crate::text::push_str;

verus! {

/// Why an argument of the score simulation command was refused.
#[derive(Debug, PartialEq, Eq)]
pub enum ParseError {
    Acc,
    Bpm,
    Combo,
    ClockRate,
    N300,
    N100,
    N50,
    Geki,
    Katu,
    Miss,
    SliderEnds,
    LargeTicks,
    SmallTicks,
    Mods,
    Ar,
    Cs,
    Hp,
    Od,
    Lazer,
    Stable,
    Nom(String),
    Unknown(String),
}

/// The message of an error.
pub open spec fn parse_error_text(e: ParseError) -> Seq<char> {
    match e {
        ParseError::Acc => "Failed to parse accuracy, must be a number"@,
        ParseError::Bpm => "Failed to parse bpm, must be a number"@,
        ParseError::Combo => "Failed to parse combo, must be an integer"@,
        ParseError::ClockRate => "Failed to parse clock rate, must be a number"@,
        ParseError::N300 => "Failed to parse n300, must be an integer"@,
        ParseError::N100 => "Failed to parse n100, must be an integer"@,
        ParseError::N50 => "Failed to parse n50, must be an integer"@,
        ParseError::Geki => "Failed to parse gekis, must be an integer"@,
        ParseError::Katu => "Failed to parse katus, must be an integer"@,
        ParseError::Miss => "Failed to parse misses, must be an integer"@,
        ParseError::SliderEnds => "Failed to parse slider ends, must be a number"@,
        ParseError::LargeTicks => "Failed to parse large ticks, must be a number"@,
        ParseError::SmallTicks => "Failed to parse small ticks, must be a number"@,
        ParseError::Mods => "Failed to parse mods, must be an acronym of a mod combination"@,
        ParseError::Ar => "Failed to parsed AR, must be a number"@,
        ParseError::Cs => "Failed to parsed CS, must be a number"@,
        ParseError::Hp => "Failed to parsed HP, must be a number"@,
        ParseError::Od => "Failed to parsed OD, must be a number"@,
        ParseError::Lazer => "Failed to parse lazer, must be a boolean"@,
        ParseError::Stable => "Failed to parse stable, must be a boolean"@,
        ParseError::Nom(s) => s@,
        ParseError::Unknown(s) => s@,
    }
}

pub open spec fn nom_text(input: Seq<char>) -> Seq<char> {
    "Failed to parse argument `"@ + input + "`"@
}

pub open spec fn unknown_text(input: Seq<char>) -> Seq<char> {
    "Unknown key `"@ + input + "`. "@ + "Must be `mods`, `lazer`, `stable`, `acc`, `bpm`, `combo`, `clockrate`, `n300`, `n100`, `n50`, `miss`, `geki`, `katu`, `sliderends`, `largeticks`, `smallticks`, `ar`, `cs`, `hp`, or `od`"@
}

impl ParseError {
    /// An argument that could not be read at all.
    pub fn nom(input: &str) -> (r: ParseError)
        ensures
            r matches ParseError::Nom(s) && s@ == nom_text(input@),
    {
        let mut s = String::new();
        push_str(&mut s, "Failed to parse argument `");
        push_str(&mut s, input);
        push_str(&mut s, "`");
        ParseError::Nom(s)
    }

    /// An argument with a key that no setting has.
    pub fn unknown(input: &str) -> (r: ParseError)
        ensures
            r matches ParseError::Unknown(s) && s@ == unknown_text(input@),
    {
        let mut s = String::new();
        push_str(&mut s, "Unknown key `");
        push_str(&mut s, input);
        push_str(&mut s, "`. ");
        push_str(&mut s, "Must be `mods`, `lazer`, `stable`, `acc`, `bpm`, `combo`, `clockrate`, `n300`, `n100`, `n50`, `miss`, `geki`, `katu`, `sliderends`, `largeticks`, `smallticks`, `ar`, `cs`, `hp`, or `od`");
        ParseError::Unknown(s)
    }

    /// The message for the user.
    pub fn into_str(self) -> (r: String)
        ensures
            r@ == parse_error_text(self),
    {
        match self {
            ParseError::Acc => String::from_str("Failed to parse accuracy, must be a number"),
            ParseError::Bpm => String::from_str("Failed to parse bpm, must be a number"),
            ParseError::Combo => String::from_str("Failed to parse combo, must be an integer"),
            ParseError::ClockRate => String::from_str("Failed to parse clock rate, must be a number"),
            ParseError::N300 => String::from_str("Failed to parse n300, must be an integer"),
            ParseError::N100 => String::from_str("Failed to parse n100, must be an integer"),
            ParseError::N50 => String::from_str("Failed to parse n50, must be an integer"),
            ParseError::Geki => String::from_str("Failed to parse gekis, must be an integer"),
            ParseError::Katu => String::from_str("Failed to parse katus, must be an integer"),
            ParseError::Miss => String::from_str("Failed to parse misses, must be an integer"),
            ParseError::SliderEnds => String::from_str("Failed to parse slider ends, must be a number"),
            ParseError::LargeTicks => String::from_str("Failed to parse large ticks, must be a number"),
            ParseError::SmallTicks => String::from_str("Failed to parse small ticks, must be a number"),
            ParseError::Mods => String::from_str("Failed to parse mods, must be an acronym of a mod combination"),
            ParseError::Ar => String::from_str("Failed to parsed AR, must be a number"),
            ParseError::Cs => String::from_str("Failed to parsed CS, must be a number"),
            ParseError::Hp => String::from_str("Failed to parsed HP, must be a number"),
            ParseError::Od => String::from_str("Failed to parsed OD, must be a number"),
            ParseError::Lazer => String::from_str("Failed to parse lazer, must be a boolean"),
            ParseError::Stable => String::from_str("Failed to parse stable, must be a boolean"),
            ParseError::Nom(s) => s,
            ParseError::Unknown(s) => s,
        }
    }
}

/// Why a help message could not be updated.
#[derive(Clone, Copy, Debug, PartialEq, Eq, Structural)]
pub enum InvalidHelpState {
    UnknownCommand,
    MissingEmbed,
    MissingTitle,
}

pub open spec fn help_state_text(e: InvalidHelpState) -> Seq<char> {
    match e {
        InvalidHelpState::UnknownCommand => "unknown command"@,
        InvalidHelpState::MissingEmbed => "missing embed"@,
        InvalidHelpState::MissingTitle => "missing embed title"@,
    }
}

impl InvalidHelpState {
    /// The message of the error.
    pub fn message(self) -> (r: &'static str)
        ensures
            r@ == help_state_text(self),
    {
        match self {
            InvalidHelpState::UnknownCommand => "unknown command",
            InvalidHelpState::MissingEmbed => "missing embed",
            InvalidHelpState::MissingTitle => "missing embed title",
        }
    }
}

/// A flag of the score simulation command: `t`, `true` or `1` for yes, `f`,
/// `false` or `0` for no, and nothing else.
pub open spec fn flag_value(input: Seq<char>) -> Option<bool> {
    if input == "t"@ || input == "true"@ || input == "1"@ {
        Some(true)
    } else if input == "f"@ || input == "false"@ || input == "0"@ {
        Some(false)
    } else {
        None
    }
}

pub fn parse_bool(input: &str) -> (r: Option<bool>)
    ensures
        r == flag_value(input@),
{
    let n = input.unicode_len();
    assert(input@.subrange(0, n as int) =~= input@);
    if text_eq(input, 0, n, "t") || text_eq(input, 0, n, "true") || text_eq(input, 0, n, "1") {
        Some(true)
    } else if text_eq(input, 0, n, "f") || text_eq(input, 0, n, "false") || text_eq(input, 0, n, "0") {
        Some(false)
    } else {
        None
    }
}

/// Reads the `lazer` or `stable` flag, failing with `err`.
pub fn parse_lazer(input: &str, err: ParseError) -> (r: Result<bool, ParseError>)
    ensures
        match flag_value(input@) {
            Some(b) => r == Ok::<bool, ParseError>(b),
            None => r == Err::<bool, ParseError>(err),
        },
{
    match parse_bool(input) {
        Some(b) => Ok(b),
        None => Err(err),
    }
}

} // verus!
