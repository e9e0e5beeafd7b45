use bathbot_cache::args::{Args, ArgsNum};
use bathbot_cache::embeds::{ComboFormatter, HitResultFormatter, HitStats, KeyFormatter, MarkIndex, SingleScoreContent};
use bathbot_cache::errors::{parse_bool, parse_lazer, InvalidHelpState, ParseError};
use bathbot_cache::names::{CompareProfile, MultNameArgs, NameArgs, NameIntArgs};
use bathbot_cache::labels::{first_last_max, idx_suffix, mode_str, plural, MonthlyCount};
use bathbot_cache::osu::{
    flag_url, flag_url_size, flag_url_svg, validation_outcome, GameMods, GradeGameMods, MapIdType, ModSelection,
    DOUBLE_TIME, HIDDEN, NIGHTCORE, PERFECT, SUDDEN_DEATH,
};
use bathbot_cache::rank::{get_mention_user, parse_u32, RankFormat, RankHolder, RankOrHolder, RankPp};
use bathbot_cache::resource::GameMode;

fn mods(bits: u32) -> GameMods {
    GameMods { bits }
}

#[test]
fn include_counts_nightcore_as_double_time() {
    let sel = ModSelection::Include(mods(DOUBLE_TIME));
    assert!(sel.filter_score(mods(NIGHTCORE)));
    assert!(sel.filter_score(mods(DOUBLE_TIME | HIDDEN)));
    assert!(!sel.filter_score(mods(HIDDEN)));
    let sel = ModSelection::Include(mods(SUDDEN_DEATH));
    assert!(sel.filter_score(mods(PERFECT)));
    assert!(ModSelection::Include(mods(0)).filter_score(mods(0)));
    assert!(!ModSelection::Include(mods(0)).filter_score(mods(HIDDEN)));
}

#[test]
fn exclude_and_exact() {
    assert!(!ModSelection::Exclude(mods(DOUBLE_TIME)).filter_score(mods(NIGHTCORE)));
    assert!(ModSelection::Exclude(mods(DOUBLE_TIME)).filter_score(mods(HIDDEN)));
    assert!(ModSelection::Exclude(mods(0)).filter_score(mods(HIDDEN)));
    assert!(!ModSelection::Exclude(mods(0)).filter_score(mods(0)));
    assert!(ModSelection::Exact(mods(HIDDEN)).filter_score(mods(HIDDEN)));
    assert!(!ModSelection::Exact(mods(HIDDEN)).filter_score(mods(HIDDEN | DOUBLE_TIME)));
    assert_eq!(ModSelection::Exact(mods(HIDDEN)).into_mods(), mods(HIDDEN));
    assert_eq!(*ModSelection::Exclude(mods(8)).as_mods(), mods(8));
}

#[test]
fn filter_scores_keeps_order_and_ignores_equivalents() {
    let mut scores = vec![mods(HIDDEN), mods(NIGHTCORE), mods(DOUBLE_TIME | HIDDEN), mods(0)];
    ModSelection::Include(mods(DOUBLE_TIME)).filter_scores(&mut scores);
    assert_eq!(scores, vec![mods(DOUBLE_TIME | HIDDEN)]);
    let mut scores = vec![mods(HIDDEN), mods(0), mods(DOUBLE_TIME)];
    ModSelection::Exclude(mods(0)).filter_scores(&mut scores);
    assert_eq!(scores, vec![mods(HIDDEN), mods(DOUBLE_TIME)]);
}

#[test]
fn grade_mods() {
    let m = mods(HIDDEN | 1024);
    assert!(m.hd());
    assert!(m.fl());
    assert!(!m.fi());
}

#[test]
fn flag_urls() {
    assert_eq!(flag_url("be"), "https://osuflags.omkserver.nl/be-256.png");
    assert_eq!(flag_url_size("de", 70), "https://osuflags.omkserver.nl/de-70.png");
    assert_eq!(flag_url_svg("be"), "https://osu.ppy.sh/assets/images/flags/1f1e7-1f1ea.svg");
    assert_eq!(flag_url_svg("US"), "https://osu.ppy.sh/assets/images/flags/1f1fa-1f1f8.svg");
}

#[test]
fn formatters() {
    assert_eq!(ComboFormatter::new(123, Some(456)).render(), "**123x**/456x");
    assert_eq!(ComboFormatter::new(7, None).render(), "**7x**/-");
    assert_eq!(KeyFormatter::new(mods(32768), 7).render(), "[4K]");
    assert_eq!(KeyFormatter::new(mods(0), 7).render(), "[7K]");
    let stats = HitStats {
        perfect: 1,
        great: 2,
        good: 3,
        ok: 4,
        meh: 5,
        miss: 6,
        large_tick_hit: 10,
        small_tick_hit: 0,
    };
    assert_eq!(HitResultFormatter::new(GameMode::Osu, stats).render(), "{2/4/5/6}");
    assert_eq!(HitResultFormatter::new(GameMode::Mania, stats).render(), "{1/2/3/4/5/6}");
    assert_eq!(HitResultFormatter::new(GameMode::Taiko, stats).render(), "{2/4/6}");
    assert_eq!(HitResultFormatter::new(GameMode::Catch, stats).render(), "{2/10/5/6}");
}

#[test]
fn page_contents_and_marks() {
    let c = SingleScoreContent::OnlyForIndex { idx: 2, content: "hi".to_string() };
    assert_eq!(c.content_for(2), "hi");
    assert_eq!(c.content_for(1), "");
    assert_eq!(SingleScoreContent::SameForAll("x".to_string()).content_for(9), "x");
    assert_eq!(SingleScoreContent::Nothing.content_for(0), "");
    assert!(MarkIndex::Mark(3).marks(3));
    assert!(!MarkIndex::Mark(3).marks(4));
    assert!(!MarkIndex::Skip.marks(0));
    assert_eq!(MapIdType::Beatmap(5).id(), 5);
}

#[test]
fn error_messages() {
    assert_eq!(ParseError::Acc.into_str(), "Failed to parse accuracy, must be a number");
    assert_eq!(ParseError::Ar.into_str(), "Failed to parsed AR, must be a number");
    assert_eq!(ParseError::nom("x=").into_str(), "Failed to parse argument `x=`");
    let unknown = ParseError::unknown("foo").into_str();
    assert!(unknown.starts_with("Unknown key `foo`. Must be `mods`, `lazer`"));
    assert!(unknown.ends_with("`hp`, or `od`"));
    assert_eq!(InvalidHelpState::MissingTitle.message(), "missing embed title");
}

#[test]
fn name_arguments() {
    assert_eq!(NameArgs::new(Args::new("peppy  cookiezi", ArgsNum::NoNumber)).name.as_deref(), Some("peppy"));
    assert!(NameArgs::new(Args::new("   ", ArgsNum::NoNumber)).name.is_none());
    let names = MultNameArgs::new(Args::new("a b a c d", ArgsNum::NoNumber), 4).names;
    assert_eq!(names, vec!["a".to_string(), "b".to_string(), "c".to_string()]);
    let args = NameIntArgs::new(Args::new("42 peppy +7", ArgsNum::NoNumber));
    assert_eq!(args.name.as_deref(), Some("peppy"));
    assert_eq!(args.number, Some(7));
    let args = NameIntArgs::new(Args::new("4294967296", ArgsNum::NoNumber));
    assert_eq!(args.name.as_deref(), Some("4294967296"));
    assert_eq!(args.number, None);
}

#[test]
fn numbers_and_mentions() {
    assert_eq!(parse_u32("+12"), Some(12));
    assert_eq!(parse_u32("4294967295"), Some(u32::MAX));
    assert_eq!(parse_u32("4294967296"), None);
    assert_eq!(parse_u32(""), None);
    assert_eq!(parse_u32("+"), None);
    assert_eq!(parse_u32("1a"), None);
    assert_eq!(get_mention_user("<@123>"), Some(123));
    assert_eq!(get_mention_user("<@!456>"), Some(456));
    assert_eq!(get_mention_user("<@x>"), None);
    assert_eq!(get_mention_user("peppy"), None);
}

#[test]
fn mention_becomes_the_user() {
    let args = RankPp::args(None, Args::new("<@55> 100", ArgsNum::NoNumber)).unwrap();
    assert_eq!(args.rank, "100");
    assert!(args.name.is_none());
    assert_eq!(args.discord, Some(55));
    assert!(RankPp::args(None, Args::new("", ArgsNum::NoNumber)).is_err());
    assert!(RankPp::args(None, Args::new("<@55>", ArgsNum::NoNumber)).is_err());
    let args = RankPp::args(Some(GameMode::Taiko), Args::new("rank=mrekk", ArgsNum::NoNumber)).unwrap();
    assert_eq!(args.rank, "mrekk");
    assert_eq!(args.mode, Some(GameMode::Taiko));
}

#[test]
fn mod_validation() {
    let osu = GameMode::Osu;
    assert_eq!(ModSelection::Include(mods(HIDDEN)).validate(osu), Ok(()));
    assert_eq!(
        ModSelection::Exact(mods(2 | 16)).validate(osu),
        Err("Looks like an invalid mod combination")
    );
    assert_eq!(
        ModSelection::Include(mods(1048576)).validate(GameMode::Taiko),
        Err("Looks like inappropriate mods for the mode")
    );
    assert_eq!(ModSelection::Exclude(mods(2 | 16)).validate(osu), Ok(()));
    assert_eq!(validation_outcome(false, true), Err("Looks like inappropriate mods for the mode"));
    assert_eq!(validation_outcome(true, true), Ok(()));
    assert_eq!(validation_outcome(true, false), Err("Looks like an invalid mod combination"));
}

#[test]
fn labels() {
    assert_eq!(idx_suffix(1), "st");
    assert_eq!(idx_suffix(2), "nd");
    assert_eq!(idx_suffix(3), "rd");
    assert_eq!(idx_suffix(4), "th");
    assert_eq!(idx_suffix(11), "th");
    assert_eq!(idx_suffix(112), "th");
    assert_eq!(idx_suffix(121), "st");
    assert_eq!(plural("peppy"), "'s");
    assert_eq!(plural("mrekks"), "'");
    assert_eq!(plural(""), "'s");
    assert_eq!(mode_str(GameMode::Osu), "");
    assert_eq!(mode_str(GameMode::Catch), "ctb");
    let counts = vec![
        MonthlyCount { start_day: 10, count: 1 },
        MonthlyCount { start_day: 40, count: 7 },
        MonthlyCount { start_day: 70, count: 3 },
    ];
    assert_eq!(first_last_max(&counts), (10, 70, 7));
    assert_eq!(first_last_max(&vec![MonthlyCount { start_day: 5, count: 0 }]), (5, 5, 2));
}

#[test]
fn compare_two_players() {
    let args = CompareProfile::args(None, Args::new("<@1> peppy <@3>", ArgsNum::NoNumber));
    assert_eq!(args.discord1, Some(1));
    assert_eq!(args.name1.as_deref(), Some("peppy"));
    assert!(args.name2.is_none());
    assert!(args.discord2.is_none());
    let args = CompareProfile::args(Some(GameMode::Mania), Args::new("a b", ArgsNum::NoNumber));
    assert_eq!((args.name1.as_deref(), args.name2.as_deref()), (Some("a"), Some("b")));
    assert_eq!(args.mode, Some(GameMode::Mania));
    let args = CompareProfile::args(None, Args::new("<@1> <@2>", ArgsNum::NoNumber));
    assert_eq!((args.discord1, args.discord2), (Some(1), Some(2)));
}

#[test]
fn boolean_flags() {
    for yes in ["t", "true", "1"] {
        assert_eq!(parse_bool(yes), Some(true));
    }
    for no in ["f", "false", "0"] {
        assert_eq!(parse_bool(no), Some(false));
    }
    assert_eq!(parse_bool("tru"), None);
    assert_eq!(parse_bool("yes"), None);
    assert_eq!(parse_lazer("1", ParseError::Lazer), Ok(true));
    assert_eq!(parse_lazer("123", ParseError::Stable), Err(ParseError::Stable));
}

#[test]
fn rank_formats() {
    let holder = || RankHolder { country_code: "BE".to_string(), global_rank: 3456 };
    assert_eq!(RankFormat::new(123, true, holder()).render(), "#123");
    assert_eq!(RankFormat::new(12, false, holder()).render(), "BE12 (#3456)");
    assert_eq!(RankOrHolder::Rank(5).rank(), 5);
    assert_eq!(RankOrHolder::Holder(holder()).rank(), 3456);
}
