use bathbot_cache::args::{Args, ArgsNum};
use bathbot_cache::rank::RankPp;

#[test]
fn only_rank() {
    let args = Args::new("123", ArgsNum::NoNumber);
    let args = RankPp::args(None, args).unwrap();

    assert_eq!(args.rank, "123");
    assert!(args.name.is_none());
    assert!(args.country.is_none());
}

#[test]
fn only_prefixed_rank() {
    let args = Args::new("rank=123", ArgsNum::NoNumber);
    let args = RankPp::args(None, args).unwrap();

    assert_eq!(args.rank, "123");
    assert!(args.name.is_none());
    assert!(args.country.is_none());
}

#[test]
fn only_country_rank() {
    let args = Args::new("be123", ArgsNum::NoNumber);
    let args = RankPp::args(None, args).unwrap();

    assert_eq!(args.rank, "123");
    assert!(args.name.is_none());
    assert_eq!(args.country.as_deref(), Some("be"));
}

#[test]
fn only_prefixed_country_rank() {
    let args = Args::new("rank=be123", ArgsNum::NoNumber);
    let args = RankPp::args(None, args).unwrap();

    assert_eq!(args.rank, "123");
    assert!(args.name.is_none());
    assert_eq!(args.country.as_deref(), Some("be"));
}

#[test]
fn two_names() {
    let args = Args::new("peppy smoogi", ArgsNum::NoNumber);
    let args = RankPp::args(None, args).unwrap();

    assert_eq!(args.rank, "peppy");
    assert_eq!(args.name.as_deref(), Some("smoogi"));
    assert!(args.country.is_none());
}

#[test]
fn two_names_first_prefixed() {
    let args = Args::new("user=cd36 peppy", ArgsNum::NoNumber);
    let args = RankPp::args(None, args).unwrap();

    assert_eq!(args.rank, "peppy");
    assert_eq!(args.name.as_deref(), Some("cd36"));
    assert!(args.country.is_none());
}

#[test]
fn two_names_second_prefixed() {
    let args = Args::new("peppy user=cd36", ArgsNum::NoNumber);
    let args = RankPp::args(None, args).unwrap();

    assert_eq!(args.rank, "peppy");
    assert_eq!(args.name.as_deref(), Some("cd36"));
    assert!(args.country.is_none());
}

#[test]
fn two_names_both_prefixed() {
    let args = Args::new("user=peppy user=cd36", ArgsNum::NoNumber);
    let args = RankPp::args(None, args).unwrap();

    assert_eq!(args.rank, "peppy");
    assert_eq!(args.name.as_deref(), Some("cd36"));
    assert!(args.country.is_none());
}

#[test]
fn rank_name() {
    let args = Args::new("123 peppy", ArgsNum::NoNumber);
    let args = RankPp::args(None, args).unwrap();

    assert_eq!(args.rank, "123");
    assert_eq!(args.name.as_deref(), Some("peppy"));
    assert!(args.country.is_none());
}

#[test]
fn country_rank_name() {
    let args = Args::new("cd36 peppy", ArgsNum::NoNumber);
    let args = RankPp::args(None, args).unwrap();

    assert_eq!(args.rank, "36");
    assert_eq!(args.name.as_deref(), Some("peppy"));
    assert_eq!(args.country.as_deref(), Some("cd"));
}

#[test]
fn prefixed_rank_name() {
    let args = Args::new("rank=123 peppy", ArgsNum::NoNumber);
    let args = RankPp::args(None, args).unwrap();

    assert_eq!(args.rank, "123");
    assert_eq!(args.name.as_deref(), Some("peppy"));
    assert!(args.country.is_none());
}

#[test]
fn prefixed_country_rank_name() {
    let args = Args::new("rank=cd36 peppy", ArgsNum::NoNumber);
    let args = RankPp::args(None, args).unwrap();

    assert_eq!(args.rank, "36");
    assert_eq!(args.name.as_deref(), Some("peppy"));
    assert_eq!(args.country.as_deref(), Some("cd"));
}

#[test]
fn rank_prefixed_name() {
    let args = Args::new("123 user=cd36", ArgsNum::NoNumber);
    let args = RankPp::args(None, args).unwrap();

    assert_eq!(args.rank, "123");
    assert_eq!(args.name.as_deref(), Some("cd36"));
    assert!(args.country.is_none());
}

#[test]
fn country_rank_prefixed_name() {
    let args = Args::new("cd36 user=peppy", ArgsNum::NoNumber);
    let args = RankPp::args(None, args).unwrap();

    assert_eq!(args.rank, "36");
    assert_eq!(args.name.as_deref(), Some("peppy"));
    assert_eq!(args.country.as_deref(), Some("cd"));
}

#[test]
fn prefixed_rank_prefixed_name() {
    let args = Args::new("rank=123 user=peppy", ArgsNum::NoNumber);
    let args = RankPp::args(None, args).unwrap();

    assert_eq!(args.rank, "123");
    assert_eq!(args.name.as_deref(), Some("peppy"));
    assert!(args.country.is_none());
}

#[test]
fn prefixed_country_rank_prefixed_name() {
    let args = Args::new("rank=cd36 user=peppy", ArgsNum::NoNumber);
    let args = RankPp::args(None, args).unwrap();

    assert_eq!(args.rank, "36");
    assert_eq!(args.name.as_deref(), Some("peppy"));
    assert_eq!(args.country.as_deref(), Some("cd"));
}

#[test]
fn name_rank() {
    let args = Args::new("peppy 123", ArgsNum::NoNumber);
    let args = RankPp::args(None, args).unwrap();

    assert_eq!(args.rank, "123");
    assert_eq!(args.name.as_deref(), Some("peppy"));
    assert!(args.country.is_none());
}

#[test]
fn name_country_rank() {
    let args = Args::new("peppy be123", ArgsNum::NoNumber);
    let args = RankPp::args(None, args).unwrap();

    assert_eq!(args.rank, "123");
    assert_eq!(args.name.as_deref(), Some("peppy"));
    assert_eq!(args.country.as_deref(), Some("be"));
}

#[test]
fn name_prefixed_rank() {
    let args = Args::new("peppy rank=123", ArgsNum::NoNumber);
    let args = RankPp::args(None, args).unwrap();

    assert_eq!(args.rank, "123");
    assert_eq!(args.name.as_deref(), Some("peppy"));
    assert!(args.country.is_none());
}

#[test]
fn name_prefixed_country_rank() {
    let args = Args::new("peppy rank=be123", ArgsNum::NoNumber);
    let args = RankPp::args(None, args).unwrap();

    assert_eq!(args.rank, "123");
    assert_eq!(args.name.as_deref(), Some("peppy"));
    assert_eq!(args.country.as_deref(), Some("be"));
}

#[test]
fn prefixed_name_rank() {
    let args = Args::new("user=cd36 123", ArgsNum::NoNumber);
    let args = RankPp::args(None, args).unwrap();

    assert_eq!(args.rank, "123");
    assert_eq!(args.name.as_deref(), Some("cd36"));
    assert!(args.country.is_none());
}

#[test]
fn prefixed_name_country_rank() {
    let args = Args::new("user=cd36 be123", ArgsNum::NoNumber);
    let args = RankPp::args(None, args).unwrap();

    assert_eq!(args.rank, "123");
    assert_eq!(args.name.as_deref(), Some("cd36"));
    assert_eq!(args.country.as_deref(), Some("be"));
}

#[test]
fn prefixed_name_prefixed_rank() {
    let args = Args::new("user=cd36 rank=123", ArgsNum::NoNumber);
    let args = RankPp::args(None, args).unwrap();

    assert_eq!(args.rank, "123");
    assert_eq!(args.name.as_deref(), Some("cd36"));
    assert!(args.country.is_none());
}

#[test]
fn prefixed_name_prefixed_country_rank() {
    let args = Args::new("user=cd36 rank=be123", ArgsNum::NoNumber);
    let args = RankPp::args(None, args).unwrap();

    assert_eq!(args.rank, "123");
    assert_eq!(args.name.as_deref(), Some("cd36"));
    assert_eq!(args.country.as_deref(), Some("be"));
}

#[test]
fn two_ranks() {
    let args = Args::new("cd36 be123", ArgsNum::NoNumber);
    let args = RankPp::args(None, args).unwrap();

    assert_eq!(args.rank, "36");
    assert_eq!(args.name.as_deref(), Some("be123"));
    assert_eq!(args.country.as_deref(), Some("cd"));
}

#[test]
fn two_ranks_first_prefixed() {
    let args = Args::new("rank=cd36 be123", ArgsNum::NoNumber);
    let args = RankPp::args(None, args).unwrap();

    assert_eq!(args.rank, "36");
    assert_eq!(args.name.as_deref(), Some("be123"));
    assert_eq!(args.country.as_deref(), Some("cd"));
}

#[test]
fn two_ranks_second_prefixed() {
    let args = Args::new("cd36 rank=be123", ArgsNum::NoNumber);
    let args = RankPp::args(None, args).unwrap();

    assert_eq!(args.rank, "123");
    assert_eq!(args.name.as_deref(), Some("cd36"));
    assert_eq!(args.country.as_deref(), Some("be"));
}
