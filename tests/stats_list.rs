use bathbot_cache::stats_list::{OsuStatsListEmbed, OsuStatsPlayer};

#[test]
fn second_page_of_the_list() {
    let players = vec![
        OsuStatsPlayer { user_id: 2, username: "peppy".to_string(), count: 1234567 },
        OsuStatsPlayer { user_id: 7, username: "mrekk".to_string(), count: 999 },
    ];
    let embed = OsuStatsListEmbed::new(&players, &Some("be".to_string()), 2, (2, 5));
    assert_eq!(embed.author.name, "Most global leaderboard scores");
    assert_eq!(embed.author.icon_url.as_deref(), Some("https://osuflags.omkserver.nl/be-256.png"));
    assert_eq!(
        embed.description,
        "**16. [peppy](https://osu.ppy.sh/users/2)**: 1,234,567\n**17. [mrekk](https://osu.ppy.sh/users/7)**: 999\n"
    );
    assert_eq!(embed.footer, "Page 2/5");
    assert_eq!(embed.thumbnail, "https://a.ppy.sh/2");
}

#[test]
fn list_without_country() {
    let players = vec![OsuStatsPlayer { user_id: 1, username: "a".to_string(), count: 1000 }];
    let embed = OsuStatsListEmbed::new(&players, &None, 1, (1, 1));
    assert!(embed.author.icon_url.is_none());
    assert_eq!(embed.description, "**1. [a](https://osu.ppy.sh/users/1)**: 1,000\n");
}
