use raid_finder::actor::TweetActor;
use raid_finder::error::Error;
use raid_finder::language::Language;
use raid_finder::models::{Entity, Media, Tweet, User};
use raid_finder::parser::{parse_u64, StatusParser};

const SOURCE: &str = r#"<a href="http://granbluefantasy.jp/" rel="nofollow">グランブルー ファンタジー</a>"#;

fn status(text: &str, media: Option<Vec<&str>>, timestamp: &str) -> Tweet {
    Tweet {
        id: 1390247452125458434,
        text: text.to_string(),
        source: SOURCE.to_string(),
        entities: Entity {
            media: media.map(|m| m.into_iter().map(|u| Media { media_url_https: u.to_string() }).collect()),
        },
        timestamp_ms: timestamp.to_string(),
        user: User { screen_name: "".to_string(), profile_image_url_https: "".to_string() },
    }
}

#[test]
fn test_jp_parser() {
    let tweet = Tweet {
        id: 1390247452125458434,
        text: "麻痹延长 7D705AE2 :参戦ID\n参加者募集！\nLv150 プロトバハムート\nhttps://t.co/MYfvDDTSrh".into(),
        source: r#"<a href="http://granbluefantasy.jp/" rel="nofollow">グランブルー ファンタジー</a>"#.into(),
        entities: Entity {
            media: Some(vec![Media { media_url_https: "https://pbs.twimg.com/media/CdL4WyxUYAIXPb8.jpg".into() }]),
        },
        timestamp_ms: "1620698515453".to_string(),
        user: User { screen_name: "".to_string(), profile_image_url_https: "".to_string() },
    };
    let raid_boss = StatusParser::parse(tweet).unwrap().0;
    assert_eq!("Lv150 プロトバハムート", raid_boss.get_boss_name());
    assert_eq!(150, raid_boss.get_level());
    assert_eq!("https://pbs.twimg.com/media/CdL4WyxUYAIXPb8.jpg", raid_boss.get_image());
    assert_eq!(Language::Japanese.name(), raid_boss.get_language());
}

#[test]
fn japanese_invitation_fields() {
    let tweet = status(
        "麻痹延长 7D705AE2 :参戦ID\n参加者募集！\nLv150 プロトバハムート\nhttps://t.co/MYfvDDTSrh",
        Some(vec!["https://pbs.twimg.com/media/CdL4WyxUYAIXPb8.jpg"]),
        "1620698515453",
    );
    let (raw, invitation) = StatusParser::parse(tweet).unwrap();
    assert_eq!("Japanese", raw.language);
    assert_eq!("7D705AE2", invitation.raid_id);
    assert_eq!("麻痹延长 ", invitation.text);
    assert_eq!("Lv150 プロトバハムート", invitation.boss_name);
    assert_eq!(1620698515453, invitation.created);
    assert_eq!(1390247452125458434, invitation.tweet_id);
}

#[test]
fn english_post_with_lvl_prefix() {
    let tweet = status(
        "I love granblue fantasy 7D705AE2 :Battle ID\nI need backup!\nLvl 150 Proto Bahamut\nhttps://t.co/MYfvDDTSrh",
        Some(vec!["https://pbs.twimg.com/media/CdL4WyxUYAIXPb8.jpg", "https://other"]),
        "1620698515453",
    );
    let (raw, invitation) = StatusParser::parse(tweet).unwrap();
    assert_eq!("Lvl 150 Proto Bahamut", raw.boss_name);
    assert_eq!(150, raw.level);
    assert_eq!("English", raw.language);
    assert_eq!("https://pbs.twimg.com/media/CdL4WyxUYAIXPb8.jpg", raw.image);
    assert_eq!("I love granblue fantasy ", invitation.text);
}

#[test]
fn parsing_twice_gives_equal_pairs() {
    let text = "x 0123ABCD :参戦ID\n参加者募集！\nLv75 シュヴァリエ・マグナ\nhttps://t.co/a";
    let a = StatusParser::parse(status(text, Some(vec!["m"]), "5")).unwrap();
    let b = StatusParser::parse(status(text, Some(vec!["m"]), "5")).unwrap();
    assert_eq!(a.0.boss_name, b.0.boss_name);
    assert_eq!(a.0.level, b.0.level);
    assert_eq!(a.1.raid_id, b.1.raid_id);
    assert_eq!(a.1.text, b.1.text);
    assert_eq!(a.1.created, b.1.created);
}

#[test]
fn no_media_or_no_template_gives_nothing() {
    let text = "7D705AE2 :参戦ID\n参加者募集！\nLv150 プロトバハムート\nhttps://t.co/MYfvDDTSrh";
    assert!(StatusParser::parse(status(text, None, "1")).is_none());
    assert!(StatusParser::parse(status(text, Some(vec![]), "1")).is_none());
    assert!(StatusParser::parse(status("hello world", Some(vec!["m"]), "1")).is_none());
    // lower-case hex is no battle id
    assert!(StatusParser::parse(status("7d705ae2 :参戦ID\n参加者募集！\nLv1 a\nu", Some(vec!["m"]), "1")).is_none());
    // the boss line must end with a line break
    assert!(StatusParser::parse(status("7D705AE2 :参戦ID\n参加者募集！\nLv1 a", Some(vec!["m"]), "1")).is_none());
    assert!(StatusParser::parse(status(text, Some(vec!["m"]), "not a number")).is_none());
}

#[test]
fn last_battle_id_wins_and_blurb_is_longest() {
    let text = "AAAAAAAA :参戦ID\n参加者募集！\nLv1 a\nBBBBBBBB :参戦ID\n参加者募集！\nLv2 b\nu";
    let (raw, invitation) = StatusParser::parse(status(text, Some(vec!["m"]), "1")).unwrap();
    assert_eq!("BBBBBBBB", invitation.raid_id);
    assert_eq!("Lv2 b", raw.boss_name);
    assert_eq!("AAAAAAAA :参戦ID\n参加者募集！\nLv1 a\n", invitation.text);
}

#[test]
fn level_without_number_or_too_large_is_zero() {
    let t1 = "12345678 :Battle ID\nI need backup!\nProto Bahamut\nu";
    let (raw, _) = StatusParser::parse(status(t1, Some(vec!["m"]), "1")).unwrap();
    assert_eq!(0, raw.level);
    let t2 = "12345678 :Battle ID\nI need backup!\nLvl 99999999999 Huge\nu";
    let (raw, _) = StatusParser::parse(status(t2, Some(vec!["m"]), "1")).unwrap();
    assert_eq!(0, raw.level);
    let t3 = "12345678 :Battle ID\nI need backup!\nLv200 Lvl 100 Two\nu";
    let (raw, _) = StatusParser::parse(status(t3, Some(vec!["m"]), "1")).unwrap();
    assert_eq!(200, raw.level);
}

#[test]
fn unsigned_decimal_reading() {
    assert_eq!(Some(1620698515453), parse_u64("1620698515453"));
    assert_eq!(Some(7), parse_u64("+7"));
    assert_eq!(Some(u64::MAX), parse_u64("18446744073709551615"));
    assert_eq!(None, parse_u64("18446744073709551616"));
    assert_eq!(None, parse_u64(""));
    assert_eq!(None, parse_u64("+"));
    assert_eq!(None, parse_u64("-1"));
}

#[test]
fn other_sources_are_refused() {
    let mut tweet = status("7D705AE2 :参戦ID\n参加者募集！\nLv1 a\nu", Some(vec!["m"]), "1");
    tweet.source = "web".to_string();
    match TweetActor::parse_tweet(tweet) {
        Err(Error::CannotParseTweet { tweet_id }) => assert_eq!(1390247452125458434, tweet_id),
        other => panic!("unexpected {:?}", other.is_ok()),
    }
}

#[test]
fn actor_parse_writes_raw_boss_key() {
    let tweet = status(
        "麻痹延长 7D705AE2 :参戦ID\n参加者募集！\nLv150 プロトバハムート\nhttps://t.co/MYfvDDTSrh",
        Some(vec!["https://pbs.twimg.com/media/CdL4WyxUYAIXPb8.jpg"]),
        "1620698515453",
    );
    let (_, _, key) = TweetActor::parse_tweet(tweet).unwrap();
    assert_eq!("gbf:jp:150.Lv150 プロトバハムート", key);
}
