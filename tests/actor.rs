use raid_finder::actor::TweetActor;
use raid_finder::error::Error;
use raid_finder::language::{Language, TranslatorResult};
use raid_finder::models::{Entity, Media, Tweet, User};
use raid_finder::records::{RaidBossRaw, RaidTweet};
use raid_finder::translator::{last_segment_of, name_from_translator_key, TranslatorMap};

fn jp_tweet() -> Tweet {
    Tweet {
        id: 1390247452125458434,
        text: "麻痹延长 7D705AE2 :参戦ID\n参加者募集！\nLv150 プロトバハムート\nhttps://t.co/MYfvDDTSrh".into(),
        source: r#"<a href="http://granbluefantasy.jp/" rel="nofollow">グランブルー ファンタジー</a>"#.into(),
        entities: Entity {
            media: Some(vec![Media { media_url_https: "https://pbs.twimg.com/media/CdL4WyxUYAIXPb8.jpg".into() }]),
        },
        timestamp_ms: "1620698515453".to_string(),
        user: User { screen_name: "".to_string(), profile_image_url_https: "".to_string() },
    }
}

fn en_tweet() -> Tweet {
    Tweet {
        id: 1390247452125458434,
        text: "I love granblue fantasy 7D705AE2 :Battle ID\nI need backup!\nLvl 150 Proto Bahamut\nhttps://t.co/MYfvDDTSrh"
            .into(),
        source: r#"<a href="http://granbluefantasy.jp/" rel="nofollow">グランブルー ファンタジー</a>"#.into(),
        entities: Entity {
            media: Some(vec![Media { media_url_https: "https://pbs.twimg.com/media/CdL4WyxUYAIXPb8.jpg".into() }]),
        },
        timestamp_ms: "1620698515453".to_string(),
        user: User { screen_name: "".to_string(), profile_image_url_https: "".to_string() },
    }
}

fn seeded_map() -> TranslatorMap {
    let mut map = TranslatorMap::new();
    map.insert("Lv150 プロトバハムート".into(), "Lvl 150 Proto Bahamut".into());
    map.insert("Lvl 150 Proto Bahamut".into(), "Lv150 プロトバハムート".into());
    map
}

#[test]
fn test_jp_tweet_actor_translation() {
    // The worker's comparison is an outside call; its outcome is handed in.
    let mut map = TranslatorMap::new();
    let (raid_boss_raw, _raid_tweet, _key) = TweetActor::parse_tweet(jp_tweet()).unwrap();
    let (first, spawn) = map.translate_boss_name(&raid_boss_raw);
    assert_eq!(first, TranslatorResult::Pending);
    assert!(spawn);
    let (again, spawn_again) = map.translate_boss_name(&raid_boss_raw);
    assert_eq!(again, TranslatorResult::Pending);
    assert!(!spawn_again);
    let writes = map.finish_translation(&raid_boss_raw, Some("Lvl 150 Proto Bahamut".to_string()));
    assert_eq!(2, writes.translator_entries.len());
    let mut translated_name = String::from("");
    let max_retry = 10;
    for _ in 0..max_retry {
        match map.translate_boss_name(&raid_boss_raw).0 {
            TranslatorResult::Pending => {}
            TranslatorResult::Success { result } => {
                translated_name = result;
                break;
            }
        }
    }
    assert_eq!("Lvl 150 Proto Bahamut", translated_name.to_string());
}

#[test]
fn test_jp_tweet_actor_already_translated() {
    let mut map = seeded_map();
    let (raid_boss_raw, raid_tweet, _key) = TweetActor::parse_tweet(jp_tweet()).unwrap();
    assert_eq!(raid_boss_raw.boss_name, "Lv150 プロトバハムート");
    assert_eq!(raid_boss_raw.level, 150);
    assert_eq!(raid_boss_raw.image, "https://pbs.twimg.com/media/CdL4WyxUYAIXPb8.jpg");
    assert_eq!(raid_tweet.boss_name, "Lv150 プロトバハムート");
    assert_eq!(raid_tweet.tweet_id, 1390247452125458434);
    let translated_name = map.translate_boss_name(&raid_boss_raw).0;
    assert_eq!("Lvl 150 Proto Bahamut", translated_name.to_text());
}

#[test]
fn test_en_tweet_already_translated() {
    let mut map = seeded_map();
    let (raid_boss_raw, raid_tweet, _key) = TweetActor::parse_tweet(en_tweet()).unwrap();
    assert_eq!(raid_boss_raw.boss_name, "Lvl 150 Proto Bahamut");
    assert_eq!(raid_boss_raw.level, 150);
    assert_eq!(raid_boss_raw.image, "https://pbs.twimg.com/media/CdL4WyxUYAIXPb8.jpg");
    assert_eq!(raid_tweet.boss_name, "Lvl 150 Proto Bahamut");
    assert_eq!(raid_tweet.tweet_id, 1390247452125458434);
    let translated_name = map.translate_boss_name(&raid_boss_raw).0;
    assert_eq!("Lv150 プロトバハムート", translated_name.to_text());
}

#[test]
fn english_invitation_leaves_with_japanese_name() {
    let mut map = seeded_map();
    let (raw, invitation, key) = TweetActor::parse_tweet(en_tweet()).unwrap();
    assert_eq!("gbf:en:150.Lvl 150 Proto Bahamut", key);
    let (outcome, spawn) = map.translate_boss_name(&raw);
    assert!(!spawn);
    let sent = TweetActor::translate_tweet(&raw, invitation, outcome).unwrap();
    assert_eq!("Lv150 プロトバハムート", sent.boss_name);
    let (sent, persist_key) = TweetActor::persist_raid_tweet(sent);
    assert_eq!(
        "gbf:persistence:Lv150 プロトバハムート.1390247452125458434.1620698515453",
        persist_key
    );
    assert_eq!(1390247452125458434, sent.tweet_id);
}

#[test]
fn english_invitation_without_translation_is_not_sent() {
    let (raw, invitation, _) = TweetActor::parse_tweet(en_tweet()).unwrap();
    match TweetActor::translate_tweet(&raw, invitation, TranslatorResult::Pending) {
        Err(Error::CannotTranslate { name }) => assert_eq!("Lvl 150 Proto Bahamut", name),
        _ => panic!("expected CannotTranslate"),
    }
}

#[test]
fn japanese_invitation_passes_through() {
    let (raw, invitation, _) = TweetActor::parse_tweet(jp_tweet()).unwrap();
    let sent = TweetActor::translate_tweet(&raw, invitation, TranslatorResult::Pending).unwrap();
    assert_eq!("Lv150 プロトバハムート", sent.boss_name);
}

#[test]
fn finished_translation_writes_mirrored_entries_and_paired_boss() {
    let mut map = TranslatorMap::new();
    let raw = RaidBossRaw::with_args("Lv200 アーカーシャ", 200, "img", Language::Japanese);
    map.translate_boss_name(&raw);
    let writes = map.finish_translation(&raw, Some("Lvl 200 Akasha".to_string()));
    assert_eq!(
        vec![
            ("gbf:translator:Lv200 アーカーシャ".to_string(), "Lvl 200 Akasha".to_string()),
            ("gbf:translator:Lvl 200 Akasha".to_string(), "Lv200 アーカーシャ".to_string()),
        ],
        writes.translator_entries
    );
    let (key, boss) = writes.paired_boss.unwrap();
    assert_eq!("gbf:boss:200.Lv200 アーカーシャ", key);
    assert_eq!("Lvl 200 Akasha", boss.en_name);
    assert_eq!("Lv200 アーカーシャ", boss.jp_name);
    assert_eq!(Some("Lv200 アーカーシャ".to_string()), map.get("Lvl 200 Akasha"));
}

#[test]
fn failed_translation_drops_reservation() {
    let mut map = TranslatorMap::new();
    let raw = RaidBossRaw::with_args("Lvl 100 Nobody", 100, "img", Language::English);
    assert!(map.translate_boss_name(&raw).1);
    let writes = map.finish_translation(&raw, None);
    assert!(writes.translator_entries.is_empty());
    assert!(writes.paired_boss.is_none());
    assert_eq!(None, map.get("Lvl 100 Nobody"));
    // a later status may try again
    assert!(map.translate_boss_name(&raw).1);
}

#[test]
fn candidate_keys_skip_resolved_names() {
    let map = seeded_map();
    let keys = vec![
        "gbf:en:150.Lvl 150 Proto Bahamut".to_string(),
        "gbf:en:150.Lvl 150 Other".to_string(),
    ];
    assert_eq!(vec!["gbf:en:150.Lvl 150 Other".to_string()], map.candidate_keys(&keys));
    assert_eq!("c", last_segment_of("a.b.c"));
    assert_eq!("abc", last_segment_of("abc"));
}

#[test]
fn translator_map_from_store_entries() {
    let keys = vec!["gbf:translator:a".to_string(), "gbf:translator:b".to_string()];
    let values = vec!["b".to_string(), "a".to_string()];
    let map = TranslatorMap::from_entries(&keys, &values);
    assert_eq!(Some("b".to_string()), map.get("a"));
    assert_eq!(Some("a".to_string()), map.get("b"));
    assert_eq!("x", name_from_translator_key("gbf:translator:x"));
    assert_eq!("other:x", name_from_translator_key("other:x"));
}

#[test]
fn persisted_key_uses_invitation_fields() {
    let t = RaidTweet::with_args(1, "s", 2, "Lv200 アーカーシャ", "ABCDEF01", "", Language::Japanese, "p");
    let (_, key) = TweetActor::persist_raid_tweet(t);
    assert_eq!("gbf:persistence:Lv200 アーカーシャ.1.2", key);
}
