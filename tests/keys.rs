use raid_finder::keys::{
    gbf_get_possible_boss_name, gbf_persistence_raid_tweet_key, gbf_persistence_raid_tweets_keys,
    gbf_raid_boss_jp_key_from_raw, gbf_raid_boss_key, gbf_raid_boss_keys, gbf_raid_boss_raw_key, gbf_redis_key,
    gbf_translator_key, gbf_translator_pattern,
};
use raid_finder::language::Language;
use raid_finder::records::{RaidBoss, RaidBossRaw};

#[test]
fn test_gbf_raid_boss_raw_key() {
    let raid_boss_raw = RaidBossRaw::with_args(
        "Lv200 アーカーシャ",
        200,
        r"https://pbs.twimg.com/media/DumtNdnUYAE9PCr.jpg",
        Language::Japanese,
    );
    let key = gbf_raid_boss_raw_key(&raid_boss_raw);
    assert_eq!("gbf:jp:200.Lv200 アーカーシャ", key);
}

#[test]
fn test_gbf_raid_boss_keys() {
    let key = gbf_raid_boss_keys(200);
    assert_eq!("gbf:boss:200.*", key);
    let key = gbf_raid_boss_keys(0);
    assert_eq!("gbf:boss:*.*", key);
}

#[test]
fn test_gbf_raid_boss_key() {
    let raid_boss = RaidBoss::with_args(
        "Lvl 200 Akasha",
        "Lv200 アーカーシャ",
        200,
        r"https://pbs.twimg.com/media/DumtNdnUYAE9PCr.jpg",
    );
    let jp_key = gbf_raid_boss_key(Language::Japanese, &raid_boss);
    let en_key = gbf_raid_boss_key(Language::English, &raid_boss);
    assert_eq!("gbf:boss:200.Lv200 アーカーシャ", jp_key);
    assert_eq!("gbf:boss:200.Lvl 200 Akasha", en_key);
}

#[test]
fn test_gbf_raid_boss_jp_key_from_jp_raw() {
    let raid_boss_raw = RaidBossRaw::with_args(
        "Lv200 アーカーシャ",
        200,
        r"https://pbs.twimg.com/media/DumtNdnUYAE9PCr.jpg",
        Language::Japanese,
    );
    let translated = "Lvl 200 Akasha";
    let jp_key = gbf_raid_boss_jp_key_from_raw(Language::Japanese, &raid_boss_raw, translated);
    assert_eq!("gbf:boss:200.Lv200 アーカーシャ", jp_key);
    let raid_boss_raw = RaidBossRaw::with_args(
        "Lvl 200 Akasha",
        200,
        r"https://pbs.twimg.com/media/DumtNdnUYAE9PCr.jpg",
        Language::English,
    );
    let translated = "Lv200 アーカーシャ";
    let jp_key = gbf_raid_boss_jp_key_from_raw(Language::English, &raid_boss_raw, translated);
    assert_eq!("gbf:boss:200.Lv200 アーカーシャ", jp_key);
}

#[test]
fn test_gbf_persistence_raid_tweets_keys() {
    let keys = gbf_persistence_raid_tweets_keys("Lv200 アーカーシャ");
    assert_eq!("gbf:persistence:Lv200 アーカーシャ.*", keys);
}

#[test]
fn test_gbf_persistence_raid_tweet_key() {
    let key = gbf_persistence_raid_tweet_key("Lv200 アーカーシャ", 1234567890, 12345678909999);
    assert_eq!("gbf:persistence:Lv200 アーカーシャ.1234567890.12345678909999", key);
}

#[test]
fn test_gbf_get_possible_boss_name() {
    let raid_boss_raw = RaidBossRaw::with_args(
        "Lv200 アーカーシャ",
        200,
        r"https://pbs.twimg.com/media/DumtNdnUYAE9PCr.jpg",
        Language::Japanese,
    );
    let jp_key = gbf_get_possible_boss_name(&raid_boss_raw, Language::Japanese);
    let en_key = gbf_get_possible_boss_name(&raid_boss_raw, Language::English);
    assert_eq!("gbf:jp:200.*", jp_key);
    assert_eq!("gbf:en:200.*", en_key);
}

#[test]
fn english_raw_key_and_negative_level() {
    let raw = RaidBossRaw::with_args("Lvl 150 Proto Bahamut", 150, "u", Language::English);
    assert_eq!("gbf:en:150.Lvl 150 Proto Bahamut", gbf_raid_boss_raw_key(&raw));
    let odd = RaidBossRaw::with_args("x", -7, "u", Language::English);
    assert_eq!("gbf:en:-7.x", gbf_raid_boss_raw_key(&odd));
    assert_eq!("gbf:-7.x", gbf_redis_key(&odd));
}

#[test]
fn translator_keys() {
    assert_eq!("gbf:translator:Lv150 プロトバハムート", gbf_translator_key("Lv150 プロトバハムート"));
    assert_eq!("gbf:translator:*", gbf_translator_pattern());
}

#[test]
fn largest_numbers_in_keys() {
    assert_eq!(
        "gbf:persistence:a.18446744073709551615.0",
        gbf_persistence_raid_tweet_key("a", u64::MAX, 0)
    );
    assert_eq!("gbf:boss:4294967295.*", gbf_raid_boss_keys(u32::MAX));
    let raw = RaidBossRaw::with_args("b", i32::MIN, "u", Language::Japanese);
    assert_eq!("gbf:jp:-2147483648.b", gbf_raid_boss_raw_key(&raw));
}
