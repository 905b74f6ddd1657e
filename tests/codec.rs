use raid_finder::language::Language;
use raid_finder::records::{RaidBoss, RaidBossRaw, RaidTweet};

#[test]
fn tweet_round_trip() {
    let t = RaidTweet::with_args(
        1390247452125458434,
        "someone",
        1620698515453,
        "Lv150 プロトバハムート",
        "7D705AE2",
        "麻痹延长 ",
        Language::Japanese,
        "https://pbs.twimg.com/profile.jpg",
    );
    let bytes = t.to_bytes().unwrap();
    let back = RaidTweet::decode(&bytes).unwrap();
    assert_eq!(t.tweet_id, back.tweet_id);
    assert_eq!(t.screen_name, back.screen_name);
    assert_eq!(t.boss_name, back.boss_name);
    assert_eq!(t.raid_id, back.raid_id);
    assert_eq!(t.text, back.text);
    assert_eq!(t.created, back.created);
    assert_eq!(t.language, back.language);
    assert_eq!(t.profile_image, back.profile_image);
}

#[test]
fn boss_exact_bytes() {
    let b = RaidBoss::with_args("a", "", 1, "");
    assert_eq!(vec![0x0a, 1, b'a', 0x18, 1], b.to_bytes().unwrap());
    let empty = RaidBoss::new();
    assert!(empty.to_bytes().unwrap().is_empty());
}

#[test]
fn negative_level_takes_ten_bytes() {
    let r = RaidBossRaw::with_args("", -1, "", Language::English);
    let bytes = r.to_bytes().unwrap();
    assert_eq!(0x10, bytes[0]);
    assert_eq!(vec![0xff, 0xff, 0xff, 0xff, 0xff, 0xff, 0xff, 0xff, 0xff, 0x01], bytes[1..11].to_vec());
    let back = RaidBossRaw::decode(&bytes).unwrap();
    assert_eq!(-1, back.level);
    assert_eq!("English", back.language);
}

#[test]
fn boss_round_trip() {
    let b = RaidBoss::with_args("Lvl 200 Akasha", "Lv200 アーカーシャ", 200, "https://pbs.twimg.com/media/DumtNdnUYAE9PCr.jpg");
    let back = RaidBoss::decode(&b.to_bytes().unwrap()).unwrap();
    assert_eq!(b.en_name, back.en_name);
    assert_eq!(b.jp_name, back.jp_name);
    assert_eq!(b.level, back.level);
    assert_eq!(b.image, back.image);
}

#[test]
fn decoding_rejects_bad_input_and_skips_unknown_tags() {
    // truncated length-delimited field
    assert!(RaidBoss::decode(&[0x0a, 5, b'a']).is_none());
    // invalid UTF-8 in a text field
    assert!(RaidBoss::decode(&[0x0a, 1, 0xff]).is_none());
    // a known tag with the wrong wire type
    assert!(RaidBoss::decode(&[0x08, 1]).is_none());
    // an unknown tag (9, varint) is passed over
    let b = RaidBoss::decode(&[0x48, 7, 0x0a, 1, b'z']).unwrap();
    assert_eq!("z", b.en_name);
    // the last value of a tag wins
    let b = RaidBoss::decode(&[0x18, 1, 0x18, 2]).unwrap();
    assert_eq!(2, b.level);
    assert!(RaidBoss::decode(&[]).is_some());
}

#[test]
fn record_accessors() {
    let mut t = RaidTweet::new();
    t.set_boss_name("x".to_string());
    assert_eq!("x", t.get_boss_name());
    t.mut_boss_name().push('y');
    assert_eq!("xy", t.take_boss_name());
    assert_eq!("", t.get_boss_name());
    t.set_created(9);
    t.clear_created();
    assert_eq!(0, t.get_created());
    let mut b = RaidBossRaw::with_args("n", 3, "i", Language::Japanese);
    b.clear_image();
    assert_eq!("", b.get_image());
    assert_eq!("Japanese", b.get_language());
    assert_eq!(3, b.get_level());
}
