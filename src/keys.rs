//! The key schema of the key/value store.
use vstd::prelude::*;
use vstd::string::*;
use crate::language::{language_short, parse_language, Language};
use crate::records::{RaidBoss, RaidBossRaw};
use crate::text::{decimal, owned, push_char, push_decimal, push_signed_decimal, signed_decimal};

verus! {

/// Key of a boss observed in one language: `gbf:{lang}:{level}.{name}`.
pub open spec fn raw_boss_key(lang: Language, level: int, name: Seq<char>) -> Seq<char> {
    "gbf:"@ + language_short(lang) + ":"@ + signed_decimal(level) + "."@ + name
}

/// Key of a paired boss under one of its names: `gbf:boss:{level}.{name}`.
pub open spec fn paired_boss_key(level: int, name: Seq<char>) -> Seq<char> {
    "gbf:boss:"@ + signed_decimal(level) + "."@ + name
}

/// Pattern of the paired bosses of a level, every level for zero: `gbf:boss:{level}.*`.
pub open spec fn paired_boss_pattern(level: nat) -> Seq<char> {
    "gbf:boss:"@ + (if level == 0 { "*"@ } else { decimal(level) }) + ".*"@
}

/// Pattern of the bosses of one language and level: `gbf:{lang}:{level}.*`.
pub open spec fn possible_match_pattern(lang: Language, level: int) -> Seq<char> {
    "gbf:"@ + language_short(lang) + ":"@ + signed_decimal(level) + ".*"@
}

/// Key of a persisted invitation: `gbf:persistence:{name}.{tweet_id}.{created}`.
pub open spec fn persistence_key(name: Seq<char>, tweet_id: nat, created: nat) -> Seq<char> {
    "gbf:persistence:"@ + name + "."@ + decimal(tweet_id) + "."@ + decimal(created)
}

/// Pattern of the persisted invitations of a boss: `gbf:persistence:{name}.*`.
pub open spec fn persistence_pattern(name: Seq<char>) -> Seq<char> {
    "gbf:persistence:"@ + name + ".*"@
}

/// Key of a translator entry: `gbf:translator:{name}`.
pub open spec fn translator_key(name: Seq<char>) -> Seq<char> {
    translator_prefix() + name
}

pub open spec fn translator_prefix() -> Seq<char> {
    "gbf:translator:"@
}

/// Key of a boss by level and name alone: `gbf:{level}.{name}`.
pub open spec fn level_key(level: int, name: Seq<char>) -> Seq<char> {
    "gbf:"@ + signed_decimal(level) + "."@ + name
}

fn build_raw_key(lang: Language, level: i32, name: &str) -> (r: String)
    ensures
        r@ == raw_boss_key(lang, level as int, name@),
{
    let mut s = owned("gbf:");
    s.append(lang.short());
    push_char(&mut s, ':');
    push_signed_decimal(&mut s, level);
    push_char(&mut s, '.');
    s.append(name);
    proof {
        reveal_strlit(":");
        reveal_strlit(".");
    }
    assert(s@ =~= raw_boss_key(lang, level as int, name@));
    s
}

fn build_paired_key(level: i32, name: &str) -> (r: String)
    ensures
        r@ == paired_boss_key(level as int, name@),
{
    let mut s = owned("gbf:boss:");
    push_signed_decimal(&mut s, level);
    push_char(&mut s, '.');
    s.append(name);
    proof {
        reveal_strlit(".");
    }
    assert(s@ =~= paired_boss_key(level as int, name@));
    s
}

/// Key of a raw boss, in the language that the record names.
pub fn gbf_raid_boss_raw_key(raid_boss_raw: &RaidBossRaw) -> (r: String)
    requires
        parse_language(raid_boss_raw.language@) is Some,
    ensures
        r@ == raw_boss_key(
            parse_language(raid_boss_raw.language@)->0,
            raid_boss_raw.level as int,
            raid_boss_raw.boss_name@,
        ),
{
    let lang = match Language::parse(raid_boss_raw.language.as_str()) {
        Some(l) => l,
        None => Language::English,
    };
    build_raw_key(lang, raid_boss_raw.level, raid_boss_raw.boss_name.as_str())
}

/// Pattern of the paired bosses of a level; level zero matches every level.
pub fn gbf_raid_boss_keys(level: u32) -> (r: String)
    ensures
        r@ == paired_boss_pattern(level as nat),
{
    let mut s = owned("gbf:boss:");
    if level == 0 {
        push_char(&mut s, '*');
        proof {
            reveal_strlit("*");
        }
    } else {
        push_decimal(&mut s, level as u64);
    }
    s.append(".*");
    assert(s@ =~= paired_boss_pattern(level as nat));
    s
}

/// Key of a paired boss under its name in the given language.
pub fn gbf_raid_boss_key(lang: Language, raid_boss: &RaidBoss) -> (r: String)
    ensures
        r@ == paired_boss_key(
            raid_boss.level as int,
            match lang {
                Language::English => raid_boss.en_name@,
                Language::Japanese => raid_boss.jp_name@,
            },
        ),
{
    match lang {
        Language::English => build_paired_key(raid_boss.level, raid_boss.en_name.as_str()),
        Language::Japanese => build_paired_key(raid_boss.level, raid_boss.jp_name.as_str()),
    }
}

/// Key of the paired boss under its Japanese name, from a raw boss of the given
/// language and the name it was translated to.
pub fn gbf_raid_boss_jp_key_from_raw(lang: Language, raid_boss_raw: &RaidBossRaw, translated: &str) -> (r: String)
    ensures
        r@ == paired_boss_key(
            raid_boss_raw.level as int,
            match lang {
                Language::English => translated@,
                Language::Japanese => raid_boss_raw.boss_name@,
            },
        ),
{
    match lang {
        Language::English => build_paired_key(raid_boss_raw.level, translated),
        Language::Japanese => build_paired_key(raid_boss_raw.level, raid_boss_raw.boss_name.as_str()),
    }
}

/// Pattern of the persisted invitations of a boss.
pub fn gbf_persistence_raid_tweets_keys(raid_boss_name: &str) -> (r: String)
    ensures
        r@ == persistence_pattern(raid_boss_name@),
{
    let mut s = owned("gbf:persistence:");
    s.append(raid_boss_name);
    s.append(".*");
    assert(s@ =~= persistence_pattern(raid_boss_name@));
    s
}

/// Key of one persisted invitation.
pub fn gbf_persistence_raid_tweet_key(raid_boss_name: &str, tweet_id: u64, created: u64) -> (r: String)
    ensures
        r@ == persistence_key(raid_boss_name@, tweet_id as nat, created as nat),
{
    let mut s = owned("gbf:persistence:");
    s.append(raid_boss_name);
    push_char(&mut s, '.');
    push_decimal(&mut s, tweet_id);
    push_char(&mut s, '.');
    push_decimal(&mut s, created);
    proof {
        reveal_strlit(".");
    }
    assert(s@ =~= persistence_key(raid_boss_name@, tweet_id as nat, created as nat));
    s
}

/// Pattern of the bosses of the given language at the level of a raw boss.
pub fn gbf_get_possible_boss_name(raid_boss_raw: &RaidBossRaw, lang: Language) -> (r: String)
    ensures
        r@ == possible_match_pattern(lang, raid_boss_raw.level as int),
{
    let mut s = owned("gbf:");
    s.append(lang.short());
    push_char(&mut s, ':');
    push_signed_decimal(&mut s, raid_boss_raw.level);
    s.append(".*");
    proof {
        reveal_strlit(":");
    }
    assert(s@ =~= possible_match_pattern(lang, raid_boss_raw.level as int));
    s
}

/// Key of a boss by its level and name, without a language.
pub fn gbf_redis_key(raid_boss: &RaidBossRaw) -> (r: String)
    ensures
        r@ == level_key(raid_boss.level as int, raid_boss.boss_name@),
{
    let mut s = owned("gbf:");
    push_signed_decimal(&mut s, raid_boss.level);
    push_char(&mut s, '.');
    s.append(raid_boss.boss_name.as_str());
    proof {
        reveal_strlit(".");
    }
    assert(s@ =~= level_key(raid_boss.level as int, raid_boss.boss_name@));
    s
}

/// Key of the translator entry of a name.
pub fn gbf_translator_key(name: &str) -> (r: String)
    ensures
        r@ == translator_key(name@),
{
    let mut s = owned("gbf:translator:");
    s.append(name);
    s
}

/// Pattern of every translator entry: `gbf:translator:*`.
pub fn gbf_translator_pattern() -> (r: String)
    ensures
        r@ == translator_prefix() + "*"@,
{
    let mut s = owned("gbf:translator:");
    s.append("*");
    s
}

} // verus!
