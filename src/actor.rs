//! The decisions of the tweet actor, one per message. The actor's task runs
//! them in receipt order and performs the store writes they name.
use vstd::prelude::*;
use vstd::string::*;
use crate::error::Error;
use crate::keys::{gbf_persistence_raid_tweet_key, gbf_raid_boss_raw_key, persistence_key, raw_boss_key};
use crate::language::{parse_language, Language, TranslatorResult};
use crate::models::Tweet;
use crate::parser::{parse_status, StatusParser};
use crate::records::{RaidBossRaw, RaidTweet};
use crate::text::str_eq;
use crate::translator::{lookup_step, NameMap};

verus! {

/// Time to live of raw and paired boss records: thirty days.
pub const BOSS_EXPIRE_IN_30_DAYS_TTL: u32 = 2592000;

/// Time to live of persisted invitations: two hours.
pub const TWEET_PERSISTENCE_ONLY_2_HOURS_TTL: u32 = 7200;

/// The only client whose statuses are processed.
pub open spec fn granblue_source() -> Seq<char> {
    "<a href=\"http://granbluefantasy.jp/\" rel=\"nofollow\">グランブルー ファンタジー</a>"@
}

/// The boss name an invitation leaves with: a Japanese post keeps its own; an
/// English one takes the translation, and without one it is not sent (`None`).
pub open spec fn outgoing_boss_name(lang: Language, observed: Seq<char>, translation: Option<Seq<char>>) -> Option<
    Seq<char>,
> {
    match lang {
        Language::Japanese => Some(observed),
        Language::English => translation,
    }
}

/// The tweet actor's decisions.
pub struct TweetActor {}

impl TweetActor {
    /// Parses a status from the game's own client. Gives the raw boss, the
    /// invitation and the key the raw boss is stored under (for thirty days);
    /// any other status, or one that is no raid post, is `CannotParseTweet`.
    pub fn parse_tweet(tweet: Tweet) -> (r: Result<(RaidBossRaw, RaidTweet, String), Error>)
        ensures
            match r {
                Ok((boss, invitation, key)) => tweet@.source == granblue_source()
                    && parse_status(tweet@) == Some((boss@, invitation@))
                    && key@ == raw_boss_key(parse_language(boss.language@)->0, boss.level as int, boss.boss_name@),
                Err(e) => e == (Error::CannotParseTweet { tweet_id: tweet.id })
                    && (tweet@.source != granblue_source() || parse_status(tweet@) is None),
            },
    {
        let id = tweet.id;
        if !str_eq(tweet.source.as_str(), "<a href=\"http://granbluefantasy.jp/\" rel=\"nofollow\">グランブルー ファンタジー</a>") {
            return Err(Error::CannotParseTweet { tweet_id: id });
        }
        match StatusParser::parse(tweet) {
            Some((boss, invitation)) => {
                proof {
                    crate::language::lemma_parse_name(Language::Japanese);
                    crate::language::lemma_parse_name(Language::English);
                }
                let key = gbf_raid_boss_raw_key(&boss);
                Ok((boss, invitation, key))
            },
            None => Err(Error::CannotParseTweet { tweet_id: id }),
        }
    }

    /// Gives an invitation its outgoing boss name: Japanese posts pass
    /// through; English ones take the translation, or fail with
    /// `CannotTranslate` while it is pending.
    pub fn translate_tweet(raid_boss_raw: &RaidBossRaw, raid_tweet: RaidTweet, translator_result: TranslatorResult) -> (r:
        Result<RaidTweet, Error>)
        requires
            parse_language(raid_boss_raw.language@) is Some,
        ensures
            match outgoing_boss_name(
                parse_language(raid_boss_raw.language@)->0,
                raid_tweet.boss_name@,
                match translator_result {
                    TranslatorResult::Pending => None,
                    TranslatorResult::Success { result } => Some(result@),
                },
            ) {
                Some(name) => r matches Ok(t) && t@ == (crate::records::RaidTweetView { boss_name: name, ..raid_tweet@ }),
                None => r matches Err(Error::CannotTranslate { name }) && name@ == raid_boss_raw.boss_name@,
            },
    {
        let mut raid_tweet = raid_tweet;
        let lang = match Language::parse(raid_boss_raw.language.as_str()) {
            Some(l) => l,
            None => Language::Japanese,
        };
        match lang {
            Language::Japanese => Ok(raid_tweet),
            Language::English => match translator_result {
                TranslatorResult::Pending => Err(Error::CannotTranslate { name: raid_boss_raw.boss_name.clone() }),
                TranslatorResult::Success { result } => {
                    raid_tweet.set_boss_name(result);
                    Ok(raid_tweet)
                },
            },
        }
    }

    /// The invitation to send on, and the key it is persisted under (for two hours).
    pub fn persist_raid_tweet(raid_tweet: RaidTweet) -> (r: (RaidTweet, String))
        ensures
            r.0 == raid_tweet,
            r.1@ == persistence_key(raid_tweet.boss_name@, raid_tweet.tweet_id as nat, raid_tweet.created as nat),
    {
        let key = gbf_persistence_raid_tweet_key(raid_tweet.boss_name.as_str(), raid_tweet.tweet_id, raid_tweet.created);
        (raid_tweet, key)
    }
}

/// An invitation leaves with the Japanese name whenever a pairing is resolved
/// for its boss, and with the observed name when the post is Japanese: the
/// lookup gives the translation, and the outgoing name is that translation.
pub proof fn law_outgoing_name_is_japanese(m: NameMap, lang: Language, observed: Seq<char>)
    ensures
        lang == Language::Japanese ==> outgoing_boss_name(lang, observed, lookup_step(m, observed).1) == Some(observed),
        lang == Language::English && m.contains_key(observed) && m[observed].len() > 0 ==> outgoing_boss_name(
            lang,
            observed,
            lookup_step(m, observed).1,
        ) == Some(m[observed]),
{
}

} // verus!
