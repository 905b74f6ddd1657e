//! Recognises raid invitations in status text.
//!
//! A post ends with an eight-digit upper-case hexadecimal battle id, a locale's
//! marker line, the boss line and a link line. Whatever comes before the id is
//! the author's blurb. Where several positions fit, the last one is taken, so
//! the blurb is as long as it can be.
use vstd::prelude::*;
use vstd::string::*;
use crate::language::{language_name, Language};
use crate::models::{Tweet, TweetView};
use crate::records::{RaidBossRaw, RaidBossRawView, RaidTweet, RaidTweetView};
use crate::text::{chars_of, string_from};

verus! {

/// What follows the battle id in a Japanese post.
pub open spec fn jp_marker() -> Seq<char> {
    " :参戦ID\n参加者募集！\n"@
}

/// What follows the battle id in an English post.
pub open spec fn en_marker() -> Seq<char> {
    " :Battle ID\nI need backup!\n"@
}

pub open spec fn is_upper_hex(c: char) -> bool {
    ('0' <= c && c <= '9') || ('A' <= c && c <= 'F')
}

pub open spec fn is_digit(c: char) -> bool {
    '0' <= c && c <= '9'
}

/// The first position at or after `from` that holds a line break, or the length.
pub open spec fn next_newline(t: Seq<char>, from: int) -> int
    decreases t.len() - from,
{
    if from < 0 || from >= t.len() {
        t.len() as int
    } else if t[from] == '\n' {
        from
    } else {
        next_newline(t, from + 1)
    }
}

/// A battle id starts at `p`, followed by the marker `m`, a non-empty boss line
/// and a line break.
pub open spec fn template_at(t: Seq<char>, m: Seq<char>, p: int) -> bool {
    &&& 0 <= p
    &&& p + 8 + m.len() <= t.len()
    &&& forall|k: int| p <= k < p + 8 ==> is_upper_hex(#[trigger] t[k])
    &&& t.subrange(p + 8, p + 8 + m.len()) == m
    &&& next_newline(t, p + 8 + m.len()) > p + 8 + m.len()
    &&& next_newline(t, p + 8 + m.len()) < t.len()
}

/// The last position at or before `p` where the template fits.
pub open spec fn last_template_at(t: Seq<char>, m: Seq<char>, p: int) -> Option<int>
    decreases p + 1,
{
    if p < 0 {
        None
    } else if template_at(t, m, p) {
        Some(p)
    } else {
        last_template_at(t, m, p - 1)
    }
}

/// Where the battle id of the match starts, if the text matches.
pub open spec fn template_start(t: Seq<char>, m: Seq<char>) -> Option<int> {
    last_template_at(t, m, t.len() as int)
}

/// The parts of a matched post.
pub struct RaidCaptures {
    pub extra: Seq<char>,
    pub battle_id: Seq<char>,
    pub boss: Seq<char>,
}

pub open spec fn captures_at(t: Seq<char>, m: Seq<char>, p: int) -> RaidCaptures {
    RaidCaptures {
        extra: t.subrange(0, p),
        battle_id: t.subrange(p, p + 8),
        boss: t.subrange(p + 8 + m.len(), next_newline(t, p + 8 + m.len())),
    }
}

/// The end of the run of digits that starts at `i`.
pub open spec fn digit_run_end(b: Seq<char>, i: int) -> int
    decreases b.len() - i,
{
    if i < 0 || i >= b.len() || !is_digit(b[i]) {
        i
    } else {
        digit_run_end(b, i + 1)
    }
}

/// Where the level digits start after a `Lv` at `i`: after `Lvl ` or after `Lv`.
pub open spec fn level_digits_start(b: Seq<char>, i: int) -> int {
    if i + 4 <= b.len() && b[i + 2] == 'l' && b[i + 3] == ' ' {
        i + 4
    } else {
        i + 2
    }
}

/// `Lv` or `Lvl ` at `i`, then digits, then a space.
pub open spec fn level_at(b: Seq<char>, i: int) -> bool {
    &&& 0 <= i
    &&& i + 2 <= b.len()
    &&& b[i] == 'L'
    &&& b[i + 1] == 'v'
    &&& digit_run_end(b, level_digits_start(b, i)) > level_digits_start(b, i)
    &&& digit_run_end(b, level_digits_start(b, i)) < b.len()
    &&& b[digit_run_end(b, level_digits_start(b, i))] == ' '
}

/// The first position at or after `i` where a level notation fits.
pub open spec fn first_level_at(b: Seq<char>, i: int) -> Option<int>
    decreases b.len() - i,
{
    if i < 0 || i >= b.len() {
        None
    } else if level_at(b, i) {
        Some(i)
    } else {
        first_level_at(b, i + 1)
    }
}

pub open spec fn digit_value(c: char) -> nat {
    (c as u32 - '0' as u32) as nat
}

/// The number that a run of decimal digits denotes.
pub open spec fn digits_value(s: Seq<char>) -> nat
    decreases s.len(),
{
    if s.len() == 0 {
        0
    } else {
        digits_value(s.drop_last()) * 10 + digit_value(s.last())
    }
}

pub open spec fn all_digits(s: Seq<char>) -> bool {
    forall|k: int| 0 <= k < s.len() ==> is_digit(#[trigger] s[k])
}

/// The level that a boss name states, zero where it states none or one beyond `i32`.
pub open spec fn boss_level(b: Seq<char>) -> i32 {
    match first_level_at(b, 0) {
        None => 0,
        Some(i) => {
            let v = digits_value(
                b.subrange(level_digits_start(b, i), digit_run_end(b, level_digits_start(b, i))),
            );
            if v <= i32::MAX {
                v as i32
            } else {
                0
            }
        },
    }
}

/// An unsigned decimal as `u64` reads it: an optional `+`, then digits, within range.
pub open spec fn parse_u64_spec(s: Seq<char>) -> Option<u64> {
    let d = if s.len() > 0 && s[0] == '+' {
        s.drop_first()
    } else {
        s
    };
    if d.len() > 0 && all_digits(d) && digits_value(d) <= u64::MAX {
        Some(digits_value(d) as u64)
    } else {
        None
    }
}

/// The URL of the first media attachment.
pub open spec fn first_media(t: TweetView) -> Option<Seq<char>> {
    match t.media {
        Some(v) => if v.len() > 0 {
            Some(v[0])
        } else {
            None
        },
        None => None,
    }
}

/// The language and parts of a post: Japanese first, then English.
pub open spec fn match_post(text: Seq<char>) -> Option<(Language, RaidCaptures)> {
    match template_start(text, jp_marker()) {
        Some(p) => Some((Language::Japanese, captures_at(text, jp_marker(), p))),
        None => match template_start(text, en_marker()) {
            Some(p) => Some((Language::English, captures_at(text, en_marker(), p))),
            None => None,
        },
    }
}

/// The raw boss and the invitation that a status yields, if it is a raid post
/// with media and a readable timestamp.
pub open spec fn parse_status(t: TweetView) -> Option<(RaidBossRawView, RaidTweetView)> {
    match match_post(t.text) {
        None => None,
        Some((lang, c)) => match first_media(t) {
            None => None,
            Some(image) => match parse_u64_spec(t.timestamp_ms) {
                None => None,
                Some(created) => Some(
                    (
                        RaidBossRawView {
                            boss_name: c.boss,
                            level: boss_level(c.boss),
                            image,
                            language: language_name(lang),
                        },
                        RaidTweetView {
                            tweet_id: t.id,
                            screen_name: t.screen_name,
                            boss_name: c.boss,
                            raid_id: c.battle_id,
                            text: c.extra,
                            created,
                            language: language_name(lang),
                            profile_image: t.profile_image,
                        },
                    ),
                ),
            },
        },
    }
}

/// Parsing one status twice gives equal results: the outcome is a function of
/// the status's value.
pub proof fn law_parse_is_deterministic(a: TweetView, b: TweetView)
    requires
        a == b,
    ensures
        parse_status(a) == parse_status(b),
{
}

fn next_newline_exec(t: &Vec<char>, from: usize) -> (r: usize)
    requires
        from <= t@.len(),
    ensures
        r as int == next_newline(t@, from as int),
        from <= r <= t@.len(),
{
    let mut i = from;
    while i < t.len() && t[i] != '\n'
        invariant
            from <= i <= t@.len(),
            next_newline(t@, i as int) == next_newline(t@, from as int),
        decreases t@.len() - i,
    {
        i = i + 1;
    }
    i
}

fn is_upper_hex_exec(c: char) -> (r: bool)
    ensures
        r == is_upper_hex(c),
{
    ('0' <= c && c <= '9') || ('A' <= c && c <= 'F')
}

fn template_at_exec(t: &Vec<char>, m: &Vec<char>, p: usize) -> (r: bool)
    ensures
        r == template_at(t@, m@, p as int),
{
    let n = t.len();
    if p > n || n - p < 8 || n - p - 8 < m.len() {
        return false;
    }
    let end: usize = p + 8;
    let mut k: usize = p;
    while k < end
        invariant
            p + 8 + m@.len() <= t@.len(),
            end == p + 8,
            p <= k <= end,
            forall|j: int| p <= j < k ==> is_upper_hex(#[trigger] t@[j]),
        decreases end - k,
    {
        if !is_upper_hex_exec(t[k]) {
            return false;
        }
        k = k + 1;
    }
    let b = end;
    let mut j: usize = 0;
    while j < m.len()
        invariant
            b == p + 8,
            n == t@.len(),
            b + m@.len() <= t@.len(),
            j <= m@.len(),
            t@.subrange(b as int, b + j) == m@.subrange(0, j as int),
        decreases m@.len() - j,
    {
        let bj: usize = b + j;
        if t[bj] != m[j] {
            assert(t@.subrange(b as int, b + m@.len())[j as int] != m@[j as int]);
            return false;
        }
        proof {
            assert(t@.subrange(b as int, b + j + 1) =~= t@.subrange(b as int, b + j).push(t@[b + j]));
            assert(m@.subrange(0, j + 1) =~= m@.subrange(0, j as int).push(m@[j as int]));
        }
        j = j + 1;
    }
    assert(m@.subrange(0, m@.len() as int) =~= m@);
    let e = next_newline_exec(t, b + m.len());
    e > b + m.len() && e < t.len()
}

proof fn lemma_last_template(t: Seq<char>, m: Seq<char>, p: int)
    ensures
        match last_template_at(t, m, p) {
            Some(q) => template_at(t, m, q),
            None => true,
        },
    decreases p + 1,
{
    if p >= 0 && !template_at(t, m, p) {
        lemma_last_template(t, m, p - 1);
    }
}

fn find_template(t: &Vec<char>, m: &Vec<char>) -> (r: Option<usize>)
    ensures
        match r {
            Some(p) => template_start(t@, m@) == Some(p as int),
            None => template_start(t@, m@) is None,
        },
{
    let mut p: usize = t.len();
    loop
        invariant
            p <= t@.len(),
            last_template_at(t@, m@, p as int) == template_start(t@, m@),
        decreases p,
    {
        if template_at_exec(t, m, p) {
            return Some(p);
        }
        if p == 0 {
            assert(last_template_at(t@, m@, -1) is None);
            return None;
        }
        p = p - 1;
    }
}

fn is_digit_exec(c: char) -> (r: bool)
    ensures
        r == is_digit(c),
{
    '0' <= c && c <= '9'
}

fn digit_run_end_exec(b: &Vec<char>, i: usize) -> (r: usize)
    requires
        i <= b@.len(),
    ensures
        r as int == digit_run_end(b@, i as int),
        i <= r <= b@.len(),
{
    let mut k = i;
    while k < b.len() && is_digit_exec(b[k])
        invariant
            i <= k <= b@.len(),
            digit_run_end(b@, k as int) == digit_run_end(b@, i as int),
        decreases b@.len() - k,
    {
        k = k + 1;
    }
    k
}

fn level_digits_start_exec(b: &Vec<char>, i: usize) -> (r: usize)
    requires
        i + 2 <= b@.len(),
    ensures
        r as int == level_digits_start(b@, i as int),
        r <= b@.len(),
{
    if b.len() - i >= 4 && b[i + 2] == 'l' && b[i + 3] == ' ' {
        i + 4
    } else {
        i + 2
    }
}

fn level_at_exec(b: &Vec<char>, i: usize) -> (r: bool)
    ensures
        r == level_at(b@, i as int),
{
    if i > b.len() || b.len() - i < 2 {
        return false;
    }
    if b[i] != 'L' || b[i + 1] != 'v' {
        return false;
    }
    let ds = level_digits_start_exec(b, i);
    let de = digit_run_end_exec(b, ds);
    de > ds && de < b.len() && b[de] == ' '
}

proof fn lemma_digits_value_push(s: Seq<char>, c: char)
    ensures
        digits_value(s.push(c)) == digits_value(s) * 10 + digit_value(c),
{
    assert(s.push(c).drop_last() =~= s);
}

/// The value of the digits `b[from..to]`, or `None` beyond `i32`.
fn digits_to_i32(b: &Vec<char>, from: usize, to: usize) -> (r: Option<i32>)
    requires
        from <= to <= b@.len(),
        all_digits(b@.subrange(from as int, to as int)),
    ensures
        match r {
            Some(v) => v >= 0 && v as nat == digits_value(b@.subrange(from as int, to as int)),
            None => digits_value(b@.subrange(from as int, to as int)) > i32::MAX,
        },
{
    let mut acc: u64 = 0;
    let mut k = from;
    while k < to
        invariant
            from <= k <= to <= b@.len(),
            all_digits(b@.subrange(from as int, to as int)),
            acc as nat == digits_value(b@.subrange(from as int, k as int)),
            acc <= i32::MAX,
        decreases to - k,
    {
        let c = b[k];
        assert(b@.subrange(from as int, to as int)[k - from] == c);
        let d: u64 = (c as u32 - '0' as u32) as u64;
        proof {
            assert(b@.subrange(from as int, k + 1) =~= b@.subrange(from as int, k as int).push(c));
            lemma_digits_value_push(b@.subrange(from as int, k as int), c);
        }
        acc = acc * 10 + d;
        k = k + 1;
        if acc > 2147483647 {
            proof {
                lemma_digits_monotone(b@.subrange(from as int, to as int), (k - from) as int);
                assert(b@.subrange(from as int, to as int).subrange(0, (k - from) as int)
                    =~= b@.subrange(from as int, k as int));
                assert(b@.subrange(from as int, to as int).subrange(0, (to - from) as int)
                    =~= b@.subrange(from as int, to as int));
            }
            return None;
        }
    }
    Some(acc as i32)
}

/// Appending digits never makes a decimal smaller.
proof fn lemma_digits_monotone(s: Seq<char>, i: int)
    requires
        0 <= i <= s.len(),
    ensures
        digits_value(s.subrange(0, i)) <= digits_value(s),
    decreases s.len() - i,
{
    if i < s.len() {
        lemma_digits_monotone(s, i + 1);
        assert(s.subrange(0, i + 1).drop_last() =~= s.subrange(0, i));
    } else {
        assert(s.subrange(0, i) =~= s);
    }
}

proof fn lemma_digit_run(b: Seq<char>, i: int)
    requires
        0 <= i <= b.len(),
    ensures
        i <= digit_run_end(b, i) <= b.len(),
        all_digits(b.subrange(i, digit_run_end(b, i))),
    decreases b.len() - i,
{
    if i < b.len() && is_digit(b[i]) {
        lemma_digit_run(b, i + 1);
        assert forall|k: int| 0 <= k < digit_run_end(b, i) - i implies is_digit(
            #[trigger] b.subrange(i, digit_run_end(b, i))[k],
        ) by {
            if k > 0 {
                assert(b.subrange(i, digit_run_end(b, i))[k] == b.subrange(i + 1, digit_run_end(b, i))[k - 1]);
            }
        }
    }
}

/// The level that a boss name states.
pub fn level_of_boss(boss: &Vec<char>) -> (r: i32)
    ensures
        r == boss_level(boss@),
{
    let mut i: usize = 0;
    while i < boss.len()
        invariant
            i <= boss@.len(),
            first_level_at(boss@, i as int) == first_level_at(boss@, 0),
        decreases boss@.len() - i,
    {
        if level_at_exec(boss, i) {
            assert(first_level_at(boss@, i as int) == Some(i as int));
            let ds = level_digits_start_exec(boss, i);
            let de = digit_run_end_exec(boss, ds);
            proof {
                lemma_digit_run(boss@, ds as int);
            }
            return match digits_to_i32(boss, ds, de) {
                Some(v) => v,
                None => 0,
            };
        }
        i = i + 1;
    }
    assert(first_level_at(boss@, i as int) is None);
    0
}

/// Reads an unsigned decimal the way `u64` parsing does.
pub fn parse_u64(s: &str) -> (r: Option<u64>)
    ensures
        r == parse_u64_spec(s@),
{
    let v = chars_of(s);
    let mut from: usize = 0;
    if v.len() > 0 && v[0] == '+' {
        from = 1;
    }
    let ghost d = if s@.len() > 0 && s@[0] == '+' { s@.drop_first() } else { s@ };
    assert(d =~= v@.subrange(from as int, v@.len() as int));
    if from == v.len() {
        return None;
    }
    let mut acc: u64 = 0;
    let mut k = from;
    while k < v.len()
        invariant
            from <= k <= v@.len(),
            d == v@.subrange(from as int, v@.len() as int),
            d == (if s@.len() > 0 && s@[0] == '+' { s@.drop_first() } else { s@ }),
            all_digits(v@.subrange(from as int, k as int)),
            acc as nat == digits_value(v@.subrange(from as int, k as int)),
        decreases v@.len() - k,
    {
        let c = v[k];
        if !is_digit_exec(c) {
            assert(d[k - from] == c);
            assert(!all_digits(d));

            return None;
        }
        let dg: u64 = (c as u32 - '0' as u32) as u64;
        proof {
            assert(v@.subrange(from as int, k + 1) =~= v@.subrange(from as int, k as int).push(c));
            lemma_digits_value_push(v@.subrange(from as int, k as int), c);
        }
        if acc > 1844674407370955161 || (acc == 1844674407370955161 && dg > 5) {
            proof {
                lemma_digits_monotone(d, (k + 1 - from) as int);
                assert(d.subrange(0, (k + 1 - from) as int) =~= v@.subrange(from as int, k + 1));
                let a = acc as int;
                let g = dg as int;
                assert(a * 10 + g > u64::MAX) by (nonlinear_arith)
                    requires a > 1844674407370955161 || (a == 1844674407370955161 && g > 5), g >= 0;
            }
            return None;
        }
        acc = acc * 10 + dg;
        k = k + 1;
    }
    assert(v@.subrange(from as int, k as int) == d);
    Some(acc)
}

/// Recognises raid posts and extracts their parts.
pub struct StatusParser {}

impl StatusParser {
    /// The raw boss and the invitation of a raid post. `None` where the text
    /// matches neither template, the status has no media, or its timestamp is
    /// not an unsigned decimal.
    pub fn parse(tweet: Tweet) -> (r: Option<(RaidBossRaw, RaidTweet)>)
        ensures
            match r {
                Some((boss, invitation)) => parse_status(tweet@) == Some((boss@, invitation@)),
                None => parse_status(tweet@) is None,
            },
    {
        let text = chars_of(tweet.text.as_str());
        let ghost t = text@;
        let jp = chars_of(" :参戦ID\n参加者募集！\n");
        let en = chars_of(" :Battle ID\nI need backup!\n");
        match find_template(&text, &jp) {
            Some(p) => {
                proof {
                    lemma_last_template(t, jp@, t.len() as int);
                }
                Self::match_raid(&text, &jp, p, &tweet, Language::Japanese)
            },
            None => match find_template(&text, &en) {
                Some(p) => {
                    proof {
                        lemma_last_template(t, en@, t.len() as int);
                    }
                    Self::match_raid(&text, &en, p, &tweet, Language::English)
                },
                None => None,
            },
        }
    }

    /// The URL of the first media attachment of a status.
    pub fn get_media_image_by_tweet(tweet: &Tweet) -> (r: Option<String>)
        ensures
            match r {
                Some(u) => first_media(tweet@) == Some(u@),
                None => first_media(tweet@) is None,
            },
    {
        match &tweet.entities.media {
            Some(medias) => if medias.len() > 0 {
                Some(medias[0].media_url_https.clone())
            } else {
                None
            },
            None => None,
        }
    }

    fn match_raid(text: &Vec<char>, m: &Vec<char>, p: usize, tweet: &Tweet, language: Language) -> (r:
        Option<(RaidBossRaw, RaidTweet)>)
        requires
            template_at(text@, m@, p as int),
            text@ == tweet@.text,
            match_post(tweet@.text) == Some((language, captures_at(text@, m@, p as int))),
        ensures
            match r {
                Some((boss, invitation)) => parse_status(tweet@) == Some((boss@, invitation@)),
                None => parse_status(tweet@) is None,
            },
    {
        let n = text.len();
        let b = p + 8 + m.len();
        let e = next_newline_exec(text, b);
        let boss_chars = string_from(text, b, e);
        let boss_vec = chars_of(boss_chars.as_str());
        let level = level_of_boss(&boss_vec);
        let image = match Self::get_media_image_by_tweet(tweet) {
            Some(u) => u,
            None => {
                return None;
            },
        };
        let created = match parse_u64(tweet.timestamp_ms.as_str()) {
            Some(c) => c,
            None => {
                return None;
            },
        };
        let battle_id = string_from(text, p, p + 8);
        let extra = string_from(text, 0, p);
        let boss = RaidBossRaw {
            boss_name: boss_chars.clone(),
            level,
            image,
            language: language.name(),
        };
        let invitation = RaidTweet {
            tweet_id: tweet.id,
            screen_name: tweet.user.screen_name.clone(),
            boss_name: boss_chars,
            raid_id: battle_id,
            text: extra,
            created,
            language: language.name(),
            profile_image: tweet.user.profile_image_url_https.clone(),
        };
        Some((boss, invitation))
    }
}

} // verus!
