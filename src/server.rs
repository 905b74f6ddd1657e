//! The decisions behind the REST surface and the store facade.
use vstd::prelude::*;
use vstd::string::*;
use vstd::seq_lib::*;
use crate::parser::{parse_u64, parse_u64_spec};
use crate::text::{decimal, owned, push_decimal};
use crate::translator::{last_segment, last_segment_of};

verus! {

/// How long the watchdog may go unfed, in seconds.
pub const HEALTH_CHECK_WINDOW: u64 = 20;

/// The answer of the liveness endpoint.
#[derive(Debug)]
pub struct HealthReply {
    pub ok: bool,
    pub status: u16,
    pub body: String,
}

/// Seconds since the last check; a clock that went back counts as none.
pub open spec fn elapsed(now: u64, last: u64) -> nat {
    if now >= last {
        (now - last) as nat
    } else {
        0
    }
}

/// The liveness answer at `now` when the watchdog was last fed at `last`:
/// "ok" with 200 up to twenty seconds, "error: {seconds}" with 500 beyond.
pub fn healthz(now: u64, last: u64) -> (r: HealthReply)
    ensures
        r.ok == (elapsed(now, last) <= 20),
        r.ok ==> r.status == 200 && r.body@ == "ok"@,
        !r.ok ==> r.status == 500 && r.body@ == "error: "@ + decimal(elapsed(now, last)),
{
    let duration: u64 = if now >= last {
        now - last
    } else {
        0
    };
    if duration > HEALTH_CHECK_WINDOW {
        let mut body = owned("error: ");
        push_decimal(&mut body, duration);
        HealthReply { ok: false, status: 500, body }
    } else {
        HealthReply { ok: true, status: 200, body: owned("ok") }
    }
}

/// Whether a lookup of these keys needs the store at all: an empty list
/// gives an empty answer without a round trip.
pub fn needs_round_trip(keys: &Vec<String>) -> (r: bool)
    ensures
        r == (keys@.len() > 0),
{
    keys.len() > 0
}

/// The expiry to set after a write: none for a time to live of zero.
pub fn expiry_for(ttl: u32) -> (r: Option<u32>)
    ensures
        ttl == 0 ==> r is None,
        ttl != 0 ==> r == Some(ttl),
{
    if ttl == 0 {
        None
    } else {
        Some(ttl)
    }
}

/// The creation time that a persistence key ends with; -1 where the last
/// segment is no number.
pub open spec fn created_rank(k: Seq<char>) -> int {
    match parse_u64_spec(last_segment(k)) {
        Some(v) => v as int,
        None => -1,
    }
}

/// Newest first: creation times never increase along the sequence.
pub open spec fn newest_first(s: Seq<Seq<char>>) -> bool {
    forall|i: int, j: int| 0 <= i < j < s.len() ==> created_rank(#[trigger] s[i]) >= created_rank(#[trigger] s[j])
}

/// Creation times strictly decrease along the sequence.
pub open spec fn strictly_newest_first(s: Seq<Seq<char>>) -> bool {
    forall|i: int, j: int| 0 <= i < j < s.len() ==> created_rank(#[trigger] s[i]) > created_rank(#[trigger] s[j])
}

/// No two keys are equal or share a creation time.
pub open spec fn distinct_times(keys: Seq<Seq<char>>) -> bool {
    &&& keys.no_duplicates()
    &&& forall|i: int, j: int| 0 <= i < j < keys.len() ==> created_rank(#[trigger] keys[i]) != created_rank(#[trigger] keys[j])
}

/// A newest-first ordering of keys with distinct creation times is strict,
/// and so is any prefix of it.
proof fn lemma_strict_when_distinct(keys: Seq<Seq<char>>, s: Seq<Seq<char>>, n: int)
    requires
        distinct_times(keys),
        s.to_multiset() == keys.to_multiset(),
        newest_first(s),
        0 <= n <= s.len(),
    ensures
        strictly_newest_first(s.take(n)),
{
    broadcast use vstd::seq_lib::to_multiset_contains;
    keys.lemma_multiset_has_no_duplicates();
    s.lemma_multiset_has_no_duplicates_conv();
    assert forall|i: int, j: int| 0 <= i < j < s.take(n).len() implies created_rank(#[trigger] s.take(n)[i])
        > created_rank(#[trigger] s.take(n)[j]) by {
        assert(s.take(n)[i] == s[i] && s.take(n)[j] == s[j]);
        assert(s[i] != s[j]);
        assert(s.contains(s[i]));
        assert(s.contains(s[j]));
        assert(keys.to_multiset().count(s[i]) > 0);
        assert(keys.to_multiset().count(s[j]) > 0);
        assert(keys.contains(s[i]));
        assert(keys.contains(s[j]));
        let p = choose|p: int| 0 <= p < keys.len() && keys[p] == s[i];
        let q = choose|q: int| 0 <= q < keys.len() && keys[q] == s[j];
        if p < q {
            assert(created_rank(keys[p]) != created_rank(keys[q]));
        } else {
            assert(created_rank(keys[q]) != created_rank(keys[p]));
        }
    }
}

pub open spec fn min_len(n: nat, limit: u32) -> nat {
    if n < limit as nat {
        n
    } else {
        limit as nat
    }
}

fn created_rank_of(k: &String) -> (r: Option<u64>)
    ensures
        match r {
            Some(v) => created_rank(k@) == v as int,
            None => created_rank(k@) == -1,
        },
{
    let seg = last_segment_of(k.as_str());
    parse_u64(seg.as_str())
}

/// Whether rank `a` lies strictly below rank `b`.
fn rank_below(a: Option<u64>, b: Option<u64>) -> (r: bool)
    ensures
        r == (match a { Some(x) => x as int, None => -1 } < match b { Some(x) => x as int, None => -1 }),
{
    match (a, b) {
        (None, None) => false,
        (None, Some(_)) => true,
        (Some(_), None) => false,
        (Some(x), Some(y)) => x < y,
    }
}

/// The persistence keys of a boss to answer with: newest first by the
/// creation time their last segment holds, at most `limit` of them.
pub fn recent_persistence_keys(keys: &Vec<String>, limit: u32) -> (r: Vec<String>)
    ensures
        r@.len() == min_len(keys@.len(), limit),
        newest_first(r.deep_view()),
        distinct_times(keys.deep_view()) ==> strictly_newest_first(r.deep_view()),
        exists|s: Seq<Seq<char>>|
            s.to_multiset() == keys.deep_view().to_multiset() && newest_first(s) && r.deep_view() == s.take(
                r@.len() as int,
            ),
{
    broadcast use to_multiset_insert, to_multiset_build;
    let mut sorted: Vec<String> = Vec::new();
    let mut ranks: Vec<Option<u64>> = Vec::new();
    let mut i: usize = 0;
    assert(sorted.deep_view() =~= keys.deep_view().subrange(0, 0));
    while i < keys.len()
        invariant
            i <= keys@.len(),
            sorted@.len() == i,
            ranks@.len() == i,
            forall|j: int| 0 <= j < i ==> (match #[trigger] ranks@[j] { Some(x) => x as int, None => -1 })
                == created_rank(sorted@[j]@),
            newest_first(sorted.deep_view()),
            sorted.deep_view().to_multiset() == keys.deep_view().subrange(0, i as int).to_multiset(),
        decreases keys@.len() - i,
    {
        let key = keys[i].clone();
        let rank = created_rank_of(&key);
        let mut j: usize = 0;
        while j < sorted.len() && !rank_below(ranks[j], rank)
            invariant
                j <= sorted@.len(),
                sorted@.len() == ranks@.len(),
                forall|t: int| 0 <= t < j ==> created_rank(#[trigger] sorted@[t]@) >= created_rank(key@),
                forall|t: int| 0 <= t < sorted@.len() ==> (match #[trigger] ranks@[t] { Some(x) => x as int, None => -1 })
                    == created_rank(sorted@[t]@),
                match rank { Some(x) => x as int, None => -1 } == created_rank(key@),
            decreases sorted@.len() - j,
        {
            j = j + 1;
        }
        let ghost before = sorted.deep_view();
        let ghost before_v = sorted@;
        let ghost before_r = ranks@;
        sorted.insert(j, key);
        ranks.insert(j, rank);
        proof {
            assert(sorted.deep_view() =~= before.insert(j as int, keys@[i as int]@));
            assert(keys.deep_view().subrange(0, i + 1) =~= keys.deep_view().subrange(0, i as int).push(keys@[i as int]@));
            to_multiset_insert(before, j as int, keys@[i as int]@);
            to_multiset_build(keys.deep_view().subrange(0, i as int), keys@[i as int]@);
            assert forall|a: int, b: int| 0 <= a < b < sorted@.len() implies created_rank(
                #[trigger] sorted.deep_view()[a],
            ) >= created_rank(#[trigger] sorted.deep_view()[b]) by {
                if j < sorted@.len() - 1 && b > j as int && a < j as int {
                    assert(created_rank(before[a]) >= created_rank(before[j as int]));
                }
                if a == j as int && b > j as int {
                    assert(created_rank(before[b - 1]) <= created_rank(before[j as int]));
                }
            }
            assert forall|t: int| 0 <= t < i + 1 implies (match #[trigger] ranks@[t] { Some(x) => x as int, None => -1 })
                == created_rank(sorted@[t]@) by {
                if t > j {
                    assert(sorted@[t] == before_v[t - 1]);
                    assert(ranks@[t] == before_r[t - 1]);
                } else if t < j {
                    assert(sorted@[t] == before_v[t]);
                    assert(ranks@[t] == before_r[t]);
                }
            }
        }
        i = i + 1;
    }
    assert(keys.deep_view().subrange(0, i as int) =~= keys.deep_view());
    let ghost full = sorted.deep_view();
    let n: usize = if (limit as usize) < sorted.len() {
        limit as usize
    } else {
        sorted.len()
    };
    sorted.truncate(n);
    assert(sorted.deep_view() =~= full.take(n as int));
    proof {
        if distinct_times(keys.deep_view()) {
            lemma_strict_when_distinct(keys.deep_view(), full, n as int);
        }
    }
    sorted
}

} // verus!
