//! The translator map: boss names paired across languages, and reservations
//! of names whose translation is under way.
//!
//! An entry whose value is empty is a reservation: a worker is matching that
//! name and no other may be started for it. An entry with a non-empty value
//! is resolved.
use vstd::prelude::*;
use vstd::string::*;
use crate::keys::{gbf_raid_boss_key, gbf_translator_key, paired_boss_key, translator_key, translator_prefix};
use crate::language::{parse_language, Language, TranslatorResult};
use crate::records::{RaidBoss, RaidBossRaw};
use crate::table::Table;
use crate::text::{chars_of, owned, string_from};

verus! {

pub type NameMap = Map<Seq<char>, Seq<char>>;

pub open spec fn is_resolved(m: NameMap, k: Seq<char>) -> bool {
    m.contains_key(k) && m[k].len() > 0
}

pub open spec fn is_pending(m: NameMap, k: Seq<char>) -> bool {
    m.contains_key(k) && m[k].len() == 0
}

/// Every resolved entry has a non-empty name and its reverse is present.
pub open spec fn symmetric(m: NameMap) -> bool {
    forall|k: Seq<char>|
        #[trigger] is_resolved(m, k) ==> k.len() > 0 && m.contains_key(m[k]) && m[m[k]] == k
}

/// A lookup: the map after it, the translation if resolved (`None` while
/// pending), and whether a worker must be started.
pub open spec fn lookup_step(m: NameMap, name: Seq<char>) -> (NameMap, Option<Seq<char>>, bool) {
    if m.contains_key(name) {
        if m[name].len() == 0 {
            (m, None, false)
        } else {
            (m, Some(m[name]), false)
        }
    } else {
        (m.insert(name, Seq::empty()), None, true)
    }
}

/// The map after a worker for `origin` finished: both directions on a match
/// with a non-empty name, the reservation dropped otherwise.
pub open spec fn resolve_step(m: NameMap, origin: Seq<char>, matched: Option<Seq<char>>) -> NameMap {
    match matched {
        Some(t) => if t.len() > 0 {
            m.insert(origin, t).insert(t, origin)
        } else {
            m.remove(origin)
        },
        None => m.remove(origin),
    }
}

/// The translator entries written to the store after a worker finished, as
/// (name, translation) pairs; each is stored under `translator_key(name)`.
pub open spec fn translator_writes(origin: Seq<char>, matched: Option<Seq<char>>) -> Seq<(Seq<char>, Seq<char>)> {
    match matched {
        Some(t) => if t.len() > 0 {
            seq![(origin, t), (t, origin)]
        } else {
            Seq::empty()
        },
        None => Seq::empty(),
    }
}

/// The position of the last `.` before `i`, or -1.
pub open spec fn last_dot_before(s: Seq<char>, i: int) -> int
    decreases i,
{
    if i <= 0 || i > s.len() {
        -1
    } else if s[i - 1] == '.' {
        i - 1
    } else {
        last_dot_before(s, i - 1)
    }
}

/// What follows the last `.` of a key: the boss name of a raw-boss key.
pub open spec fn last_segment(s: Seq<char>) -> Seq<char> {
    s.subrange(last_dot_before(s, s.len() as int) + 1, s.len() as int)
}

/// The name that a translator key stands for: the key without its prefix.
pub open spec fn name_of_translator_key(k: Seq<char>) -> Seq<char> {
    let p = translator_prefix();
    if p.len() <= k.len() && k.subrange(0, p.len() as int) == p {
        k.subrange(p.len() as int, k.len() as int)
    } else {
        k
    }
}

/// The map that stored translator entries give, later entries winning.
pub open spec fn map_of_entries(keys: Seq<Seq<char>>, values: Seq<Seq<char>>) -> NameMap
    decreases keys.len(),
{
    if keys.len() == 0 || values.len() == 0 {
        Map::empty()
    } else {
        map_of_entries(keys.drop_last(), values.drop_last()).insert(
            name_of_translator_key(keys.last()),
            values.last(),
        )
    }
}

/// The boss names in both languages, English first, once `origin` of language
/// `lang` was matched to `translated`.
pub open spec fn paired_names(lang: Language, origin: Seq<char>, translated: Seq<char>) -> (Seq<char>, Seq<char>) {
    match lang {
        Language::English => (origin, translated),
        Language::Japanese => (translated, origin),
    }
}

/// The in-memory translator map.
pub struct TranslatorMap {
    pub table: Table<String>,
}

/// What a finished translation writes to the store.
pub struct TranslationWrites {
    /// Translator entries as (key, value).
    pub translator_entries: Vec<(String, String)>,
    /// The paired boss record and the key it is stored under.
    pub paired_boss: Option<(String, RaidBoss)>,
}

impl TranslatorMap {
    pub open spec fn wf(&self) -> bool {
        self.table.wf()
    }

    pub open spec fn view(&self) -> NameMap {
        self.table.view()
    }

    pub fn new() -> (r: TranslatorMap)
        ensures
            r.wf(),
            r.view() == NameMap::empty(),
    {
        TranslatorMap { table: Table::new() }
    }

    /// The map that the stored translator entries give: each key loses its
    /// `gbf:translator:` prefix and gets the value at the same position.
    pub fn from_entries(keys: &Vec<String>, values: &Vec<String>) -> (r: TranslatorMap)
        requires
            keys@.len() == values@.len(),
        ensures
            r.wf(),
            r.view() == map_of_entries(keys.deep_view(), values.deep_view()),
    {
        let mut r = TranslatorMap::new();
        let mut i: usize = 0;
        while i < keys.len()
            invariant
                keys@.len() == values@.len(),
                i <= keys@.len(),
                r.wf(),
                r.view() == map_of_entries(
                    keys.deep_view().subrange(0, i as int),
                    values.deep_view().subrange(0, i as int),
                ),
            decreases keys@.len() - i,
        {
            let name = name_from_translator_key(keys[i].as_str());
            r.insert(name, values[i].clone());
            proof {
                let ks = keys.deep_view().subrange(0, i + 1);
                let vs = values.deep_view().subrange(0, i + 1);
                assert(ks.drop_last() =~= keys.deep_view().subrange(0, i as int));
                assert(vs.drop_last() =~= values.deep_view().subrange(0, i as int));
                assert(ks.last() == keys@[i as int]@);
            }
            i = i + 1;
        }
        assert(keys.deep_view().subrange(0, i as int) =~= keys.deep_view());
        assert(values.deep_view().subrange(0, i as int) =~= values.deep_view());
        r
    }

    /// Sets the translation of a name.
    pub fn insert(&mut self, name: String, translated: String)
        requires
            old(self).wf(),
        ensures
            final(self).wf(),
            final(self).view() == old(self).view().insert(name@, translated@),
    {
        self.table.insert(name, translated);
    }

    /// The stored translation of a name; empty while it is reserved.
    pub fn get(&self, name: &str) -> (r: Option<String>)
        requires
            self.wf(),
        ensures
            match r {
                Some(t) => self.view().contains_key(name@) && t@ == self.view()[name@],
                None => !self.view().contains_key(name@),
            },
    {
        match self.table.get(name) {
            Some(t) => Some(t.clone()),
            None => None,
        }
    }

    /// Looks a boss name up. A resolved name gives its translation; a reserved
    /// one gives `Pending`; an unknown one is reserved, gives `Pending`, and the
    /// second result says that a worker must now be started for it.
    pub fn translate_boss_name(&mut self, raid_boss_raw: &RaidBossRaw) -> (r: (TranslatorResult, bool))
        requires
            old(self).wf(),
        ensures
            final(self).wf(),
            (final(self).view(), match r.0 {
                TranslatorResult::Pending => None,
                TranslatorResult::Success { result } => Some(result@),
            }, r.1) == lookup_step(old(self).view(), raid_boss_raw.boss_name@),
    {
        let name = raid_boss_raw.boss_name.as_str();
        match self.table.get(name) {
            Some(t) => {
                if t.unicode_len() == 0 {
                    (TranslatorResult::Pending, false)
                } else {
                    (TranslatorResult::Success { result: t.clone() }, false)
                }
            },
            None => {
                self.table.insert(owned(name), String::new());
                (TranslatorResult::Pending, true)
            },
        }
    }

    /// Whether a name has a non-empty translation.
    pub fn is_resolved(&self, name: &str) -> (r: bool)
        requires
            self.wf(),
        ensures
            r == is_resolved(self.view(), name@),
    {
        match self.table.get(name) {
            Some(t) => t.unicode_len() > 0,
            None => false,
        }
    }

    /// The keys of possible matches that remain once those whose boss name is
    /// already resolved are left out; order is kept.
    pub fn candidate_keys(&self, keys: &Vec<String>) -> (r: Vec<String>)
        requires
            self.wf(),
        ensures
            r.deep_view() == keys.deep_view().filter(|k: Seq<char>| !is_resolved(self.view(), last_segment(k))),
    {
        let ghost pred = |k: Seq<char>| !is_resolved(self.view(), last_segment(k));
        let mut r: Vec<String> = Vec::new();
        let mut i: usize = 0;
        while i < keys.len()
            invariant
                self.wf(),
                i <= keys@.len(),
                pred == (|k: Seq<char>| !is_resolved(self.view(), last_segment(k))),
                r.deep_view() == keys.deep_view().subrange(0, i as int).filter(pred),
            decreases keys@.len() - i,
        {
            let seg = last_segment_of(keys[i].as_str());
            let keep = !self.is_resolved(seg.as_str());
            let ghost old_r = r.deep_view();
            proof {
                let s = keys.deep_view().subrange(0, i + 1);
                assert(s.drop_last() =~= keys.deep_view().subrange(0, i as int));
                assert(s.last() == keys@[i as int]@);
                assert(pred(s.last()) == keep);
                assert(s =~= keys.deep_view().subrange(0, i as int).push(keys@[i as int]@));
                keys.deep_view().subrange(0, i as int).lemma_filter_push(keys@[i as int]@, pred);
            }
            if keep {
                r.push(keys[i].clone());
                assert(r.deep_view() =~= keys.deep_view().subrange(0, i + 1).filter(pred));
            } else {
                assert(r.deep_view() =~= keys.deep_view().subrange(0, i + 1).filter(pred));
            }
            i = i + 1;
        }
        assert(keys.deep_view().subrange(0, i as int) =~= keys.deep_view());
        r
    }

    /// Records the outcome of a translation worker for `origin`, the raw boss
    /// it was started for, given the name of the matched candidate if any.
    /// On a match with a non-empty name both directions are stored and two
    /// translator entries are to be written; otherwise the reservation is
    /// dropped. The paired boss, English name first, is to be written under
    /// its Japanese name when both of its names are non-empty.
    pub fn finish_translation(&mut self, origin: &RaidBossRaw, matched: Option<String>) -> (r: TranslationWrites)
        requires
            old(self).wf(),
            parse_language(origin.language@) is Some,
        ensures
            final(self).wf(),
            final(self).view() == resolve_step(old(self).view(), origin.boss_name@, matched.deep_view()),
            r.translator_entries@.len() == translator_writes(origin.boss_name@, matched.deep_view()).len(),
            forall|i: int| 0 <= i < r.translator_entries@.len() ==> {
                let w = #[trigger] translator_writes(origin.boss_name@, matched.deep_view())[i];
                r.translator_entries@[i].0@ == translator_key(w.0) && r.translator_entries@[i].1@ == w.1
            },
            ({
                let lang = parse_language(origin.language@)->0;
                let t = match matched.deep_view() {
                    Some(t) => if t.len() > 0 { t } else { Seq::empty() },
                    None => Seq::empty(),
                };
                let names = paired_names(lang, origin.boss_name@, t);
                match r.paired_boss {
                    Some((key, boss)) => names.0.len() > 0 && names.1.len() > 0
                        && boss.en_name@ == names.0 && boss.jp_name@ == names.1
                        && boss.level == origin.level && boss.image@ == origin.image@
                        && key@ == paired_boss_key(origin.level as int, names.1),
                    None => !(names.0.len() > 0 && names.1.len() > 0),
                }
            }),
    {
        let name = origin.boss_name.as_str();
        let mut entries: Vec<(String, String)> = Vec::new();
        let translated: String = match matched {
            Some(t) => {
                if t.unicode_len() > 0 {
                    self.table.insert(owned(name), t.clone());
                    self.table.insert(t.clone(), owned(name));
                    entries.push((gbf_translator_key(name), t.clone()));
                    entries.push((gbf_translator_key(t.as_str()), owned(name)));
                    t
                } else {
                    self.table.remove(name);
                    String::new()
                }
            },
            None => {
                self.table.remove(name);
                String::new()
            },
        };
        proof {
            let ws = translator_writes(origin.boss_name@, matched.deep_view());
            if ws.len() == 2 {
                assert(ws[0] == (origin.boss_name@, translated@));
                assert(ws[1] == (translated@, origin.boss_name@));
            }
        }
        let lang = match Language::parse(origin.language.as_str()) {
            Some(l) => l,
            None => Language::Japanese,
        };
        let boss = match lang {
            Language::English => RaidBoss::with_args(name, translated.as_str(), origin.level, origin.image.as_str()),
            Language::Japanese => RaidBoss::with_args(translated.as_str(), name, origin.level, origin.image.as_str()),
        };
        let paired = if boss.en_name.unicode_len() > 0 && boss.jp_name.unicode_len() > 0 {
            Some((gbf_raid_boss_key(Language::Japanese, &boss), boss))
        } else {
            None
        };
        TranslationWrites { translator_entries: entries, paired_boss: paired }
    }
}

/// What follows the last `.` of a key.
pub fn last_segment_of(s: &str) -> (r: String)
    ensures
        r@ == last_segment(s@),
{
    let v = chars_of(s);
    let mut i: usize = v.len();
    while i > 0 && v[i - 1] != '.'
        invariant
            i <= v@.len(),
            v@ == s@,
            last_dot_before(s@, i as int) == last_dot_before(s@, s@.len() as int),
        decreases i,
    {
        i = i - 1;
    }
    string_from(&v, i, v.len())
}

/// The name that a translator key stands for.
pub fn name_from_translator_key(key: &str) -> (r: String)
    ensures
        r@ == name_of_translator_key(key@),
{
    let v = chars_of(key);
    let p = chars_of("gbf:translator:");
    if p.len() > v.len() {
        return owned(key);
    }
    let mut j: usize = 0;
    while j < p.len()
        invariant
            p@ == translator_prefix(),
            v@ == key@,
            p@.len() <= v@.len(),
            j <= p@.len(),
            v@.subrange(0, j as int) == p@.subrange(0, j as int),
        decreases p@.len() - j,
    {
        if v[j] != p[j] {
            assert(v@.subrange(0, p@.len() as int)[j as int] != p@[j as int]);
            return owned(key);
        }
        proof {
            assert(v@.subrange(0, j + 1) =~= v@.subrange(0, j as int).push(v@[j as int]));
            assert(p@.subrange(0, j + 1) =~= p@.subrange(0, j as int).push(p@[j as int]));
        }
        j = j + 1;
    }
    assert(p@.subrange(0, p@.len() as int) =~= p@);
    string_from(&v, p.len(), v.len())
}

/// Looking a name up twice starts at most one worker: once the first lookup
/// has reserved it, the second reports it pending and starts none.
pub proof fn law_single_reservation(m: NameMap, name: Seq<char>)
    ensures
        lookup_step(m, name).2 <==> !m.contains_key(name),
        lookup_step(m, name).2 ==> lookup_step(lookup_step(m, name).0, name) == (
            lookup_step(m, name).0,
            None::<Seq<char>>,
            false,
        ),
{
}

/// A lookup keeps a symmetric map symmetric: a reservation is only made for
/// a name that no resolved entry points to.
pub proof fn law_lookup_keeps_symmetry(m: NameMap, name: Seq<char>)
    requires
        symmetric(m),
    ensures
        symmetric(lookup_step(m, name).0),
{
    let r = lookup_step(m, name).0;
    if !m.contains_key(name) {
        assert forall|k: Seq<char>| #[trigger] is_resolved(r, k) implies k.len() > 0 && r.contains_key(r[k]) && r[r[k]]
            == k by {
            assert(k != name);
            assert(is_resolved(m, k));
        }
    }
}

/// A finished worker leaves no reservation for its name; on a match both
/// directions are present, and a symmetric map stays symmetric.
pub proof fn law_resolution_symmetric(m: NameMap, origin: Seq<char>, matched: Option<Seq<char>>)
    requires
        symmetric(m),
        is_pending(m, origin),
        origin.len() > 0,
        matched is Some ==> !is_resolved(m, matched->0),
    ensures
        !is_pending(resolve_step(m, origin, matched), origin),
        symmetric(resolve_step(m, origin, matched)),
        matched is Some && matched->0.len() > 0 ==> resolve_step(m, origin, matched)[origin] == matched->0
            && resolve_step(m, origin, matched)[matched->0] == origin,
{
    let r = resolve_step(m, origin, matched);
    match matched {
        Some(t) => {
            if t.len() > 0 {
                assert forall|k: Seq<char>| #[trigger] is_resolved(r, k) implies k.len() > 0 && r.contains_key(r[k]) && r[r[k]] == k by {
                    if k != origin && k != t {
                        assert(is_resolved(m, k));
                        assert(m[k] != origin);
                        assert(m[k] != t);
                    }
                }
            } else {
                lemma_remove_pending_symmetric(m, origin);
            }
        },
        None => {
            lemma_remove_pending_symmetric(m, origin);
        },
    }
}

proof fn lemma_remove_pending_symmetric(m: NameMap, origin: Seq<char>)
    requires
        symmetric(m),
        is_pending(m, origin),
    ensures
        symmetric(m.remove(origin)),
{
    let r = m.remove(origin);
    assert forall|k: Seq<char>| #[trigger] is_resolved(r, k) implies k.len() > 0 && r.contains_key(r[k]) && r[r[k]] == k by {
        assert(is_resolved(m, k));
        assert(m[k] != origin);
    }
}

/// The translator entries a worker writes come in mirrored pairs: for each
/// written `name -> translation` the store also gets `translation -> name`.
pub proof fn law_translator_writes_mirrored(origin: Seq<char>, matched: Option<Seq<char>>)
    ensures
        forall|i: int| 0 <= i < translator_writes(origin, matched).len() ==> exists|j: int|
            0 <= j < translator_writes(origin, matched).len()
                && #[trigger] translator_writes(origin, matched)[j] == (
                    #[trigger] translator_writes(origin, matched)[i].1,
                    translator_writes(origin, matched)[i].0,
                ),
{
    let w = translator_writes(origin, matched);
    if w.len() == 2 {
        assert(w[0] == (w[1].1, w[1].0));
        assert(w[1] == (w[0].1, w[0].0));
    }
}

} // verus!
