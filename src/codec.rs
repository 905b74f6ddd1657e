//! The binary form of the record models and its decoding.
//!
//! Each record is a run of fields in tag order; a field holding its default
//! (zero, or the empty text) is left out. Decoding takes fields in any order,
//! the last of a tag winning, and passes over unknown tags.
use vstd::prelude::*;
use vstd::utf8::*;
use crate::error::Error;
use crate::records::{RaidBoss, RaidBossRaw, RaidBossRawView, RaidBossView, RaidTweet, RaidTweetView};
use crate::wire::{
    field_bytes, fields_bytes, lemma_fields_round_trip, read_all_fields, read_fields, text_at, views_in,
    write_bytes_field, write_number_field, writable, RawField, WireField, WireValue,
};

verus! {

broadcast use {encode_utf8_valid_utf8, encode_utf8_decode_utf8};

pub open spec fn number_field(tag: nat, v: nat) -> Seq<WireField> {
    if v == 0 {
        Seq::empty()
    } else {
        seq![WireField { tag, value: WireValue::Varint(v) }]
    }
}

pub open spec fn text_field(tag: nat, s: Seq<char>) -> Seq<WireField> {
    if s.len() == 0 {
        Seq::empty()
    } else {
        seq![WireField { tag, value: WireValue::Bytes(encode_utf8(s)) }]
    }
}

/// A signed 32-bit number as it travels: sign-extended to 64 bits.
pub open spec fn i32_on_wire(l: i32) -> nat {
    if l >= 0 {
        l as nat
    } else {
        (l + 18446744073709551616int) as nat
    }
}

/// A number read for a signed 32-bit field: its low 32 bits, two's complement.
pub open spec fn i32_from_wire(v: nat) -> i32 {
    let low = v % 4294967296;
    if low < 2147483648 {
        low as i32
    } else {
        (low - 4294967296) as i32
    }
}

pub proof fn lemma_i32_round_trip(l: i32)
    ensures
        i32_from_wire(i32_on_wire(l)) == l,
        i32_on_wire(l) <= u64::MAX,
        (i32_on_wire(l) == 0) == (l == 0),
{
    if l < 0 {
        let w = l + 18446744073709551616int;
        assert(w % 4294967296 == l + 4294967296) by (nonlinear_arith)
            requires w == l + 18446744073709551616int, -2147483648 <= l < 0;
    }
}

pub fn i32_from_wire_exec(v: u64) -> (r: i32)
    ensures
        r == i32_from_wire(v as nat),
{
    let low: u64 = v % 4294967296;
    if low < 2147483648 {
        low as i32
    } else {
        (low as i64 - 4294967296) as i32
    }
}

pub fn i32_on_wire_exec(l: i32) -> (r: u64)
    ensures
        r as nat == i32_on_wire(l),
{
    if l >= 0 {
        l as u64
    } else {
        (18446744073709551615u64 - ((-1 - l as i64) as u64))
    }
}

/// A run of at most one field is that field's bytes.
proof fn lemma_fields_bytes_one_or_none(prev: Seq<WireField>, piece: Seq<WireField>)
    requires
        piece.len() <= 1,
    ensures
        fields_bytes(prev + piece) == fields_bytes(prev) + (if piece.len() == 1 {
            field_bytes(piece[0])
        } else {
            Seq::empty()
        }),
{
    lemma_fields_bytes_concat(prev, piece);
    if piece.len() == 1 {
        assert(piece.drop_first() =~= Seq::<WireField>::empty());
        assert(fields_bytes(piece.drop_first()) =~= Seq::<u8>::empty());
        assert(fields_bytes(piece) =~= field_bytes(piece[0]));
    } else {
        assert(fields_bytes(piece) =~= Seq::<u8>::empty());
    }
}

pub open spec fn all_writable(fs: Seq<WireField>) -> bool {
    forall|i: int| 0 <= i < fs.len() ==> writable(#[trigger] fs[i])
}

proof fn lemma_all_writable_concat(a: Seq<WireField>, b: Seq<WireField>)
    requires
        all_writable(a),
        all_writable(b),
    ensures
        all_writable(a + b),
{
    assert forall|i: int| 0 <= i < (a + b).len() implies writable(#[trigger] (a + b)[i]) by {
        if i < a.len() {
            assert((a + b)[i] == a[i]);
        } else {
            assert((a + b)[i] == b[i - a.len()]);
        }
    }
}

/// All fields of a run, written one after another.
pub proof fn lemma_fields_bytes_concat(a: Seq<WireField>, b: Seq<WireField>)
    ensures
        fields_bytes(a + b) == fields_bytes(a) + fields_bytes(b),
    decreases a.len(),
{
    if a.len() == 0 {
        assert(a + b =~= b);
        assert(fields_bytes(a) + fields_bytes(b) =~= fields_bytes(b));
    } else {
        assert((a + b).drop_first() =~= a.drop_first() + b);
        lemma_fields_bytes_concat(a.drop_first(), b);
        assert(fields_bytes(a + b) =~= fields_bytes(a) + fields_bytes(b));
    }
}

/// The fields of a RaidBoss record, in tag order, defaults left out.
pub open spec fn boss_fields(r: RaidBossView) -> Seq<WireField> {
    text_field(1, r.en_name) + text_field(2, r.jp_name) + number_field(3, i32_on_wire(r.level)) + text_field(4, r.image)
}

/// The bytes of a RaidBoss record.
pub open spec fn encode_boss(r: RaidBossView) -> Seq<u8> {
    fields_bytes(boss_fields(r))
}

/// The value of an empty RaidBoss record.
pub open spec fn empty_boss() -> RaidBossView {
    RaidBossView { en_name: Seq::empty(), jp_name: Seq::empty(), level: 0, image: Seq::empty() }
}

/// One field read into a RaidBoss record: a known tag of the wrong kind, or
/// text that is not UTF-8, fails; an unknown tag is passed over.
pub open spec fn apply_boss(acc: Option<RaidBossView>, f: WireField) -> Option<RaidBossView> {
    match acc {
        None => None,
        Some(r) => {
        if f.tag == 1 {
            match f.value {
                WireValue::Bytes(b) => if valid_utf8(b) {
                    Some(RaidBossView { en_name: decode_utf8(b), ..r })
                } else {
                    None
                },
                _ => None,
            }
        } else if f.tag == 2 {
            match f.value {
                WireValue::Bytes(b) => if valid_utf8(b) {
                    Some(RaidBossView { jp_name: decode_utf8(b), ..r })
                } else {
                    None
                },
                _ => None,
            }
        } else if f.tag == 3 {
            match f.value {
                WireValue::Varint(v) => Some(RaidBossView { level: i32_from_wire(v), ..r }),
                _ => None,
            }
        } else if f.tag == 4 {
            match f.value {
                WireValue::Bytes(b) => if valid_utf8(b) {
                    Some(RaidBossView { image: decode_utf8(b), ..r })
                } else {
                    None
                },
                _ => None,
            }
            } else {
                Some(r)
            }
        },
    }
}

pub open spec fn fold_boss(acc: Option<RaidBossView>, fs: Seq<WireField>) -> Option<RaidBossView>
    decreases fs.len(),
{
    if fs.len() == 0 {
        acc
    } else {
        fold_boss(apply_boss(acc, fs[0]), fs.drop_first())
    }
}

/// What decoding bytes gives: the fields read in order onto an empty record.
pub open spec fn decode_boss(b: Seq<u8>) -> Option<RaidBossView> {
    match read_fields(b) {
        None => None,
        Some(fs) => fold_boss(Some(empty_boss()), fs),
    }
}

proof fn lemma_fold_boss_concat(acc: Option<RaidBossView>, a: Seq<WireField>, b: Seq<WireField>)
    ensures
        fold_boss(acc, a + b) == fold_boss(fold_boss(acc, a), b),
    decreases a.len(),
{
    if a.len() == 0 {
        assert(a + b =~= b);
    } else {
        assert((a + b).drop_first() =~= a.drop_first() + b);
        lemma_fold_boss_concat(apply_boss(acc, a[0]), a.drop_first(), b);
    }
}

proof fn lemma_fold_boss_none(fs: Seq<WireField>)
    ensures
        fold_boss(None, fs) is None,
    decreases fs.len(),
{
    if fs.len() > 0 {
        lemma_fold_boss_none(fs.drop_first());
    }
}

/// Decoding the bytes of a RaidBoss record gives the record back.
pub proof fn law_boss_round_trip(r: RaidBossView)
    requires
        encode_utf8(r.en_name).len() <= u64::MAX,
        encode_utf8(r.jp_name).len() <= u64::MAX,
        encode_utf8(r.image).len() <= u64::MAX,
    ensures
        decode_boss(encode_boss(r)) == Some(r),
{
    reveal_with_fuel(fold_boss, 3);
    let e = empty_boss();
    let fs = boss_fields(r);
    assert(r.en_name.len() == 0 ==> r.en_name =~= Seq::<char>::empty());
    assert(r.jp_name.len() == 0 ==> r.jp_name =~= Seq::<char>::empty());
    assert(r.image.len() == 0 ==> r.image =~= Seq::<char>::empty());
    let mut prefix: Seq<WireField> = Seq::empty();
    assert(all_writable(prefix));
    let mut v: RaidBossView = e;
    lemma_fold_boss_concat(Some(e), prefix, text_field(1, r.en_name));
    lemma_all_writable_concat(prefix, text_field(1, r.en_name));
    prefix = prefix + text_field(1, r.en_name);
    v = RaidBossView { en_name: r.en_name, ..v };
    assert(fold_boss(Some(e), prefix) == Some(v));
    lemma_fold_boss_concat(Some(e), prefix, text_field(2, r.jp_name));
    lemma_all_writable_concat(prefix, text_field(2, r.jp_name));
    prefix = prefix + text_field(2, r.jp_name);
    v = RaidBossView { jp_name: r.jp_name, ..v };
    assert(fold_boss(Some(e), prefix) == Some(v));
    lemma_fold_boss_concat(Some(e), prefix, number_field(3, i32_on_wire(r.level)));
    lemma_all_writable_concat(prefix, number_field(3, i32_on_wire(r.level)));
    prefix = prefix + number_field(3, i32_on_wire(r.level));
    v = RaidBossView { level: r.level, ..v };
    lemma_i32_round_trip(r.level);
    assert(fold_boss(Some(e), prefix) == Some(v));
    lemma_fold_boss_concat(Some(e), prefix, text_field(4, r.image));
    lemma_all_writable_concat(prefix, text_field(4, r.image));
    prefix = prefix + text_field(4, r.image);
    v = RaidBossView { image: r.image, ..v };
    assert(fold_boss(Some(e), prefix) == Some(v));
    assert(prefix =~= fs);
    assert(v == r);
    assert(all_writable(fs));
    lemma_fields_round_trip(fs);
}


/// Reads one field into a record; `false` where the field does not fit it.
fn apply_boss_exec(r: &mut RaidBoss, f: &RawField, b: &[u8]) -> (ok: bool)
    requires
        f.kind == 2 ==> f.start <= f.end <= b@.len(),
    ensures
        ok ==> apply_boss(Some(old(r)@), f.view_in(b@)) == Some(final(r)@),
        !ok ==> apply_boss(Some(old(r)@), f.view_in(b@)) is None,
{
    if f.tag == 1 {
        if f.kind != 2 {
            return false;
        }
        match text_at(b, f.start, f.end) {
            Some(s) => {
                r.en_name = s;
                true
            },
            None => false,
        }
    } else if f.tag == 2 {
        if f.kind != 2 {
            return false;
        }
        match text_at(b, f.start, f.end) {
            Some(s) => {
                r.jp_name = s;
                true
            },
            None => false,
        }
    } else if f.tag == 3 {
        if f.kind != 0 {
            return false;
        }
        r.level = i32_from_wire_exec(f.number);
        true
    } else if f.tag == 4 {
        if f.kind != 2 {
            return false;
        }
        match text_at(b, f.start, f.end) {
            Some(s) => {
                r.image = s;
                true
            },
            None => false,
        }
    } else {
        true
    }
}

impl RaidBoss {
    /// The record's bytes: its non-default fields in tag order.
    pub fn to_bytes(&self) -> (r: Result<Vec<u8>, Error>)
        ensures
            r matches Ok(v) && v@ == encode_boss(self@),
    {
        let mut out: Vec<u8> = Vec::new();
        let ghost mut piece: Seq<WireField> = Seq::empty();
        assert(out@ =~= fields_bytes(piece));
        let ghost before = piece;
        if self.en_name.unicode_len() > 0 {
            write_bytes_field(&mut out, 1, self.en_name.as_str().as_bytes());
        }
        proof {
            piece = piece + text_field(1, self.en_name@);
            lemma_fields_bytes_one_or_none(before, text_field(1, self.en_name@));
        }
        assert(out@ =~= fields_bytes(piece));
        let ghost before = piece;
        if self.jp_name.unicode_len() > 0 {
            write_bytes_field(&mut out, 2, self.jp_name.as_str().as_bytes());
        }
        proof {
            piece = piece + text_field(2, self.jp_name@);
            lemma_fields_bytes_one_or_none(before, text_field(2, self.jp_name@));
        }
        assert(out@ =~= fields_bytes(piece));
        let ghost before = piece;
        if self.level != 0 {
            write_number_field(&mut out, 3, i32_on_wire_exec(self.level));
        }
        proof {
            lemma_i32_round_trip(self.level);
            piece = piece + number_field(3, i32_on_wire(self.level));
            lemma_fields_bytes_one_or_none(before, number_field(3, i32_on_wire(self.level)));
        }
        assert(out@ =~= fields_bytes(piece));
        let ghost before = piece;
        if self.image.unicode_len() > 0 {
            write_bytes_field(&mut out, 4, self.image.as_str().as_bytes());
        }
        proof {
            piece = piece + text_field(4, self.image@);
            lemma_fields_bytes_one_or_none(before, text_field(4, self.image@));
        }
        assert(out@ =~= fields_bytes(piece));
        assert(piece =~= boss_fields(self@));
        Ok(out)
    }

    /// The record that bytes hold, if they are a well-formed run of fields
    /// whose known tags have the right kind and whose texts are UTF-8.
    pub fn decode(b: &[u8]) -> (r: Option<RaidBoss>)
        ensures
            match r {
                Some(x) => decode_boss(b@) == Some(x@),
                None => decode_boss(b@) is None,
            },
    {
        let fs = match read_all_fields(b) {
            Some(fs) => fs,
            None => return None,
        };
        let ghost views = views_in(fs@, b@);
        let mut r = RaidBoss::new();
        assert(r.en_name@ =~= Seq::<char>::empty());
        assert(r.jp_name@ =~= Seq::<char>::empty());
        assert(r.image@ =~= Seq::<char>::empty());
        assert(r@ == empty_boss());
        assert(views.skip(0) =~= views);
        let mut i: usize = 0;
        while i < fs.len()
            invariant
                i <= fs@.len(),
                views == views_in(fs@, b@),
                read_fields(b@) == Some(views),
                forall|j: int| 0 <= j < fs@.len() ==> (#[trigger] fs@[j]).kind == 2 ==> fs@[j].start <= fs@[j].end <= b@.len(),
                fold_boss(Some(empty_boss()), views) == fold_boss(Some(r@), views.skip(i as int)),
            decreases fs@.len() - i,
        {
            let ghost before = r@;
            let ok = apply_boss_exec(&mut r, &fs[i], b);
            proof {
                assert(views.skip(i as int)[0] == fs@[i as int].view_in(b@));
                assert(views.skip(i as int).drop_first() =~= views.skip(i + 1));
            }
            if !ok {
                proof {
                    lemma_fold_boss_none(views.skip(i + 1));
                }
                return None;
            }
            i = i + 1;
        }
        assert(views.skip(i as int) =~= Seq::<WireField>::empty());
        Some(r)
    }
}

/// The fields of a RaidBossRaw record, in tag order, defaults left out.
pub open spec fn raw_fields(r: RaidBossRawView) -> Seq<WireField> {
    text_field(1, r.boss_name) + number_field(2, i32_on_wire(r.level)) + text_field(3, r.image) + text_field(4, r.language)
}

/// The bytes of a RaidBossRaw record.
pub open spec fn encode_raw(r: RaidBossRawView) -> Seq<u8> {
    fields_bytes(raw_fields(r))
}

/// The value of an empty RaidBossRaw record.
pub open spec fn empty_raw() -> RaidBossRawView {
    RaidBossRawView { boss_name: Seq::empty(), level: 0, image: Seq::empty(), language: Seq::empty() }
}

/// One field read into a RaidBossRaw record: a known tag of the wrong kind, or
/// text that is not UTF-8, fails; an unknown tag is passed over.
pub open spec fn apply_raw(acc: Option<RaidBossRawView>, f: WireField) -> Option<RaidBossRawView> {
    match acc {
        None => None,
        Some(r) => {
        if f.tag == 1 {
            match f.value {
                WireValue::Bytes(b) => if valid_utf8(b) {
                    Some(RaidBossRawView { boss_name: decode_utf8(b), ..r })
                } else {
                    None
                },
                _ => None,
            }
        } else if f.tag == 2 {
            match f.value {
                WireValue::Varint(v) => Some(RaidBossRawView { level: i32_from_wire(v), ..r }),
                _ => None,
            }
        } else if f.tag == 3 {
            match f.value {
                WireValue::Bytes(b) => if valid_utf8(b) {
                    Some(RaidBossRawView { image: decode_utf8(b), ..r })
                } else {
                    None
                },
                _ => None,
            }
        } else if f.tag == 4 {
            match f.value {
                WireValue::Bytes(b) => if valid_utf8(b) {
                    Some(RaidBossRawView { language: decode_utf8(b), ..r })
                } else {
                    None
                },
                _ => None,
            }
            } else {
                Some(r)
            }
        },
    }
}

pub open spec fn fold_raw(acc: Option<RaidBossRawView>, fs: Seq<WireField>) -> Option<RaidBossRawView>
    decreases fs.len(),
{
    if fs.len() == 0 {
        acc
    } else {
        fold_raw(apply_raw(acc, fs[0]), fs.drop_first())
    }
}

/// What decoding bytes gives: the fields read in order onto an empty record.
pub open spec fn decode_raw(b: Seq<u8>) -> Option<RaidBossRawView> {
    match read_fields(b) {
        None => None,
        Some(fs) => fold_raw(Some(empty_raw()), fs),
    }
}

proof fn lemma_fold_raw_concat(acc: Option<RaidBossRawView>, a: Seq<WireField>, b: Seq<WireField>)
    ensures
        fold_raw(acc, a + b) == fold_raw(fold_raw(acc, a), b),
    decreases a.len(),
{
    if a.len() == 0 {
        assert(a + b =~= b);
    } else {
        assert((a + b).drop_first() =~= a.drop_first() + b);
        lemma_fold_raw_concat(apply_raw(acc, a[0]), a.drop_first(), b);
    }
}

proof fn lemma_fold_raw_none(fs: Seq<WireField>)
    ensures
        fold_raw(None, fs) is None,
    decreases fs.len(),
{
    if fs.len() > 0 {
        lemma_fold_raw_none(fs.drop_first());
    }
}

/// Decoding the bytes of a RaidBossRaw record gives the record back.
pub proof fn law_raw_round_trip(r: RaidBossRawView)
    requires
        encode_utf8(r.boss_name).len() <= u64::MAX,
        encode_utf8(r.image).len() <= u64::MAX,
        encode_utf8(r.language).len() <= u64::MAX,
    ensures
        decode_raw(encode_raw(r)) == Some(r),
{
    reveal_with_fuel(fold_raw, 3);
    let e = empty_raw();
    let fs = raw_fields(r);
    assert(r.boss_name.len() == 0 ==> r.boss_name =~= Seq::<char>::empty());
    assert(r.image.len() == 0 ==> r.image =~= Seq::<char>::empty());
    assert(r.language.len() == 0 ==> r.language =~= Seq::<char>::empty());
    let mut prefix: Seq<WireField> = Seq::empty();
    assert(all_writable(prefix));
    let mut v: RaidBossRawView = e;
    lemma_fold_raw_concat(Some(e), prefix, text_field(1, r.boss_name));
    lemma_all_writable_concat(prefix, text_field(1, r.boss_name));
    prefix = prefix + text_field(1, r.boss_name);
    v = RaidBossRawView { boss_name: r.boss_name, ..v };
    assert(fold_raw(Some(e), prefix) == Some(v));
    lemma_fold_raw_concat(Some(e), prefix, number_field(2, i32_on_wire(r.level)));
    lemma_all_writable_concat(prefix, number_field(2, i32_on_wire(r.level)));
    prefix = prefix + number_field(2, i32_on_wire(r.level));
    v = RaidBossRawView { level: r.level, ..v };
    lemma_i32_round_trip(r.level);
    assert(fold_raw(Some(e), prefix) == Some(v));
    lemma_fold_raw_concat(Some(e), prefix, text_field(3, r.image));
    lemma_all_writable_concat(prefix, text_field(3, r.image));
    prefix = prefix + text_field(3, r.image);
    v = RaidBossRawView { image: r.image, ..v };
    assert(fold_raw(Some(e), prefix) == Some(v));
    lemma_fold_raw_concat(Some(e), prefix, text_field(4, r.language));
    lemma_all_writable_concat(prefix, text_field(4, r.language));
    prefix = prefix + text_field(4, r.language);
    v = RaidBossRawView { language: r.language, ..v };
    assert(fold_raw(Some(e), prefix) == Some(v));
    assert(prefix =~= fs);
    assert(v == r);
    assert(all_writable(fs));
    lemma_fields_round_trip(fs);
}


/// Reads one field into a record; `false` where the field does not fit it.
fn apply_raw_exec(r: &mut RaidBossRaw, f: &RawField, b: &[u8]) -> (ok: bool)
    requires
        f.kind == 2 ==> f.start <= f.end <= b@.len(),
    ensures
        ok ==> apply_raw(Some(old(r)@), f.view_in(b@)) == Some(final(r)@),
        !ok ==> apply_raw(Some(old(r)@), f.view_in(b@)) is None,
{
    if f.tag == 1 {
        if f.kind != 2 {
            return false;
        }
        match text_at(b, f.start, f.end) {
            Some(s) => {
                r.boss_name = s;
                true
            },
            None => false,
        }
    } else if f.tag == 2 {
        if f.kind != 0 {
            return false;
        }
        r.level = i32_from_wire_exec(f.number);
        true
    } else if f.tag == 3 {
        if f.kind != 2 {
            return false;
        }
        match text_at(b, f.start, f.end) {
            Some(s) => {
                r.image = s;
                true
            },
            None => false,
        }
    } else if f.tag == 4 {
        if f.kind != 2 {
            return false;
        }
        match text_at(b, f.start, f.end) {
            Some(s) => {
                r.language = s;
                true
            },
            None => false,
        }
    } else {
        true
    }
}

impl RaidBossRaw {
    /// The record's bytes: its non-default fields in tag order.
    pub fn to_bytes(&self) -> (r: Result<Vec<u8>, Error>)
        ensures
            r matches Ok(v) && v@ == encode_raw(self@),
    {
        let mut out: Vec<u8> = Vec::new();
        let ghost mut piece: Seq<WireField> = Seq::empty();
        assert(out@ =~= fields_bytes(piece));
        let ghost before = piece;
        if self.boss_name.unicode_len() > 0 {
            write_bytes_field(&mut out, 1, self.boss_name.as_str().as_bytes());
        }
        proof {
            piece = piece + text_field(1, self.boss_name@);
            lemma_fields_bytes_one_or_none(before, text_field(1, self.boss_name@));
        }
        assert(out@ =~= fields_bytes(piece));
        let ghost before = piece;
        if self.level != 0 {
            write_number_field(&mut out, 2, i32_on_wire_exec(self.level));
        }
        proof {
            lemma_i32_round_trip(self.level);
            piece = piece + number_field(2, i32_on_wire(self.level));
            lemma_fields_bytes_one_or_none(before, number_field(2, i32_on_wire(self.level)));
        }
        assert(out@ =~= fields_bytes(piece));
        let ghost before = piece;
        if self.image.unicode_len() > 0 {
            write_bytes_field(&mut out, 3, self.image.as_str().as_bytes());
        }
        proof {
            piece = piece + text_field(3, self.image@);
            lemma_fields_bytes_one_or_none(before, text_field(3, self.image@));
        }
        assert(out@ =~= fields_bytes(piece));
        let ghost before = piece;
        if self.language.unicode_len() > 0 {
            write_bytes_field(&mut out, 4, self.language.as_str().as_bytes());
        }
        proof {
            piece = piece + text_field(4, self.language@);
            lemma_fields_bytes_one_or_none(before, text_field(4, self.language@));
        }
        assert(out@ =~= fields_bytes(piece));
        assert(piece =~= raw_fields(self@));
        Ok(out)
    }

    /// The record that bytes hold, if they are a well-formed run of fields
    /// whose known tags have the right kind and whose texts are UTF-8.
    pub fn decode(b: &[u8]) -> (r: Option<RaidBossRaw>)
        ensures
            match r {
                Some(x) => decode_raw(b@) == Some(x@),
                None => decode_raw(b@) is None,
            },
    {
        let fs = match read_all_fields(b) {
            Some(fs) => fs,
            None => return None,
        };
        let ghost views = views_in(fs@, b@);
        let mut r = RaidBossRaw::new();
        assert(r.boss_name@ =~= Seq::<char>::empty());
        assert(r.image@ =~= Seq::<char>::empty());
        assert(r.language@ =~= Seq::<char>::empty());
        assert(r@ == empty_raw());
        assert(views.skip(0) =~= views);
        let mut i: usize = 0;
        while i < fs.len()
            invariant
                i <= fs@.len(),
                views == views_in(fs@, b@),
                read_fields(b@) == Some(views),
                forall|j: int| 0 <= j < fs@.len() ==> (#[trigger] fs@[j]).kind == 2 ==> fs@[j].start <= fs@[j].end <= b@.len(),
                fold_raw(Some(empty_raw()), views) == fold_raw(Some(r@), views.skip(i as int)),
            decreases fs@.len() - i,
        {
            let ghost before = r@;
            let ok = apply_raw_exec(&mut r, &fs[i], b);
            proof {
                assert(views.skip(i as int)[0] == fs@[i as int].view_in(b@));
                assert(views.skip(i as int).drop_first() =~= views.skip(i + 1));
            }
            if !ok {
                proof {
                    lemma_fold_raw_none(views.skip(i + 1));
                }
                return None;
            }
            i = i + 1;
        }
        assert(views.skip(i as int) =~= Seq::<WireField>::empty());
        Some(r)
    }
}

/// The fields of a RaidTweet record, in tag order, defaults left out.
pub open spec fn tweet_fields(r: RaidTweetView) -> Seq<WireField> {
    number_field(1, r.tweet_id as nat) + text_field(2, r.screen_name) + text_field(3, r.boss_name) + text_field(4, r.raid_id) + text_field(5, r.text) + number_field(6, r.created as nat) + text_field(7, r.language) + text_field(8, r.profile_image)
}

/// The bytes of a RaidTweet record.
pub open spec fn encode_tweet(r: RaidTweetView) -> Seq<u8> {
    fields_bytes(tweet_fields(r))
}

/// The value of an empty RaidTweet record.
pub open spec fn empty_tweet() -> RaidTweetView {
    RaidTweetView { tweet_id: 0, screen_name: Seq::empty(), boss_name: Seq::empty(), raid_id: Seq::empty(), text: Seq::empty(), created: 0, language: Seq::empty(), profile_image: Seq::empty() }
}

/// One field read into a RaidTweet record: a known tag of the wrong kind, or
/// text that is not UTF-8, fails; an unknown tag is passed over.
pub open spec fn apply_tweet(acc: Option<RaidTweetView>, f: WireField) -> Option<RaidTweetView> {
    match acc {
        None => None,
        Some(r) => {
        if f.tag == 1 {
            match f.value {
                WireValue::Varint(v) => if v <= u64::MAX {
                    Some(RaidTweetView { tweet_id: v as u64, ..r })
                } else {
                    None
                },
                _ => None,
            }
        } else if f.tag == 2 {
            match f.value {
                WireValue::Bytes(b) => if valid_utf8(b) {
                    Some(RaidTweetView { screen_name: decode_utf8(b), ..r })
                } else {
                    None
                },
                _ => None,
            }
        } else if f.tag == 3 {
            match f.value {
                WireValue::Bytes(b) => if valid_utf8(b) {
                    Some(RaidTweetView { boss_name: decode_utf8(b), ..r })
                } else {
                    None
                },
                _ => None,
            }
        } else if f.tag == 4 {
            match f.value {
                WireValue::Bytes(b) => if valid_utf8(b) {
                    Some(RaidTweetView { raid_id: decode_utf8(b), ..r })
                } else {
                    None
                },
                _ => None,
            }
        } else if f.tag == 5 {
            match f.value {
                WireValue::Bytes(b) => if valid_utf8(b) {
                    Some(RaidTweetView { text: decode_utf8(b), ..r })
                } else {
                    None
                },
                _ => None,
            }
        } else if f.tag == 6 {
            match f.value {
                WireValue::Varint(v) => if v <= u64::MAX {
                    Some(RaidTweetView { created: v as u64, ..r })
                } else {
                    None
                },
                _ => None,
            }
        } else if f.tag == 7 {
            match f.value {
                WireValue::Bytes(b) => if valid_utf8(b) {
                    Some(RaidTweetView { language: decode_utf8(b), ..r })
                } else {
                    None
                },
                _ => None,
            }
        } else if f.tag == 8 {
            match f.value {
                WireValue::Bytes(b) => if valid_utf8(b) {
                    Some(RaidTweetView { profile_image: decode_utf8(b), ..r })
                } else {
                    None
                },
                _ => None,
            }
            } else {
                Some(r)
            }
        },
    }
}

pub open spec fn fold_tweet(acc: Option<RaidTweetView>, fs: Seq<WireField>) -> Option<RaidTweetView>
    decreases fs.len(),
{
    if fs.len() == 0 {
        acc
    } else {
        fold_tweet(apply_tweet(acc, fs[0]), fs.drop_first())
    }
}

/// What decoding bytes gives: the fields read in order onto an empty record.
pub open spec fn decode_tweet(b: Seq<u8>) -> Option<RaidTweetView> {
    match read_fields(b) {
        None => None,
        Some(fs) => fold_tweet(Some(empty_tweet()), fs),
    }
}

proof fn lemma_fold_tweet_concat(acc: Option<RaidTweetView>, a: Seq<WireField>, b: Seq<WireField>)
    ensures
        fold_tweet(acc, a + b) == fold_tweet(fold_tweet(acc, a), b),
    decreases a.len(),
{
    if a.len() == 0 {
        assert(a + b =~= b);
    } else {
        assert((a + b).drop_first() =~= a.drop_first() + b);
        lemma_fold_tweet_concat(apply_tweet(acc, a[0]), a.drop_first(), b);
    }
}

proof fn lemma_fold_tweet_none(fs: Seq<WireField>)
    ensures
        fold_tweet(None, fs) is None,
    decreases fs.len(),
{
    if fs.len() > 0 {
        lemma_fold_tweet_none(fs.drop_first());
    }
}

/// Decoding the bytes of a RaidTweet record gives the record back.
pub proof fn law_tweet_round_trip(r: RaidTweetView)
    requires
        encode_utf8(r.screen_name).len() <= u64::MAX,
        encode_utf8(r.boss_name).len() <= u64::MAX,
        encode_utf8(r.raid_id).len() <= u64::MAX,
        encode_utf8(r.text).len() <= u64::MAX,
        encode_utf8(r.language).len() <= u64::MAX,
        encode_utf8(r.profile_image).len() <= u64::MAX,
    ensures
        decode_tweet(encode_tweet(r)) == Some(r),
{
    reveal_with_fuel(fold_tweet, 3);
    let e = empty_tweet();
    let fs = tweet_fields(r);
    assert(r.screen_name.len() == 0 ==> r.screen_name =~= Seq::<char>::empty());
    assert(r.boss_name.len() == 0 ==> r.boss_name =~= Seq::<char>::empty());
    assert(r.raid_id.len() == 0 ==> r.raid_id =~= Seq::<char>::empty());
    assert(r.text.len() == 0 ==> r.text =~= Seq::<char>::empty());
    assert(r.language.len() == 0 ==> r.language =~= Seq::<char>::empty());
    assert(r.profile_image.len() == 0 ==> r.profile_image =~= Seq::<char>::empty());
    let mut prefix: Seq<WireField> = Seq::empty();
    assert(all_writable(prefix));
    let mut v: RaidTweetView = e;
    lemma_fold_tweet_concat(Some(e), prefix, number_field(1, r.tweet_id as nat));
    lemma_all_writable_concat(prefix, number_field(1, r.tweet_id as nat));
    prefix = prefix + number_field(1, r.tweet_id as nat);
    v = RaidTweetView { tweet_id: r.tweet_id, ..v };
    assert(fold_tweet(Some(e), prefix) == Some(v));
    lemma_fold_tweet_concat(Some(e), prefix, text_field(2, r.screen_name));
    lemma_all_writable_concat(prefix, text_field(2, r.screen_name));
    prefix = prefix + text_field(2, r.screen_name);
    v = RaidTweetView { screen_name: r.screen_name, ..v };
    assert(fold_tweet(Some(e), prefix) == Some(v));
    lemma_fold_tweet_concat(Some(e), prefix, text_field(3, r.boss_name));
    lemma_all_writable_concat(prefix, text_field(3, r.boss_name));
    prefix = prefix + text_field(3, r.boss_name);
    v = RaidTweetView { boss_name: r.boss_name, ..v };
    assert(fold_tweet(Some(e), prefix) == Some(v));
    lemma_fold_tweet_concat(Some(e), prefix, text_field(4, r.raid_id));
    lemma_all_writable_concat(prefix, text_field(4, r.raid_id));
    prefix = prefix + text_field(4, r.raid_id);
    v = RaidTweetView { raid_id: r.raid_id, ..v };
    assert(fold_tweet(Some(e), prefix) == Some(v));
    lemma_fold_tweet_concat(Some(e), prefix, text_field(5, r.text));
    lemma_all_writable_concat(prefix, text_field(5, r.text));
    prefix = prefix + text_field(5, r.text);
    v = RaidTweetView { text: r.text, ..v };
    assert(fold_tweet(Some(e), prefix) == Some(v));
    lemma_fold_tweet_concat(Some(e), prefix, number_field(6, r.created as nat));
    lemma_all_writable_concat(prefix, number_field(6, r.created as nat));
    prefix = prefix + number_field(6, r.created as nat);
    v = RaidTweetView { created: r.created, ..v };
    assert(fold_tweet(Some(e), prefix) == Some(v));
    lemma_fold_tweet_concat(Some(e), prefix, text_field(7, r.language));
    lemma_all_writable_concat(prefix, text_field(7, r.language));
    prefix = prefix + text_field(7, r.language);
    v = RaidTweetView { language: r.language, ..v };
    assert(fold_tweet(Some(e), prefix) == Some(v));
    lemma_fold_tweet_concat(Some(e), prefix, text_field(8, r.profile_image));
    lemma_all_writable_concat(prefix, text_field(8, r.profile_image));
    prefix = prefix + text_field(8, r.profile_image);
    v = RaidTweetView { profile_image: r.profile_image, ..v };
    assert(fold_tweet(Some(e), prefix) == Some(v));
    assert(prefix =~= fs);
    assert(v == r);
    assert(all_writable(fs));
    lemma_fields_round_trip(fs);
}


/// Reads one field into a record; `false` where the field does not fit it.
fn apply_tweet_exec(r: &mut RaidTweet, f: &RawField, b: &[u8]) -> (ok: bool)
    requires
        f.kind == 2 ==> f.start <= f.end <= b@.len(),
    ensures
        ok ==> apply_tweet(Some(old(r)@), f.view_in(b@)) == Some(final(r)@),
        !ok ==> apply_tweet(Some(old(r)@), f.view_in(b@)) is None,
{
    if f.tag == 1 {
        if f.kind != 0 {
            return false;
        }
        r.tweet_id = f.number;
        true
    } else if f.tag == 2 {
        if f.kind != 2 {
            return false;
        }
        match text_at(b, f.start, f.end) {
            Some(s) => {
                r.screen_name = s;
                true
            },
            None => false,
        }
    } else if f.tag == 3 {
        if f.kind != 2 {
            return false;
        }
        match text_at(b, f.start, f.end) {
            Some(s) => {
                r.boss_name = s;
                true
            },
            None => false,
        }
    } else if f.tag == 4 {
        if f.kind != 2 {
            return false;
        }
        match text_at(b, f.start, f.end) {
            Some(s) => {
                r.raid_id = s;
                true
            },
            None => false,
        }
    } else if f.tag == 5 {
        if f.kind != 2 {
            return false;
        }
        match text_at(b, f.start, f.end) {
            Some(s) => {
                r.text = s;
                true
            },
            None => false,
        }
    } else if f.tag == 6 {
        if f.kind != 0 {
            return false;
        }
        r.created = f.number;
        true
    } else if f.tag == 7 {
        if f.kind != 2 {
            return false;
        }
        match text_at(b, f.start, f.end) {
            Some(s) => {
                r.language = s;
                true
            },
            None => false,
        }
    } else if f.tag == 8 {
        if f.kind != 2 {
            return false;
        }
        match text_at(b, f.start, f.end) {
            Some(s) => {
                r.profile_image = s;
                true
            },
            None => false,
        }
    } else {
        true
    }
}

impl RaidTweet {
    /// The record's bytes: its non-default fields in tag order.
    pub fn to_bytes(&self) -> (r: Result<Vec<u8>, Error>)
        ensures
            r matches Ok(v) && v@ == encode_tweet(self@),
    {
        let mut out: Vec<u8> = Vec::new();
        let ghost mut piece: Seq<WireField> = Seq::empty();
        assert(out@ =~= fields_bytes(piece));
        let ghost before = piece;
        if self.tweet_id != 0 {
            write_number_field(&mut out, 1, self.tweet_id);
        }
        proof {
            piece = piece + number_field(1, self.tweet_id as nat);
            lemma_fields_bytes_one_or_none(before, number_field(1, self.tweet_id as nat));
        }
        assert(out@ =~= fields_bytes(piece));
        let ghost before = piece;
        if self.screen_name.unicode_len() > 0 {
            write_bytes_field(&mut out, 2, self.screen_name.as_str().as_bytes());
        }
        proof {
            piece = piece + text_field(2, self.screen_name@);
            lemma_fields_bytes_one_or_none(before, text_field(2, self.screen_name@));
        }
        assert(out@ =~= fields_bytes(piece));
        let ghost before = piece;
        if self.boss_name.unicode_len() > 0 {
            write_bytes_field(&mut out, 3, self.boss_name.as_str().as_bytes());
        }
        proof {
            piece = piece + text_field(3, self.boss_name@);
            lemma_fields_bytes_one_or_none(before, text_field(3, self.boss_name@));
        }
        assert(out@ =~= fields_bytes(piece));
        let ghost before = piece;
        if self.raid_id.unicode_len() > 0 {
            write_bytes_field(&mut out, 4, self.raid_id.as_str().as_bytes());
        }
        proof {
            piece = piece + text_field(4, self.raid_id@);
            lemma_fields_bytes_one_or_none(before, text_field(4, self.raid_id@));
        }
        assert(out@ =~= fields_bytes(piece));
        let ghost before = piece;
        if self.text.unicode_len() > 0 {
            write_bytes_field(&mut out, 5, self.text.as_str().as_bytes());
        }
        proof {
            piece = piece + text_field(5, self.text@);
            lemma_fields_bytes_one_or_none(before, text_field(5, self.text@));
        }
        assert(out@ =~= fields_bytes(piece));
        let ghost before = piece;
        if self.created != 0 {
            write_number_field(&mut out, 6, self.created);
        }
        proof {
            piece = piece + number_field(6, self.created as nat);
            lemma_fields_bytes_one_or_none(before, number_field(6, self.created as nat));
        }
        assert(out@ =~= fields_bytes(piece));
        let ghost before = piece;
        if self.language.unicode_len() > 0 {
            write_bytes_field(&mut out, 7, self.language.as_str().as_bytes());
        }
        proof {
            piece = piece + text_field(7, self.language@);
            lemma_fields_bytes_one_or_none(before, text_field(7, self.language@));
        }
        assert(out@ =~= fields_bytes(piece));
        let ghost before = piece;
        if self.profile_image.unicode_len() > 0 {
            write_bytes_field(&mut out, 8, self.profile_image.as_str().as_bytes());
        }
        proof {
            piece = piece + text_field(8, self.profile_image@);
            lemma_fields_bytes_one_or_none(before, text_field(8, self.profile_image@));
        }
        assert(out@ =~= fields_bytes(piece));
        assert(piece =~= tweet_fields(self@));
        Ok(out)
    }

    /// The record that bytes hold, if they are a well-formed run of fields
    /// whose known tags have the right kind and whose texts are UTF-8.
    pub fn decode(b: &[u8]) -> (r: Option<RaidTweet>)
        ensures
            match r {
                Some(x) => decode_tweet(b@) == Some(x@),
                None => decode_tweet(b@) is None,
            },
    {
        let fs = match read_all_fields(b) {
            Some(fs) => fs,
            None => return None,
        };
        let ghost views = views_in(fs@, b@);
        let mut r = RaidTweet::new();
        assert(r.screen_name@ =~= Seq::<char>::empty());
        assert(r.boss_name@ =~= Seq::<char>::empty());
        assert(r.raid_id@ =~= Seq::<char>::empty());
        assert(r.text@ =~= Seq::<char>::empty());
        assert(r.language@ =~= Seq::<char>::empty());
        assert(r.profile_image@ =~= Seq::<char>::empty());
        assert(r@ == empty_tweet());
        assert(views.skip(0) =~= views);
        let mut i: usize = 0;
        while i < fs.len()
            invariant
                i <= fs@.len(),
                views == views_in(fs@, b@),
                read_fields(b@) == Some(views),
                forall|j: int| 0 <= j < fs@.len() ==> (#[trigger] fs@[j]).kind == 2 ==> fs@[j].start <= fs@[j].end <= b@.len(),
                fold_tweet(Some(empty_tweet()), views) == fold_tweet(Some(r@), views.skip(i as int)),
            decreases fs@.len() - i,
        {
            let ghost before = r@;
            let ok = apply_tweet_exec(&mut r, &fs[i], b);
            proof {
                assert(views.skip(i as int)[0] == fs@[i as int].view_in(b@));
                assert(views.skip(i as int).drop_first() =~= views.skip(i + 1));
            }
            if !ok {
                proof {
                    lemma_fold_tweet_none(views.skip(i + 1));
                }
                return None;
            }
            i = i + 1;
        }
        assert(views.skip(i as int) =~= Seq::<WireField>::empty());
        Some(r)
    }
}

} // verus!