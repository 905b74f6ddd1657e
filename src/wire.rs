//! The field-tagged binary layout of records: varints, keys and
//! length-delimited values, as in Protocol Buffers.
use vstd::prelude::*;
use vstd::slice::*;
use vstd::utf8::*;

verus! {

/// The little-endian base-128 encoding of a number.
pub open spec fn varint(v: nat) -> Seq<u8>
    decreases v,
{
    if v < 128 {
        seq![v as u8]
    } else {
        seq![(v % 128 + 128) as u8] + varint(v / 128)
    }
}

/// A varint at the start of `s`, at most `fuel` bytes long and within `u64`:
/// its value and its length.
pub open spec fn read_varint(s: Seq<u8>, fuel: nat) -> Option<(nat, nat)>
    decreases fuel,
{
    if s.len() == 0 || fuel == 0 {
        None
    } else if s[0] < 128 {
        Some((s[0] as nat, 1))
    } else {
        match read_varint(s.skip(1), (fuel - 1) as nat) {
            None => None,
            Some((v, n)) => if (s[0] - 128) + 128 * v <= u64::MAX {
                Some(((s[0] - 128) as nat + 128 * v, n + 1))
            } else {
                None
            },
        }
    }
}

/// The number of bytes a varint of `v` takes.
pub open spec fn varint_len(v: nat) -> nat
    decreases v,
{
    if v < 128 {
        1
    } else {
        1 + varint_len(v / 128)
    }
}

pub proof fn lemma_varint_len(v: nat)
    ensures
        varint(v).len() == varint_len(v),
        1 <= varint_len(v),
        v <= u64::MAX ==> varint_len(v) <= 10,
    decreases v,
{
    if v >= 128 {
        lemma_varint_len(v / 128);
        if v <= u64::MAX {
            lemma_varint_len_bound(v);
        }
    }
}

proof fn lemma_varint_len_bound(v: nat)
    requires
        v <= u64::MAX,
    ensures
        varint_len(v) <= 10,
    decreases v,
{
    if v >= 128 {
        reveal_with_fuel(pow128, 10);
        assert(pow128(9) == 9223372036854775808nat);
        assert(v / 128 <= 144115188075855871) by (nonlinear_arith)
            requires v <= u64::MAX;
        lemma_varint_len_small(v / 128, 9);
    }
}

proof fn lemma_varint_len_small(v: nat, k: nat)
    requires
        1 <= k <= 9,
        v < pow128(k),
    ensures
        varint_len(v) <= k,
    decreases k,
{
    if v >= 128 {
        assert(k > 1) by {
            if k == 1 {
                assert(pow128(1) == 128 * pow128(0));
            }
        }
        assert(v / 128 < pow128((k - 1) as nat)) by (nonlinear_arith)
            requires v < pow128(k), pow128(k) == 128 * pow128((k - 1) as nat), k >= 1;
        lemma_varint_len_small(v / 128, (k - 1) as nat);
    }
}

pub open spec fn pow128(k: nat) -> nat
    decreases k,
{
    if k == 0 {
        1
    } else {
        128 * pow128((k - 1) as nat)
    }
}

/// Reading back a varint gives the number and its length, whatever follows.
pub proof fn lemma_varint_round_trip(v: nat, rest: Seq<u8>, fuel: nat)
    requires
        v <= u64::MAX,
        varint_len(v) <= fuel,
    ensures
        read_varint(varint(v) + rest, fuel) == Some((v, varint_len(v))),
    decreases v,
{
    let s = varint(v) + rest;
    if v >= 128 {
        assert(s.skip(1) =~= varint(v / 128) + rest);
        lemma_varint_round_trip(v / 128, rest, (fuel - 1) as nat);
        assert((v % 128 + 128) as u8 - 128 + 128 * (v / 128) == v) by (nonlinear_arith)
            requires v >= 128;
    }
}

/// A field as read: a number, a run of bytes, or a fixed-width value that is skipped.
pub enum WireValue {
    Varint(nat),
    Bytes(Seq<u8>),
    Fixed,
}

pub struct WireField {
    pub tag: nat,
    pub value: WireValue,
}

/// A field at the start of `s` and its length: a key (tag and wire type),
/// then a varint, a length-prefixed run, or eight or four bytes.
pub open spec fn read_field(s: Seq<u8>) -> Option<(WireField, nat)> {
    match read_varint(s, 10) {
        None => None,
        Some((k, n)) => {
            let tag = k / 8;
            let wt = k % 8;
            if tag == 0 {
                None
            } else if wt == 0 {
                match read_varint(s.skip(n as int), 10) {
                    None => None,
                    Some((v, m)) => Some((WireField { tag, value: WireValue::Varint(v) }, n + m)),
                }
            } else if wt == 2 {
                match read_varint(s.skip(n as int), 10) {
                    None => None,
                    Some((len, m)) => if n + m + len <= s.len() {
                        Some(
                            (
                                WireField {
                                    tag,
                                    value: WireValue::Bytes(s.subrange((n + m) as int, (n + m + len) as int)),
                                },
                                n + m + len,
                            ),
                        )
                    } else {
                        None
                    },
                }
            } else if wt == 1 && n + 8 <= s.len() {
                Some((WireField { tag, value: WireValue::Fixed }, n + 8))
            } else if wt == 5 && n + 4 <= s.len() {
                Some((WireField { tag, value: WireValue::Fixed }, n + 4))
            } else {
                None
            }
        },
    }
}

/// All fields of `s`, in order, if `s` is a well-formed run of fields.
pub open spec fn read_fields(s: Seq<u8>) -> Option<Seq<WireField>>
    decreases s.len(),
{
    if s.len() == 0 {
        Some(Seq::empty())
    } else {
        match read_field(s) {
            None => None,
            Some((f, n)) => if 0 < n <= s.len() {
                match read_fields(s.skip(n as int)) {
                    None => None,
                    Some(rest) => Some(seq![f] + rest),
                }
            } else {
                None
            },
        }
    }
}

/// The bytes of one field.
pub open spec fn field_bytes(f: WireField) -> Seq<u8> {
    match f.value {
        WireValue::Varint(v) => varint(f.tag * 8) + varint(v),
        WireValue::Bytes(b) => varint(f.tag * 8 + 2) + varint(b.len()) + b,
        WireValue::Fixed => Seq::empty(),
    }
}

pub open spec fn fields_bytes(fs: Seq<WireField>) -> Seq<u8>
    decreases fs.len(),
{
    if fs.len() == 0 {
        Seq::empty()
    } else {
        field_bytes(fs[0]) + fields_bytes(fs.drop_first())
    }
}

/// A field this layout can write: a positive tag, values within `u64`.
pub open spec fn writable(f: WireField) -> bool {
    &&& 1 <= f.tag
    &&& f.tag * 8 + 2 <= u64::MAX
    &&& match f.value {
        WireValue::Varint(v) => v <= u64::MAX,
        WireValue::Bytes(b) => b.len() <= u64::MAX,
        WireValue::Fixed => false,
    }
}

proof fn lemma_key_parts(tag: nat, wt: nat)
    requires
        wt < 8,
    ensures
        (tag * 8 + wt) / 8 == tag,
        (tag * 8 + wt) % 8 == wt,
{
    assert((tag * 8 + wt) / 8 == tag && (tag * 8 + wt) % 8 == wt) by (nonlinear_arith)
        requires wt < 8;
}

/// Reading a written field gives it back, whatever follows.
pub proof fn lemma_field_round_trip(f: WireField, rest: Seq<u8>)
    requires
        writable(f),
    ensures
        read_field(field_bytes(f) + rest) == Some((f, field_bytes(f).len())),
{
    let s = field_bytes(f) + rest;
    match f.value {
        WireValue::Varint(v) => {
            let k = f.tag * 8;
            lemma_key_parts(f.tag, 0);
            lemma_varint_len(k);
            lemma_varint_len(v);
            assert(s =~= varint(k) + (varint(v) + rest));
            lemma_varint_round_trip(k, varint(v) + rest, 10);
            let n = varint_len(k);
            assert(s.skip(n as int) =~= varint(v) + rest);
            lemma_varint_round_trip(v, rest, 10);
        },
        WireValue::Bytes(b) => {
            let k = f.tag * 8 + 2;
            lemma_key_parts(f.tag, 2);
            lemma_varint_len(k);
            lemma_varint_len(b.len());
            assert(s =~= varint(k) + (varint(b.len()) + b + rest));
            lemma_varint_round_trip(k, varint(b.len()) + b + rest, 10);
            let n = varint_len(k);
            assert(s.skip(n as int) =~= varint(b.len()) + (b + rest));
            lemma_varint_round_trip(b.len(), b + rest, 10);
            let m = varint_len(b.len());
            assert(s.subrange((n + m) as int, (n + m + b.len()) as int) =~= b);
        },
        WireValue::Fixed => {},
    }
}

/// Reading written fields gives them back.
pub proof fn lemma_fields_round_trip(fs: Seq<WireField>)
    requires
        forall|i: int| 0 <= i < fs.len() ==> writable(#[trigger] fs[i]),
    ensures
        read_fields(fields_bytes(fs)) == Some(fs),
    decreases fs.len(),
{
    if fs.len() > 0 {
        let s = fields_bytes(fs);
        let rest = fields_bytes(fs.drop_first());
        assert(writable(fs[0]));
        lemma_field_round_trip(fs[0], rest);
        let n = field_bytes(fs[0]).len();
        lemma_field_bytes_nonempty(fs[0]);
        assert(s.skip(n as int) =~= rest);
        assert forall|i: int| 0 <= i < fs.drop_first().len() implies writable(#[trigger] fs.drop_first()[i]) by {
            assert(fs.drop_first()[i] == fs[i + 1]);
        }
        lemma_fields_round_trip(fs.drop_first());
        assert(seq![fs[0]] + fs.drop_first() =~= fs);
    } else {
        assert(fields_bytes(fs) =~= Seq::<u8>::empty());
    }
}

proof fn lemma_field_bytes_nonempty(f: WireField)
    requires
        writable(f),
    ensures
        field_bytes(f).len() > 0,
{
    match f.value {
        WireValue::Varint(v) => {
            lemma_varint_len(f.tag * 8);
        },
        WireValue::Bytes(b) => {
            lemma_varint_len(f.tag * 8 + 2);
        },
        WireValue::Fixed => {},
    }
}

/// Appends the varint of `v`.
pub fn write_varint(out: &mut Vec<u8>, v: u64)
    ensures
        final(out)@ == old(out)@ + varint(v as nat),
    decreases v,
{
    if v < 128 {
        out.push(v as u8);
        assert(final(out)@ =~= old(out)@ + varint(v as nat));
    } else {
        out.push((v % 128 + 128) as u8);
        write_varint(out, v / 128);
        assert(final(out)@ =~= old(out)@ + varint(v as nat));
    }
}

/// Reads a varint of at most `fuel` bytes at `pos`: its value and length.
pub fn read_varint_at(b: &[u8], pos: usize, fuel: u8) -> (r: Option<(u64, usize)>)
    requires
        pos <= b@.len(),
        fuel <= 10,
    ensures
        match r {
            Some((v, n)) => read_varint(b@.skip(pos as int), fuel as nat) == Some((v as nat, n as nat)),
            None => read_varint(b@.skip(pos as int), fuel as nat) is None,
        },
        r matches Some((v, n)) ==> 1 <= n <= fuel && pos + n <= b@.len(),
    decreases fuel,
{
    if pos >= b.len() || fuel == 0 {
        return None;
    }
    let c = b[pos];
    assert(b@.skip(pos as int)[0] == c);
    if c < 128 {
        return Some((c as u64, 1));
    }
    assert(b@.skip(pos as int).skip(1) =~= b@.skip(pos + 1));
    match read_varint_at(b, pos + 1, fuel - 1) {
        None => None,
        Some((v, n)) => {
            let d: u64 = (c - 128) as u64;
            if v <= (u64::MAX - d) / 128 {
                assert(d + 128 * v <= u64::MAX) by (nonlinear_arith)
                    requires v <= (u64::MAX - d) / 128, d <= 127;
                Some((d + 128 * v, n + 1))
            } else {
                assert(d + 128 * v > u64::MAX) by (nonlinear_arith)
                    requires v > (u64::MAX - d) / 128, d <= 127;
                None
            }
        },
    }
}

/// A field as read from a buffer: its bytes are `buffer[start..end]` when it
/// is a run of bytes.
pub struct RawField {
    pub tag: u64,
    pub kind: u8,
    pub number: u64,
    pub start: usize,
    pub end: usize,
}

impl RawField {
    pub open spec fn view_in(&self, b: Seq<u8>) -> WireField {
        WireField {
            tag: self.tag as nat,
            value: if self.kind == 0 {
                WireValue::Varint(self.number as nat)
            } else if self.kind == 2 {
                WireValue::Bytes(b.subrange(self.start as int, self.end as int))
            } else {
                WireValue::Fixed
            },
        }
    }
}

/// Reads the field at `pos`: the field and the position after it.
pub fn read_field_at(b: &[u8], pos: usize) -> (r: Option<(RawField, usize)>)
    requires
        pos <= b@.len(),
    ensures
        match r {
            Some((f, next)) => pos < next <= b@.len() && read_field(b@.skip(pos as int)) == Some(
                (f.view_in(b@), (next - pos) as nat),
            ) && (f.kind == 2 ==> pos <= f.start <= f.end <= b@.len()),
            None => read_field(b@.skip(pos as int)) is None,
        },
{
    let ghost s = b@.skip(pos as int);
    let blen = b.len();
    let (k, n) = match read_varint_at(b, pos, 10) {
        Some(x) => x,
        None => return None,
    };
    let tag = k / 8;
    let wt = k % 8;
    if tag == 0 {
        return None;
    }
    let p = pos + n;
    assert(s.skip(n as int) =~= b@.skip(p as int));
    if wt == 0 {
        match read_varint_at(b, p, 10) {
            None => None,
            Some((v, m)) => Some((RawField { tag, kind: 0, number: v, start: 0, end: 0 }, p + m)),
        }
    } else if wt == 2 {
        match read_varint_at(b, p, 10) {
            None => None,
            Some((len, m)) => {
                let q = p + m;
                if len <= (blen - q) as u64 {
                    let e = q + len as usize;
                    assert(s.subrange((n + m) as int, (n + m + len) as int) =~= b@.subrange(q as int, e as int));
                    Some((RawField { tag, kind: 2, number: 0, start: q, end: e }, e))
                } else {
                    None
                }
            },
        }
    } else if wt == 1 && b.len() - p >= 8 {
        Some((RawField { tag, kind: 1, number: 0, start: 0, end: 0 }, p + 8))
    } else if wt == 5 && b.len() - p >= 4 {
        Some((RawField { tag, kind: 5, number: 0, start: 0, end: 0 }, p + 4))
    } else {
        None
    }
}

pub open spec fn views_in(fs: Seq<RawField>, b: Seq<u8>) -> Seq<WireField> {
    fs.map_values(|f: RawField| f.view_in(b))
}

/// Every field of a buffer, if it is a well-formed run of fields.
pub fn read_all_fields(b: &[u8]) -> (r: Option<Vec<RawField>>)
    ensures
        match r {
            Some(fs) => read_fields(b@) == Some(views_in(fs@, b@))
                && forall|i: int| 0 <= i < fs@.len() ==> (#[trigger] fs@[i]).kind == 2 ==> fs@[i].start <= fs@[i].end <= b@.len(),
            None => read_fields(b@) is None,
        },
{
    let mut fs: Vec<RawField> = Vec::new();
    let mut pos: usize = 0;
    assert(b@.skip(0) =~= b@);
    while pos < b.len()
        invariant
            pos <= b@.len(),
            read_fields(b@) == match read_fields(b@.skip(pos as int)) {
                Some(rest) => Some(views_in(fs@, b@) + rest),
                None => None::<Seq<WireField>>,
            },
            forall|i: int| 0 <= i < fs@.len() ==> (#[trigger] fs@[i]).kind == 2 ==> fs@[i].start <= fs@[i].end <= b@.len(),
        decreases b@.len() - pos,
    {
        let ghost s = b@.skip(pos as int);
        match read_field_at(b, pos) {
            None => {
                return None;
            },
            Some((f, next)) => {
                proof {
                    assert(s.skip((next - pos) as int) =~= b@.skip(next as int));
                    let ghost v0 = views_in(fs@, b@);
                    let fv = f.view_in(b@);
                    match read_fields(b@.skip(next as int)) {
                        Some(rest) => {
                            assert(v0 + (seq![fv] + rest) =~= v0.push(fv) + rest);
                        },
                        None => {},
                    }
                }
                let ghost old_fs = fs@;
                fs.push(f);
                proof {
                    old_fs.lemma_push_map_commute(|f: RawField| f.view_in(b@), f);
                }
                pos = next;
            },
        }
    }
    assert(b@.skip(pos as int) =~= Seq::<u8>::empty());
    assert(views_in(fs@, b@) + Seq::<WireField>::empty() =~= views_in(fs@, b@));
    Some(fs)
}

/// Appends a number field (`tag`, wire type 0).
pub fn write_number_field(out: &mut Vec<u8>, tag: u64, v: u64)
    requires
        1 <= tag <= 1000,
    ensures
        final(out)@ == old(out)@ + field_bytes(WireField { tag: tag as nat, value: WireValue::Varint(v as nat) }),
{
    write_varint(out, tag * 8);
    write_varint(out, v);
    assert(final(out)@ =~= old(out)@ + field_bytes(WireField { tag: tag as nat, value: WireValue::Varint(v as nat) }));
}

/// Appends a length-delimited field (`tag`, wire type 2).
pub fn write_bytes_field(out: &mut Vec<u8>, tag: u64, bytes: &[u8])
    requires
        1 <= tag <= 1000,
    ensures
        final(out)@ == old(out)@ + field_bytes(WireField { tag: tag as nat, value: WireValue::Bytes(bytes@) }),
{
    write_varint(out, tag * 8 + 2);
    write_varint(out, bytes.len() as u64);
    let mut i: usize = 0;
    let ghost mid = out@;
    while i < bytes.len()
        invariant
            i <= bytes@.len(),
            out@ == mid + bytes@.subrange(0, i as int),
        decreases bytes@.len() - i,
    {
        out.push(bytes[i]);
        assert(out@ =~= mid + bytes@.subrange(0, i + 1));
        i = i + 1;
    }
    assert(bytes@.subrange(0, i as int) =~= bytes@);
    assert(final(out)@ =~= old(out)@ + field_bytes(WireField { tag: tag as nat, value: WireValue::Bytes(bytes@) }));
}

/// Relies on `std::str::from_utf8`: the text the bytes encode, if they are UTF-8.
#[verifier::external_body]
pub(crate) fn utf8_text(b: &[u8]) -> (r: Option<String>)
    ensures
        r is Some <==> valid_utf8(b@),
        r matches Some(s) ==> s@ == decode_utf8(b@),
{
    std::str::from_utf8(b).ok().map(|s| s.to_string())
}

/// The text held in `b[start..end]`, if those bytes are UTF-8.
pub fn text_at(b: &[u8], start: usize, end: usize) -> (r: Option<String>)
    requires
        start <= end <= b@.len(),
    ensures
        r is Some <==> valid_utf8(b@.subrange(start as int, end as int)),
        r matches Some(s) ==> s@ == decode_utf8(b@.subrange(start as int, end as int)),
{
    utf8_text(slice_subrange(b, start, end))
}

} // verus!
