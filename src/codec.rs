//! A self-describing binary encoding of records.
//!
//! A record is a sequence of fields. Each field starts with a one-byte tag
//! naming its shape, followed by its payload. Integers are eight bytes in
//! little-endian order; texts and byte strings carry an eight-byte length
//! followed by their bytes (UTF-8 for texts); lists carry an eight-byte count
//! followed by their elements.
use vstd::bytes::{spec_u64_from_le_bytes, spec_u64_to_le_bytes, u64_from_le_bytes, u64_to_le_bytes};
use vstd::prelude::*;
use vstd::slice::{slice_subrange, slice_to_vec};
use vstd::utf8::{decode_utf8, encode_utf8, valid_utf8};

verus! {

pub const TAG_NAT: u8 = 0;
pub const TAG_TEXT: u8 = 1;
pub const TAG_BYTES: u8 = 2;
pub const TAG_TEXTS: u8 = 3;
pub const TAG_PAIRS: u8 = 4;
pub const TAG_ABSENT: u8 = 5;

/// The mathematical value of one field.
pub enum Field {
    Nat(u64),
    Text(Seq<char>),
    Bytes(Seq<u8>),
    Texts(Seq<Seq<char>>),
    Pairs(Seq<(Seq<char>, Seq<char>)>),
    Absent,
}

/// One field as held in memory.
pub enum FieldVal {
    Nat(u64),
    Text(String),
    Bytes(Vec<u8>),
    Texts(Vec<String>),
    Pairs(Vec<(String, String)>),
    Absent,
}

impl View for FieldVal {
    type V = Field;

    open spec fn view(&self) -> Field {
        match self {
            FieldVal::Nat(n) => Field::Nat(*n),
            FieldVal::Text(s) => Field::Text(s@),
            FieldVal::Bytes(b) => Field::Bytes(b@),
            FieldVal::Texts(ts) => Field::Texts(ts.deep_view()),
            FieldVal::Pairs(ps) => Field::Pairs(ps.deep_view()),
            FieldVal::Absent => Field::Absent,
        }
    }
}

pub open spec fn fields_view(fs: Seq<FieldVal>) -> Seq<Field> {
    fs.map_values(|f: FieldVal| f@)
}

// ---------------------------------------------------------------------------
// Encoding
// ---------------------------------------------------------------------------

pub open spec fn concat_map<A>(s: Seq<A>, f: spec_fn(A) -> Seq<u8>) -> Seq<u8>
    decreases s.len(),
{
    if s.len() == 0 {
        Seq::empty()
    } else {
        f(s[0]) + concat_map(s.drop_first(), f)
    }
}

pub open spec fn enc_u64(n: u64) -> Seq<u8> {
    spec_u64_to_le_bytes(n)
}

pub open spec fn enc_bytes(b: Seq<u8>) -> Seq<u8> {
    enc_u64(b.len() as u64) + b
}

pub open spec fn enc_text(s: Seq<char>) -> Seq<u8> {
    enc_bytes(encode_utf8(s))
}

pub open spec fn enc_pair(p: (Seq<char>, Seq<char>)) -> Seq<u8> {
    enc_text(p.0) + enc_text(p.1)
}

pub open spec fn text_encoder() -> spec_fn(Seq<char>) -> Seq<u8> {
    |t: Seq<char>| enc_text(t)
}

pub open spec fn pair_encoder() -> spec_fn((Seq<char>, Seq<char>)) -> Seq<u8> {
    |p: (Seq<char>, Seq<char>)| enc_pair(p)
}

pub open spec fn enc_field(f: Field) -> Seq<u8> {
    match f {
        Field::Nat(n) => seq![TAG_NAT] + enc_u64(n),
        Field::Text(s) => seq![TAG_TEXT] + enc_text(s),
        Field::Bytes(b) => seq![TAG_BYTES] + enc_bytes(b),
        Field::Texts(ts) => seq![TAG_TEXTS] + enc_u64(ts.len() as u64) + concat_map(
            ts,
            text_encoder(),
        ),
        Field::Pairs(ps) => seq![TAG_PAIRS] + enc_u64(ps.len() as u64) + concat_map(
            ps,
            pair_encoder(),
        ),
        Field::Absent => seq![TAG_ABSENT],
    }
}

pub open spec fn field_encoder() -> spec_fn(Field) -> Seq<u8> {
    |f: Field| enc_field(f)
}

/// The encoding of a whole record.
pub open spec fn enc_fields(fs: Seq<Field>) -> Seq<u8> {
    concat_map(fs, field_encoder())
}

/// Every length that the encoding writes fits in its eight-byte slot.
pub open spec fn text_fits(s: Seq<char>) -> bool {
    encode_utf8(s).len() <= u64::MAX
}

pub open spec fn field_fits(f: Field) -> bool {
    match f {
        Field::Text(s) => text_fits(s),
        Field::Bytes(b) => b.len() <= u64::MAX,
        Field::Texts(ts) => ts.len() <= u64::MAX && forall|i: int|
            0 <= i < ts.len() ==> text_fits(#[trigger] ts[i]),
        Field::Pairs(ps) => ps.len() <= u64::MAX && forall|i: int|
            0 <= i < ps.len() ==> text_fits(#[trigger] ps[i].0) && text_fits(ps[i].1),
        _ => true,
    }
}

pub open spec fn fields_fit(fs: Seq<Field>) -> bool {
    forall|i: int| 0 <= i < fs.len() ==> field_fits(#[trigger] fs[i])
}

/// `b` is the encoding of the record whose fields are `fs`.
pub open spec fn encodes(b: Seq<u8>, fs: Seq<Field>) -> bool {
    fields_fit(fs) && b == enc_fields(fs)
}

// ---------------------------------------------------------------------------
// Parsing
// ---------------------------------------------------------------------------

pub open spec fn parse_u64(s: Seq<u8>) -> Option<(u64, Seq<u8>)> {
    if s.len() >= 8 {
        Some((spec_u64_from_le_bytes(s.take(8)), s.skip(8)))
    } else {
        None
    }
}

pub open spec fn parse_bytes(s: Seq<u8>) -> Option<(Seq<u8>, Seq<u8>)> {
    match parse_u64(s) {
        Some((n, r)) => if n <= r.len() {
            Some((r.take(n as int), r.skip(n as int)))
        } else {
            None
        },
        None => None,
    }
}

pub open spec fn parse_text(s: Seq<u8>) -> Option<(Seq<char>, Seq<u8>)> {
    match parse_bytes(s) {
        Some((b, r)) => if valid_utf8(b) {
            Some((decode_utf8(b), r))
        } else {
            None
        },
        None => None,
    }
}

pub open spec fn parse_texts(k: nat, s: Seq<u8>) -> Option<(Seq<Seq<char>>, Seq<u8>)>
    decreases k,
{
    if k == 0 {
        Some((Seq::empty(), s))
    } else {
        match parse_text(s) {
            Some((t, r)) => match parse_texts((k - 1) as nat, r) {
                Some((ts, r2)) => Some((seq![t] + ts, r2)),
                None => None,
            },
            None => None,
        }
    }
}

pub open spec fn parse_pair(s: Seq<u8>) -> Option<((Seq<char>, Seq<char>), Seq<u8>)> {
    match parse_text(s) {
        Some((a, r)) => match parse_text(r) {
            Some((b, r2)) => Some(((a, b), r2)),
            None => None,
        },
        None => None,
    }
}

pub open spec fn parse_pairs(k: nat, s: Seq<u8>) -> Option<
    (Seq<(Seq<char>, Seq<char>)>, Seq<u8>),
>
    decreases k,
{
    if k == 0 {
        Some((Seq::empty(), s))
    } else {
        match parse_pair(s) {
            Some((p, r)) => match parse_pairs((k - 1) as nat, r) {
                Some((ps, r2)) => Some((seq![p] + ps, r2)),
                None => None,
            },
            None => None,
        }
    }
}

pub open spec fn parse_field(s: Seq<u8>) -> Option<(Field, Seq<u8>)> {
    if s.len() == 0 {
        None
    } else {
        let body = s.skip(1);
        if s[0] == TAG_NAT {
            match parse_u64(body) {
                Some((n, r)) => Some((Field::Nat(n), r)),
                None => None,
            }
        } else if s[0] == TAG_TEXT {
            match parse_text(body) {
                Some((t, r)) => Some((Field::Text(t), r)),
                None => None,
            }
        } else if s[0] == TAG_BYTES {
            match parse_bytes(body) {
                Some((b, r)) => Some((Field::Bytes(b), r)),
                None => None,
            }
        } else if s[0] == TAG_TEXTS {
            match parse_u64(body) {
                Some((k, r)) => match parse_texts(k as nat, r) {
                    Some((ts, r2)) => Some((Field::Texts(ts), r2)),
                    None => None,
                },
                None => None,
            }
        } else if s[0] == TAG_PAIRS {
            match parse_u64(body) {
                Some((k, r)) => match parse_pairs(k as nat, r) {
                    Some((ps, r2)) => Some((Field::Pairs(ps), r2)),
                    None => None,
                },
                None => None,
            }
        } else if s[0] == TAG_ABSENT {
            Some((Field::Absent, body))
        } else {
            None
        }
    }
}

/// Parses a whole record: fields follow one another to the end of the input.
pub open spec fn parse_fields(s: Seq<u8>) -> Option<Seq<Field>>
    decreases s.len(),
{
    if s.len() == 0 {
        Some(Seq::empty())
    } else {
        match parse_field(s) {
            Some((f, r)) => if r.len() < s.len() {
                match parse_fields(r) {
                    Some(fs) => Some(seq![f] + fs),
                    None => None,
                }
            } else {
                None
            },
            None => None,
        }
    }
}


// ---------------------------------------------------------------------------
// Round trip
// ---------------------------------------------------------------------------

pub proof fn lemma_concat_map_push<A>(s: Seq<A>, f: spec_fn(A) -> Seq<u8>, x: A)
    ensures
        concat_map(s.push(x), f) == concat_map(s, f) + f(x),
    decreases s.len(),
{
    if s.len() == 0 {
        assert(s.push(x).drop_first() =~= Seq::<A>::empty());
        assert(concat_map(s.push(x).drop_first(), f) =~= Seq::empty());
        assert(concat_map(s.push(x), f) =~= f(x));
    } else {
        assert(s.push(x).drop_first() =~= s.drop_first().push(x));
        lemma_concat_map_push(s.drop_first(), f, x);
        assert(concat_map(s.push(x), f) =~= concat_map(s, f) + f(x));
    }
}

proof fn lemma_texts_push(ts: Seq<Seq<char>>, t: Seq<char>)
    ensures
        concat_map(ts.push(t), text_encoder()) == concat_map(ts, text_encoder()) + enc_text(t),
{
    lemma_concat_map_push(ts, text_encoder(), t);
}

proof fn lemma_pairs_push(ps: Seq<(Seq<char>, Seq<char>)>, p: (Seq<char>, Seq<char>))
    ensures
        concat_map(ps.push(p), pair_encoder()) == concat_map(ps, pair_encoder()) + enc_pair(p),
{
    lemma_concat_map_push(ps, pair_encoder(), p);
}

proof fn lemma_fields_push(fs: Seq<Field>, f: Field)
    ensures
        enc_fields(fs.push(f)) == enc_fields(fs) + enc_field(f),
{
    lemma_concat_map_push(fs, field_encoder(), f);
}

proof fn lemma_parse_u64(n: u64, rest: Seq<u8>)
    ensures
        parse_u64(enc_u64(n) + rest) == Some((n, rest)),
        enc_u64(n).len() == 8,
{
    vstd::bytes::lemma_auto_spec_u64_to_from_le_bytes();
    let s = enc_u64(n) + rest;
    assert(s.take(8) =~= enc_u64(n));
    assert(s.skip(8) =~= rest);
}

proof fn lemma_parse_bytes(b: Seq<u8>, rest: Seq<u8>)
    requires
        b.len() <= u64::MAX,
    ensures
        parse_bytes(enc_bytes(b) + rest) == Some((b, rest)),
{
    let s = enc_bytes(b) + rest;
    lemma_parse_u64(b.len() as u64, b + rest);
    assert(s =~= enc_u64(b.len() as u64) + (b + rest));
    assert((b + rest).take(b.len() as int) =~= b);
    assert((b + rest).skip(b.len() as int) =~= rest);
}

proof fn lemma_parse_text(t: Seq<char>, rest: Seq<u8>)
    requires
        text_fits(t),
    ensures
        parse_text(enc_text(t) + rest) == Some((t, rest)),
{
    vstd::utf8::encode_utf8_decode_utf8(t);
    vstd::utf8::encode_utf8_valid_utf8(t);
    lemma_parse_bytes(encode_utf8(t), rest);
}

proof fn lemma_parse_texts(ts: Seq<Seq<char>>, rest: Seq<u8>)
    requires
        forall|i: int| 0 <= i < ts.len() ==> text_fits(#[trigger] ts[i]),
    ensures
        parse_texts(ts.len(), concat_map(ts, text_encoder()) + rest) == Some(
            (ts, rest),
        ),
    decreases ts.len(),
{
    let f = text_encoder();
    if ts.len() > 0 {
        let tail = ts.drop_first();
        assert(text_fits(ts[0]));
        lemma_parse_texts(tail, rest);
        let s = concat_map(ts, f) + rest;
        assert(s =~= enc_text(ts[0]) + (concat_map(tail, f) + rest));
        lemma_parse_text(ts[0], concat_map(tail, f) + rest);
        assert(seq![ts[0]] + tail =~= ts);
    } else {
        assert(concat_map(ts, f) + rest =~= rest);
    }
}

proof fn lemma_parse_pair(p: (Seq<char>, Seq<char>), rest: Seq<u8>)
    requires
        text_fits(p.0),
        text_fits(p.1),
    ensures
        parse_pair(enc_pair(p) + rest) == Some((p, rest)),
{
    assert(enc_pair(p) + rest =~= enc_text(p.0) + (enc_text(p.1) + rest));
    lemma_parse_text(p.0, enc_text(p.1) + rest);
    lemma_parse_text(p.1, rest);
}

proof fn lemma_parse_pair_canonical(s: Seq<u8>)
    requires
        parse_pair(s) is Some,
    ensures
        ({
            let (p, r) = parse_pair(s)->0;
            s == enc_pair(p) + r && text_fits(p.0) && text_fits(p.1)
        }),
{
    lemma_parse_text_canonical(s);
    let (a, r0) = parse_text(s)->0;
    lemma_parse_text_canonical(r0);
    let (b, r) = parse_text(r0)->0;
    assert(s =~= enc_pair((a, b)) + r);
}

proof fn lemma_parse_pairs(ps: Seq<(Seq<char>, Seq<char>)>, rest: Seq<u8>)
    requires
        forall|i: int| 0 <= i < ps.len() ==> text_fits(#[trigger] ps[i].0) && text_fits(ps[i].1),
    ensures
        parse_pairs(ps.len(), concat_map(ps, pair_encoder()) + rest)
            == Some((ps, rest)),
    decreases ps.len(),
{
    let f = pair_encoder();
    if ps.len() > 0 {
        let tail = ps.drop_first();
        assert(text_fits(ps[0].0) && text_fits(ps[0].1));
        assert forall|i: int| 0 <= i < tail.len() implies text_fits(#[trigger] tail[i].0)
            && text_fits(tail[i].1) by {
            assert(tail[i] == ps[i + 1]);
            assert(text_fits(ps[i + 1].0) && text_fits(ps[i + 1].1));
        }
        lemma_parse_pairs(tail, rest);
        let r1 = concat_map(tail, f) + rest;
        let s = concat_map(ps, f) + rest;
        assert(s =~= enc_pair(ps[0]) + r1);
        lemma_parse_pair(ps[0], r1);
        assert(seq![ps[0]] + tail =~= ps);
    } else {
        assert(concat_map(ps, f) + rest =~= rest);
    }
}

proof fn lemma_parse_field(f: Field, rest: Seq<u8>)
    requires
        field_fits(f),
    ensures
        parse_field(enc_field(f) + rest) == Some((f, rest)),
        enc_field(f).len() > 0,
{
    let s = enc_field(f) + rest;
    match f {
        Field::Nat(n) => {
            assert(s.skip(1) =~= enc_u64(n) + rest);
            lemma_parse_u64(n, rest);
        },
        Field::Text(t) => {
            assert(s.skip(1) =~= enc_text(t) + rest);
            lemma_parse_text(t, rest);
        },
        Field::Bytes(b) => {
            assert(s.skip(1) =~= enc_bytes(b) + rest);
            lemma_parse_bytes(b, rest);
        },
        Field::Texts(ts) => {
            let body = concat_map(ts, text_encoder()) + rest;
            assert(s.skip(1) =~= enc_u64(ts.len() as u64) + body);
            lemma_parse_u64(ts.len() as u64, body);
            lemma_parse_texts(ts, rest);
        },
        Field::Pairs(ps) => {
            let body = concat_map(ps, pair_encoder()) + rest;
            assert(s.skip(1) =~= enc_u64(ps.len() as u64) + body);
            lemma_parse_u64(ps.len() as u64, body);
            lemma_parse_pairs(ps, rest);
        },
        Field::Absent => {
            assert(s.skip(1) =~= rest);
        },
    }
}

/// Decoding the encoding of a record gives back exactly its fields.
pub proof fn lemma_fields_round_trip(fs: Seq<Field>)
    requires
        fields_fit(fs),
    ensures
        parse_fields(enc_fields(fs)) == Some(fs),
    decreases fs.len(),
{
    let g = field_encoder();
    if fs.len() > 0 {
        let tail = fs.drop_first();
        assert(field_fits(fs[0]));
        assert(fields_fit(tail)) by {
            assert forall|i: int| 0 <= i < tail.len() implies field_fits(#[trigger] tail[i]) by {
                assert(tail[i] == fs[i + 1]);
            }
        }
        lemma_fields_round_trip(tail);
        lemma_parse_field(fs[0], enc_fields(tail));
        assert(enc_fields(fs) == enc_field(fs[0]) + enc_fields(tail));
        assert(seq![fs[0]] + tail =~= fs);
    }
}

proof fn lemma_parse_u64_canonical(s: Seq<u8>)
    requires
        parse_u64(s) is Some,
    ensures
        s == enc_u64((parse_u64(s)->0).0) + (parse_u64(s)->0).1,
{
    vstd::bytes::lemma_auto_spec_u64_to_from_le_bytes();
    assert(spec_u64_to_le_bytes(spec_u64_from_le_bytes(s.take(8))) == s.take(8));
    assert(s =~= s.take(8) + s.skip(8));
}

proof fn lemma_parse_bytes_canonical(s: Seq<u8>)
    requires
        parse_bytes(s) is Some,
    ensures
        s == enc_bytes((parse_bytes(s)->0).0) + (parse_bytes(s)->0).1,
        (parse_bytes(s)->0).0.len() <= u64::MAX,
{
    lemma_parse_u64_canonical(s);
    let (n, r) = parse_u64(s)->0;
    assert(r =~= r.take(n as int) + r.skip(n as int));
    assert(s =~= enc_bytes(r.take(n as int)) + r.skip(n as int));
}

proof fn lemma_parse_text_canonical(s: Seq<u8>)
    requires
        parse_text(s) is Some,
    ensures
        s == enc_text((parse_text(s)->0).0) + (parse_text(s)->0).1,
        text_fits((parse_text(s)->0).0),
{
    vstd::utf8::decode_utf8_encode_utf8((parse_bytes(s)->0).0);
    lemma_parse_bytes_canonical(s);
}

proof fn lemma_parse_texts_canonical(k: nat, s: Seq<u8>)
    requires
        parse_texts(k, s) is Some,
    ensures
        ({
            let (ts, r) = parse_texts(k, s)->0;
            &&& s == concat_map(ts, text_encoder()) + r
            &&& ts.len() == k
            &&& forall|i: int| 0 <= i < ts.len() ==> text_fits(#[trigger] ts[i])
        }),
    decreases k,
{
    let f = text_encoder();
    if k == 0 {
        assert(s =~= concat_map(Seq::<Seq<char>>::empty(), f) + s);
    } else {
        lemma_parse_text_canonical(s);
        let (t, r) = parse_text(s)->0;
        lemma_parse_texts_canonical((k - 1) as nat, r);
        let (ts, r2) = parse_texts((k - 1) as nat, r)->0;
        let all = seq![t] + ts;
        assert(all.drop_first() =~= ts);
        assert(s =~= concat_map(all, f) + r2);
        assert forall|i: int| 0 <= i < all.len() implies text_fits(#[trigger] all[i]) by {
            if i > 0 {
                assert(all[i] == ts[i - 1]);
            }
        }
    }
}

proof fn lemma_parse_pairs_canonical(k: nat, s: Seq<u8>)
    requires
        parse_pairs(k, s) is Some,
    ensures
        ({
            let (ps, r) = parse_pairs(k, s)->0;
            &&& s == concat_map(ps, pair_encoder()) + r
            &&& ps.len() == k
            &&& forall|i: int|
                0 <= i < ps.len() ==> text_fits(#[trigger] ps[i].0) && text_fits(ps[i].1)
        }),
    decreases k,
{
    let f = pair_encoder();
    if k == 0 {
        assert(s =~= concat_map(Seq::<(Seq<char>, Seq<char>)>::empty(), f) + s);
    } else {
        lemma_parse_pair_canonical(s);
        let (p, r) = parse_pair(s)->0;
        lemma_parse_pairs_canonical((k - 1) as nat, r);
        let (ps, r2) = parse_pairs((k - 1) as nat, r)->0;
        let all = seq![p] + ps;
        assert(all.drop_first() =~= ps);
        assert(s =~= concat_map(all, f) + r2);
        assert forall|i: int| 0 <= i < all.len() implies text_fits(#[trigger] all[i].0) && text_fits(
            all[i].1,
        ) by {
            if i > 0 {
                assert(all[i] == ps[i - 1]);
            }
        }
    }
}

proof fn lemma_parse_field_canonical(s: Seq<u8>)
    requires
        parse_field(s) is Some,
    ensures
        s == enc_field((parse_field(s)->0).0) + (parse_field(s)->0).1,
        field_fits((parse_field(s)->0).0),
{
    let body = s.skip(1);
    assert(s =~= seq![s[0]] + body);
    if s[0] == TAG_NAT {
        lemma_parse_u64_canonical(body);
    } else if s[0] == TAG_TEXT {
        lemma_parse_text_canonical(body);
    } else if s[0] == TAG_BYTES {
        lemma_parse_bytes_canonical(body);
    } else if s[0] == TAG_TEXTS {
        lemma_parse_u64_canonical(body);
        let (k, r) = parse_u64(body)->0;
        lemma_parse_texts_canonical(k as nat, r);
    } else if s[0] == TAG_PAIRS {
        lemma_parse_u64_canonical(body);
        let (k, r) = parse_u64(body)->0;
        lemma_parse_pairs_canonical(k as nat, r);
    }
}

/// A record that decodes is the encoding of what it decodes to.
pub proof fn lemma_fields_canonical(s: Seq<u8>)
    requires
        parse_fields(s) is Some,
    ensures
        encodes(s, parse_fields(s)->0),
    decreases s.len(),
{
    let g = field_encoder();
    if s.len() == 0 {
        assert(enc_fields(Seq::empty()) =~= s);
    } else {
        lemma_parse_field_canonical(s);
        let (f, r) = parse_field(s)->0;
        lemma_fields_canonical(r);
        let fs = parse_fields(r)->0;
        let all = seq![f] + fs;
        assert(all.drop_first() =~= fs);
        assert(enc_fields(all) == enc_field(f) + enc_fields(fs));
        assert forall|i: int| 0 <= i < all.len() implies field_fits(#[trigger] all[i]) by {
            if i > 0 {
                assert(all[i] == fs[i - 1]);
            }
        }
    }
}

/// Two records with the same encoding have the same fields.
pub proof fn lemma_encoding_injective(b: Seq<u8>, fs1: Seq<Field>, fs2: Seq<Field>)
    requires
        encodes(b, fs1),
        encodes(b, fs2),
    ensures
        fs1 == fs2,
{
    lemma_fields_round_trip(fs1);
    lemma_fields_round_trip(fs2);
}


// ---------------------------------------------------------------------------
// Executable encoder
// ---------------------------------------------------------------------------

fn write_u64(buf: &mut Vec<u8>, n: u64)
    ensures
        final(buf)@ == old(buf)@ + enc_u64(n),
{
    let mut b = u64_to_le_bytes(n);
    buf.append(&mut b);
}

fn write_bytes(buf: &mut Vec<u8>, b: &[u8])
    ensures
        final(buf)@ == old(buf)@ + enc_bytes(b@),
        b@.len() <= u64::MAX,
{
    let ghost start = buf@;
    write_u64(buf, b.len() as u64);
    let mut i: usize = 0;
    while i < b.len()
        invariant
            i <= b@.len(),
            buf@ == start + enc_u64(b@.len() as u64) + b@.take(i as int),
        decreases b@.len() - i,
    {
        buf.push(b[i]);
        assert(b@.take(i + 1) =~= b@.take(i as int).push(b@[i as int]));
        i += 1;
    }
    assert(b@.take(i as int) =~= b@);
}

fn write_text(buf: &mut Vec<u8>, s: &str)
    ensures
        final(buf)@ == old(buf)@ + enc_text(s@),
        text_fits(s@),
{
    let b = s.as_bytes();
    write_bytes(buf, b);
}

fn write_texts(buf: &mut Vec<u8>, ts: &Vec<String>)
    ensures
        final(buf)@ == old(buf)@ + enc_u64(ts@.len() as u64) + concat_map(
            ts.deep_view(),
            text_encoder(),
        ),
        field_fits(Field::Texts(ts.deep_view())),
{
    let ghost start = buf@;
    write_u64(buf, ts.len() as u64);
    let mut i: usize = 0;
    while i < ts.len()
        invariant
            i <= ts@.len(),
            buf@ == start + enc_u64(ts@.len() as u64) + concat_map(
                ts.deep_view().take(i as int),
                text_encoder(),
            ),
            forall|j: int| 0 <= j < i ==> text_fits(#[trigger] ts.deep_view()[j]),
        decreases ts@.len() - i,
    {
        let ghost mid = buf@;
        write_text(buf, ts[i].as_str());
        proof {
            let t = ts.deep_view()[i as int];
            assert(ts.deep_view().take(i + 1) =~= ts.deep_view().take(i as int).push(t));
            lemma_texts_push(ts.deep_view().take(i as int), t);
            assert(t == ts[i as int]@);
            assert(buf@ == mid + enc_text(t));
            assert(buf@ =~= start + enc_u64(ts@.len() as u64) + concat_map(
                ts.deep_view().take(i + 1),
                text_encoder(),
            ));
        }
        i += 1;
    }
    assert(ts.deep_view().take(i as int) =~= ts.deep_view());
}

fn write_pairs(buf: &mut Vec<u8>, ps: &Vec<(String, String)>)
    ensures
        final(buf)@ == old(buf)@ + enc_u64(ps@.len() as u64) + concat_map(
            ps.deep_view(),
            pair_encoder(),
        ),
        field_fits(Field::Pairs(ps.deep_view())),
{
    let ghost start = buf@;
    write_u64(buf, ps.len() as u64);
    let mut i: usize = 0;
    while i < ps.len()
        invariant
            i <= ps@.len(),
            buf@ == start + enc_u64(ps@.len() as u64) + concat_map(
                ps.deep_view().take(i as int),
                pair_encoder(),
            ),
            forall|j: int|
                0 <= j < i ==> text_fits(#[trigger] ps.deep_view()[j].0) && text_fits(
                    ps.deep_view()[j].1,
                ),
        decreases ps@.len() - i,
    {
        let ghost mid = buf@;
        write_text(buf, ps[i].0.as_str());
        write_text(buf, ps[i].1.as_str());
        proof {
            let p = ps.deep_view()[i as int];
            assert(buf@ == mid + enc_pair(p));
            assert(ps.deep_view().take(i + 1) =~= ps.deep_view().take(i as int).push(p));
            lemma_pairs_push(ps.deep_view().take(i as int), p);
            assert(buf@ =~= start + enc_u64(ps@.len() as u64) + concat_map(
                ps.deep_view().take(i + 1),
                pair_encoder(),
            ));
        }
        i += 1;
    }
    assert(ps.deep_view().take(i as int) =~= ps.deep_view());
}

fn write_field(buf: &mut Vec<u8>, f: &FieldVal)
    ensures
        final(buf)@ == old(buf)@ + enc_field(f@),
        field_fits(f@),
{
    let ghost start = buf@;
    match f {
        FieldVal::Nat(n) => {
            buf.push(TAG_NAT);
            write_u64(buf, *n);
        },
        FieldVal::Text(s) => {
            buf.push(TAG_TEXT);
            write_text(buf, s.as_str());
        },
        FieldVal::Bytes(b) => {
            buf.push(TAG_BYTES);
            write_bytes(buf, b.as_slice());
        },
        FieldVal::Texts(ts) => {
            buf.push(TAG_TEXTS);
            write_texts(buf, ts);
        },
        FieldVal::Pairs(ps) => {
            buf.push(TAG_PAIRS);
            write_pairs(buf, ps);
        },
        FieldVal::Absent => {
            buf.push(TAG_ABSENT);
        },
    }
    assert(buf@ =~= start + enc_field(f@));
}

/// Encodes a record given as its sequence of fields.
pub fn write_fields(fs: &Vec<FieldVal>) -> (r: Vec<u8>)
    ensures
        encodes(r@, fields_view(fs@)),
{
    let ghost fv = fields_view(fs@);
    let mut buf: Vec<u8> = Vec::new();
    let mut i: usize = 0;
    while i < fs.len()
        invariant
            i <= fs@.len(),
            fv == fields_view(fs@),
            buf@ == enc_fields(fv.take(i as int)),
            forall|j: int| 0 <= j < i ==> field_fits(#[trigger] fv[j]),
        decreases fs@.len() - i,
    {
        write_field(&mut buf, &fs[i]);
        proof {
            assert(fv.take(i + 1) =~= fv.take(i as int).push(fs@[i as int]@));
            lemma_fields_push(fv.take(i as int), fs@[i as int]@);
            assert(buf@ =~= enc_fields(fv.take(i + 1)));
        }
        i += 1;
    }
    assert(fv.take(i as int) =~= fv);
    buf
}

// ---------------------------------------------------------------------------
// Executable decoder
// ---------------------------------------------------------------------------

/// Relies on `String::from_utf8`: it accepts exactly the well-formed UTF-8
/// byte strings, and the string it returns holds the characters they encode.
#[verifier::external_body]
fn string_from_utf8(b: Vec<u8>) -> (r: Option<String>)
    ensures
        r is Some <==> valid_utf8(b@),
        r matches Some(s) ==> s@ == decode_utf8(b@),
{
    String::from_utf8(b).ok()
}

fn read_u64(b: &Vec<u8>, pos: usize) -> (r: Option<(u64, usize)>)
    requires
        pos <= b@.len(),
    ensures
        match parse_u64(b@.skip(pos as int)) {
            None => r is None,
            Some((n, rest)) => r matches Some((m, p)) && m == n && pos <= p <= b@.len() && rest
                == b@.skip(p as int),
        },
{
    if b.len() - pos < 8 {
        return None;
    }
    let s = slice_subrange(b.as_slice(), pos, pos + 8);
    let n = u64_from_le_bytes(s);
    assert(s@ =~= b@.skip(pos as int).take(8));
    assert(b@.skip(pos as int).skip(8) =~= b@.skip(pos + 8));
    Some((n, pos + 8))
}

fn read_bytes(b: &Vec<u8>, pos: usize) -> (r: Option<(Vec<u8>, usize)>)
    requires
        pos <= b@.len(),
    ensures
        match parse_bytes(b@.skip(pos as int)) {
            None => r is None,
            Some((v, rest)) => r matches Some((w, p)) && w@ == v && pos <= p <= b@.len() && rest
                == b@.skip(p as int),
        },
{
    let (n, p) = match read_u64(b, pos) {
        Some(x) => x,
        None => {
            return None;
        },
    };
    if n > (b.len() - p) as u64 {
        return None;
    }
    let end = p + n as usize;
    let w = slice_to_vec(slice_subrange(b.as_slice(), p, end));
    assert(w@ =~= b@.skip(p as int).take(n as int));
    assert(b@.skip(p as int).skip(n as int) =~= b@.skip(end as int));
    Some((w, end))
}

fn read_text(b: &Vec<u8>, pos: usize) -> (r: Option<(String, usize)>)
    requires
        pos <= b@.len(),
    ensures
        match parse_text(b@.skip(pos as int)) {
            None => r is None,
            Some((t, rest)) => r matches Some((s, p)) && s@ == t && pos <= p <= b@.len() && rest
                == b@.skip(p as int),
        },
{
    let (w, p) = match read_bytes(b, pos) {
        Some(x) => x,
        None => {
            return None;
        },
    };
    match string_from_utf8(w) {
        Some(s) => Some((s, p)),
        None => None,
    }
}

fn read_texts(b: &Vec<u8>, pos: usize, k: u64) -> (r: Option<(Vec<String>, usize)>)
    requires
        pos <= b@.len(),
    ensures
        match parse_texts(k as nat, b@.skip(pos as int)) {
            None => r is None,
            Some((ts, rest)) => r matches Some((v, p)) && v.deep_view() == ts && pos <= p
                <= b@.len() && rest == b@.skip(p as int),
        },
{
    let mut acc: Vec<String> = Vec::new();
    let mut p = pos;
    let mut i: u64 = 0;
    while i < k
        invariant
            i <= k,
            pos <= p <= b@.len(),
            parse_texts(k as nat, b@.skip(pos as int)) == match parse_texts(
                (k - i) as nat,
                b@.skip(p as int),
            ) {
                Some((ts, rest)) => Some((acc.deep_view() + ts, rest)),
                None => None,
            },
        decreases k - i,
    {
        match read_text(b, p) {
            Some((t, next)) => {
                let ghost before = acc.deep_view();
                acc.push(t);
                proof {
                    assert(acc.deep_view() =~= before.push(t@));
                    match parse_texts((k - i - 1) as nat, b@.skip(next as int)) {
                        Some((ts, rest)) => {
                            assert(before + (seq![t@] + ts) =~= acc.deep_view() + ts);
                        },
                        None => {},
                    }
                }
                p = next;
            },
            None => {
                return None;
            },
        }
        i += 1;
    }
    assert(acc.deep_view() + Seq::<Seq<char>>::empty() =~= acc.deep_view());
    Some((acc, p))
}

fn read_pairs(b: &Vec<u8>, pos: usize, k: u64) -> (r: Option<(Vec<(String, String)>, usize)>)
    requires
        pos <= b@.len(),
    ensures
        match parse_pairs(k as nat, b@.skip(pos as int)) {
            None => r is None,
            Some((ps, rest)) => r matches Some((v, p)) && v.deep_view() == ps && pos <= p
                <= b@.len() && rest == b@.skip(p as int),
        },
{
    let mut acc: Vec<(String, String)> = Vec::new();
    let mut p = pos;
    let mut i: u64 = 0;
    while i < k
        invariant
            i <= k,
            pos <= p <= b@.len(),
            parse_pairs(k as nat, b@.skip(pos as int)) == match parse_pairs(
                (k - i) as nat,
                b@.skip(p as int),
            ) {
                Some((ps, rest)) => Some((acc.deep_view() + ps, rest)),
                None => None,
            },
        decreases k - i,
    {
        let (a, mid) = match read_text(b, p) {
            Some(x) => x,
            None => {
                return None;
            },
        };
        let (c, next) = match read_text(b, mid) {
            Some(x) => x,
            None => {
                return None;
            },
        };
        let ghost before = acc.deep_view();
        acc.push((a, c));
        proof {
            assert(acc.deep_view() =~= before.push((a@, c@)));
            match parse_pairs((k - i - 1) as nat, b@.skip(next as int)) {
                Some((ps, rest)) => {
                    assert(before + (seq![(a@, c@)] + ps) =~= acc.deep_view() + ps);
                },
                None => {},
            }
        }
        p = next;
        i += 1;
    }
    assert(acc.deep_view() + Seq::<(Seq<char>, Seq<char>)>::empty() =~= acc.deep_view());
    Some((acc, p))
}

fn read_field(b: &Vec<u8>, pos: usize) -> (r: Option<(FieldVal, usize)>)
    requires
        pos <= b@.len(),
    ensures
        match parse_field(b@.skip(pos as int)) {
            None => r is None,
            Some((f, rest)) => r matches Some((v, p)) && v@ == f && pos <= p <= b@.len() && rest
                == b@.skip(p as int),
        },
{
    if pos == b.len() {
        return None;
    }
    let tag = b[pos];
    let body = pos + 1;
    assert(b@.skip(pos as int).skip(1) =~= b@.skip(body as int));
    assert(b@.skip(pos as int)[0] == tag);
    if tag == TAG_NAT {
        match read_u64(b, body) {
            Some((n, p)) => Some((FieldVal::Nat(n), p)),
            None => None,
        }
    } else if tag == TAG_TEXT {
        match read_text(b, body) {
            Some((t, p)) => Some((FieldVal::Text(t), p)),
            None => None,
        }
    } else if tag == TAG_BYTES {
        match read_bytes(b, body) {
            Some((w, p)) => Some((FieldVal::Bytes(w), p)),
            None => None,
        }
    } else if tag == TAG_TEXTS {
        match read_u64(b, body) {
            Some((k, p)) => match read_texts(b, p, k) {
                Some((ts, next)) => Some((FieldVal::Texts(ts), next)),
                None => None,
            },
            None => None,
        }
    } else if tag == TAG_PAIRS {
        match read_u64(b, body) {
            Some((k, p)) => match read_pairs(b, p, k) {
                Some((ps, next)) => Some((FieldVal::Pairs(ps), next)),
                None => None,
            },
            None => None,
        }
    } else if tag == TAG_ABSENT {
        Some((FieldVal::Absent, body))
    } else {
        None
    }
}

/// Decodes a record into its sequence of fields.
pub fn read_fields(b: &Vec<u8>) -> (r: Option<Vec<FieldVal>>)
    ensures
        match parse_fields(b@) {
            None => r is None,
            Some(fs) => r matches Some(v) && fields_view(v@) == fs,
        },
{
    let mut acc: Vec<FieldVal> = Vec::new();
    let mut pos: usize = 0;
    assert(b@.skip(0) =~= b@);
    while pos < b.len()
        invariant
            pos <= b@.len(),
            parse_fields(b@) == match parse_fields(b@.skip(pos as int)) {
                Some(fs) => Some(fields_view(acc@) + fs),
                None => None,
            },
        decreases b@.len() - pos,
    {
        match read_field(b, pos) {
            Some((f, p)) => {
                if p <= pos {
                    return None;
                }
                let ghost before = fields_view(acc@);
                acc.push(f);
                proof {
                    assert(fields_view(acc@) =~= before.push(f@));
                    match parse_fields(b@.skip(p as int)) {
                        Some(fs) => {
                            assert(before + (seq![f@] + fs) =~= fields_view(acc@) + fs);
                        },
                        None => {},
                    }
                }
                pos = p;
            },
            None => {
                return None;
            },
        }
    }
    assert(b@.skip(pos as int).len() == 0);
    assert(fields_view(acc@) + Seq::<Field>::empty() =~= fields_view(acc@));
    Some(acc)
}

} // verus!
