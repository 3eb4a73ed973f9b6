//! Records: values that are stored as a sequence of fields.
use crate::codec::{
    Field, FieldVal, encodes, fields_view, lemma_fields_canonical, lemma_fields_round_trip,
    read_fields, write_fields,
};
use vstd::prelude::*;

verus! {

/// A caller's identity, held as the bytes of its principal.
pub struct Identity {
    pub bytes: Vec<u8>,
}

impl View for Identity {
    type V = Seq<u8>;

    open spec fn view(&self) -> Seq<u8> {
        self.bytes@
    }
}

pub fn copy_bytes(b: &Vec<u8>) -> (r: Vec<u8>)
    ensures
        r@ == b@,
{
    let mut r: Vec<u8> = Vec::new();
    let mut i: usize = 0;
    while i < b.len()
        invariant
            i <= b@.len(),
            r@ == b@.take(i as int),
        decreases b@.len() - i,
    {
        r.push(b[i]);
        assert(b@.take(i + 1) =~= b@.take(i as int).push(b@[i as int]));
        i += 1;
    }
    assert(b@.take(i as int) =~= b@);
    r
}

pub fn bytes_equal(a: &Vec<u8>, b: &Vec<u8>) -> (r: bool)
    ensures
        r == (a@ == b@),
{
    if a.len() != b.len() {
        return false;
    }
    let mut i: usize = 0;
    while i < a.len()
        invariant
            a@.len() == b@.len(),
            i <= a@.len(),
            a@.take(i as int) == b@.take(i as int),
        decreases a@.len() - i,
    {
        if a[i] != b[i] {
            return false;
        }
        assert(a@.take(i + 1) =~= a@.take(i as int).push(a@[i as int]));
        assert(b@.take(i + 1) =~= b@.take(i as int).push(b@[i as int]));
        i += 1;
    }
    assert(a@.take(i as int) =~= a@);
    assert(b@.take(i as int) =~= b@);
    true
}

impl Identity {
    pub fn new(bytes: Vec<u8>) -> (r: Identity)
        ensures
            r@ == bytes@,
    {
        Identity { bytes }
    }

    /// An identity with the same bytes.
    pub fn duplicate(&self) -> (r: Identity)
        ensures
            r@ == self@,
    {
        Identity { bytes: copy_bytes(&self.bytes) }
    }

    pub fn same(&self, other: &Identity) -> (r: bool)
        ensures
            r == (self@ == other@),
    {
        bytes_equal(&self.bytes, &other.bytes)
    }
}

pub fn copy_texts(ts: &Vec<String>) -> (r: Vec<String>)
    ensures
        r.deep_view() == ts.deep_view(),
{
    let mut r: Vec<String> = Vec::new();
    let mut i: usize = 0;
    while i < ts.len()
        invariant
            i <= ts@.len(),
            r.deep_view() == ts.deep_view().take(i as int),
        decreases ts@.len() - i,
    {
        let ghost before = r.deep_view();
        r.push(ts[i].clone());
        assert(r.deep_view() =~= before.push(ts[i as int]@));
        assert(ts.deep_view().take(i + 1) =~= ts.deep_view().take(i as int).push(ts[i as int]@));
        i += 1;
    }
    assert(ts.deep_view().take(i as int) =~= ts.deep_view());
    r
}

pub fn copy_pairs(ps: &Vec<(String, String)>) -> (r: Vec<(String, String)>)
    ensures
        r.deep_view() == ps.deep_view(),
{
    let mut r: Vec<(String, String)> = Vec::new();
    let mut i: usize = 0;
    while i < ps.len()
        invariant
            i <= ps@.len(),
            r.deep_view() == ps.deep_view().take(i as int),
        decreases ps@.len() - i,
    {
        let ghost before = r.deep_view();
        let a = ps[i].0.clone();
        let b = ps[i].1.clone();
        r.push((a, b));
        assert(r.deep_view() =~= before.push(ps.deep_view()[i as int]));
        assert(ps.deep_view().take(i + 1) =~= ps.deep_view().take(i as int).push(
            ps.deep_view()[i as int],
        ));
        i += 1;
    }
    assert(ps.deep_view().take(i as int) =~= ps.deep_view());
    r
}

// ---------------------------------------------------------------------------
// How the fields of a record are written
// ---------------------------------------------------------------------------

/// Each name appears at most once in a list of (name, value) pairs: such a
/// list stands for a map from names to values.
pub open spec fn names_unique(ps: Seq<(Seq<char>, Seq<char>)>) -> bool {
    forall|i: int, j: int| 0 <= i < j < ps.len() ==> #[trigger] ps[i].0 != #[trigger] ps[j].0
}

/// An optional list of pairs names each name at most once.
pub open spec fn opt_names_unique(o: Option<Vec<(String, String)>>) -> bool {
    match o {
        Some(ps) => names_unique(ps.deep_view()),
        None => true,
    }
}

pub open spec fn flag(b: bool) -> Field {
    Field::Nat(if b { 1 } else { 0 })
}

pub open spec fn opt_text(o: Option<String>) -> Field {
    match o {
        Some(s) => Field::Text(s@),
        None => Field::Absent,
    }
}

pub open spec fn opt_nat(o: Option<u64>) -> Field {
    match o {
        Some(n) => Field::Nat(n),
        None => Field::Absent,
    }
}

pub open spec fn opt_pairs(o: Option<Vec<(String, String)>>) -> Field {
    match o {
        Some(ps) => Field::Pairs(ps.deep_view()),
        None => Field::Absent,
    }
}

pub fn opt_text_val(o: &Option<String>) -> (r: FieldVal)
    ensures
        r@ == opt_text(*o),
{
    match o {
        Some(s) => FieldVal::Text(s.clone()),
        None => FieldVal::Absent,
    }
}

pub fn opt_nat_val(o: Option<u64>) -> (r: FieldVal)
    ensures
        r@ == opt_nat(o),
{
    match o {
        Some(n) => FieldVal::Nat(n),
        None => FieldVal::Absent,
    }
}

pub fn opt_pairs_val(o: &Option<Vec<(String, String)>>) -> (r: FieldVal)
    ensures
        r@ == opt_pairs(*o),
{
    match o {
        Some(ps) => FieldVal::Pairs(copy_pairs(ps)),
        None => FieldVal::Absent,
    }
}

pub fn flag_val(b: bool) -> (r: FieldVal)
    ensures
        r@ == flag(b),
{
    FieldVal::Nat(if b { 1 } else { 0 })
}

// ---------------------------------------------------------------------------
// How the fields of a record are read back
// ---------------------------------------------------------------------------

pub fn nat_at(fs: &Vec<FieldVal>, i: usize) -> (r: Option<u64>)
    requires
        i < fs@.len(),
    ensures
        r == match fs@[i as int]@ {
            Field::Nat(n) => Some(n),
            _ => None,
        },
{
    match &fs[i] {
        FieldVal::Nat(n) => Some(*n),
        _ => None,
    }
}

pub fn u32_at(fs: &Vec<FieldVal>, i: usize) -> (r: Option<u32>)
    requires
        i < fs@.len(),
    ensures
        match fs@[i as int]@ {
            Field::Nat(n) => if n <= u32::MAX {
                r == Some(n as u32)
            } else {
                r is None
            },
            _ => r is None,
        },
{
    match &fs[i] {
        FieldVal::Nat(n) => if *n <= 0xffff_ffffu64 {
            Some(*n as u32)
        } else {
            None
        },
        _ => None,
    }
}

pub fn u8_at(fs: &Vec<FieldVal>, i: usize) -> (r: Option<u8>)
    requires
        i < fs@.len(),
    ensures
        match fs@[i as int]@ {
            Field::Nat(n) => if n <= u8::MAX {
                r == Some(n as u8)
            } else {
                r is None
            },
            _ => r is None,
        },
{
    match &fs[i] {
        FieldVal::Nat(n) => if *n <= 0xffu64 {
            Some(*n as u8)
        } else {
            None
        },
        _ => None,
    }
}

pub fn flag_at(fs: &Vec<FieldVal>, i: usize) -> (r: Option<bool>)
    requires
        i < fs@.len(),
    ensures
        match r {
            Some(b) => fs@[i as int]@ == flag(b),
            None => forall|b: bool| fs@[i as int]@ != flag(b),
        },
{
    match &fs[i] {
        FieldVal::Nat(n) => if *n == 1 {
            Some(true)
        } else if *n == 0 {
            Some(false)
        } else {
            None
        },
        _ => None,
    }
}

pub fn text_at(fs: &Vec<FieldVal>, i: usize) -> (r: Option<String>)
    requires
        i < fs@.len(),
    ensures
        match r {
            Some(s) => fs@[i as int]@ == Field::Text(s@),
            None => !(fs@[i as int]@ is Text),
        },
{
    match &fs[i] {
        FieldVal::Text(s) => Some(s.clone()),
        _ => None,
    }
}

pub fn identity_at(fs: &Vec<FieldVal>, i: usize) -> (r: Option<Identity>)
    requires
        i < fs@.len(),
    ensures
        match r {
            Some(id) => fs@[i as int]@ == Field::Bytes(id@),
            None => !(fs@[i as int]@ is Bytes),
        },
{
    match &fs[i] {
        FieldVal::Bytes(b) => Some(Identity { bytes: copy_bytes(b) }),
        _ => None,
    }
}

pub fn texts_at(fs: &Vec<FieldVal>, i: usize) -> (r: Option<Vec<String>>)
    requires
        i < fs@.len(),
    ensures
        match r {
            Some(ts) => fs@[i as int]@ == Field::Texts(ts.deep_view()),
            None => !(fs@[i as int]@ is Texts),
        },
{
    match &fs[i] {
        FieldVal::Texts(ts) => Some(copy_texts(ts)),
        _ => None,
    }
}

pub fn pairs_at(fs: &Vec<FieldVal>, i: usize) -> (r: Option<Vec<(String, String)>>)
    requires
        i < fs@.len(),
    ensures
        match r {
            Some(ps) => fs@[i as int]@ == Field::Pairs(ps.deep_view()),
            None => !(fs@[i as int]@ is Pairs),
        },
{
    match &fs[i] {
        FieldVal::Pairs(ps) => Some(copy_pairs(ps)),
        _ => None,
    }
}

pub fn opt_text_at(fs: &Vec<FieldVal>, i: usize) -> (r: Option<Option<String>>)
    requires
        i < fs@.len(),
    ensures
        match r {
            Some(o) => fs@[i as int]@ == opt_text(o),
            None => !(fs@[i as int]@ is Text) && !(fs@[i as int]@ is Absent),
        },
{
    match &fs[i] {
        FieldVal::Text(s) => Some(Some(s.clone())),
        FieldVal::Absent => Some(None),
        _ => None,
    }
}

pub fn opt_nat_at(fs: &Vec<FieldVal>, i: usize) -> (r: Option<Option<u64>>)
    requires
        i < fs@.len(),
    ensures
        match r {
            Some(o) => fs@[i as int]@ == opt_nat(o),
            None => !(fs@[i as int]@ is Nat) && !(fs@[i as int]@ is Absent),
        },
{
    match &fs[i] {
        FieldVal::Nat(n) => Some(Some(*n)),
        FieldVal::Absent => Some(None),
        _ => None,
    }
}

pub fn opt_pairs_at(fs: &Vec<FieldVal>, i: usize) -> (r: Option<Option<Vec<(String, String)>>>)
    requires
        i < fs@.len(),
    ensures
        match r {
            Some(o) => fs@[i as int]@ == opt_pairs(o),
            None => !(fs@[i as int]@ is Pairs) && !(fs@[i as int]@ is Absent),
        },
{
    match &fs[i] {
        FieldVal::Pairs(ps) => Some(Some(copy_pairs(ps))),
        FieldVal::Absent => Some(None),
        _ => None,
    }
}

// ---------------------------------------------------------------------------
// Lists of records inside a record
// ---------------------------------------------------------------------------

/// A record with a fixed number of fields, which can stand in a list inside
/// another record.
pub trait Nested: Record {
    spec fn width() -> nat;

    proof fn lemma_width(x: Self)
        ensures
            x.fields().len() == Self::width(),
    ;

    proof fn lemma_width_positive()
        ensures
            Self::width() > 0,
    ;

    fn width_exec() -> (r: usize)
        ensures
            r == Self::width(),
    ;
}

/// The fields of `items`, one item after another.
pub open spec fn flatten<N: Record>(items: Seq<N>) -> Seq<Field>
    decreases items.len(),
{
    if items.len() == 0 {
        Seq::empty()
    } else {
        flatten(items.drop_last()) + items.last().fields()
    }
}

/// How a list of records stands inside another record: its length, then the
/// fields of its items.
pub open spec fn nested_list<N: Record>(items: Seq<N>) -> Seq<Field> {
    seq![Field::Nat(items.len() as u64)] + flatten(items)
}

proof fn lemma_flatten_len<N: Nested>(items: Seq<N>)
    ensures
        flatten(items).len() == items.len() * N::width(),
    decreases items.len(),
{
    if items.len() > 0 {
        lemma_flatten_len(items.drop_last());
        N::lemma_width(items.last());
        let n = items.len() as int;
        let w = N::width() as int;
        assert((n - 1) * w + w == n * w) by (nonlinear_arith);
    }
}

proof fn lemma_nested_shape<N: Nested>(v: Seq<N>)
    ensures
        nested_list(v).len() == 1 + v.len() * N::width(),
        v.len() <= v.len() * N::width(),
        nested_list(v)[0] == Field::Nat(v.len() as u64),
        flatten(v) == nested_list(v).skip(1),
{
    lemma_flatten_len(v);
    N::lemma_width_positive();
    let n = v.len() as int;
    let w = N::width() as int;
    assert(n <= n * w) by (nonlinear_arith)
        requires
            w > 0,
            n >= 0,
    ;
    assert(flatten(v) =~= nested_list(v).skip(1));
}

proof fn lemma_flatten_item<N: Nested>(items: Seq<N>, i: int)
    requires
        0 <= i < items.len(),
    ensures
        i * N::width() + N::width() <= flatten(items).len(),
        flatten(items).subrange(i * N::width(), i * N::width() + N::width()) == items[i].fields(),
    decreases items.len(),
{
    let w = N::width() as int;
    let n = items.len() as int;
    lemma_flatten_len(items);
    lemma_flatten_len(items.drop_last());
    N::lemma_width(items[i]);
    N::lemma_width_positive();
    assert(i * w + w <= n * w) by (nonlinear_arith)
        requires
            0 <= i < n,
            w > 0,
    ;
    if i < n - 1 {
        lemma_flatten_item(items.drop_last(), i);
        assert(i * w + w <= (n - 1) * w) by (nonlinear_arith)
            requires
                0 <= i < n - 1,
                w > 0,
        ;
        assert(flatten(items).subrange(i * w, i * w + w) =~= flatten(items.drop_last()).subrange(
            i * w,
            i * w + w,
        ));
    } else {
        assert((n - 1) * w == i * w);
        assert(flatten(items).subrange(i * w, i * w + w) =~= items.last().fields());
    }
}

/// A copy of a field.
pub fn copy_field(f: &FieldVal) -> (r: FieldVal)
    ensures
        r@ == f@,
{
    match f {
        FieldVal::Nat(n) => FieldVal::Nat(*n),
        FieldVal::Text(s) => FieldVal::Text(s.clone()),
        FieldVal::Bytes(b) => FieldVal::Bytes(copy_bytes(b)),
        FieldVal::Texts(ts) => FieldVal::Texts(copy_texts(ts)),
        FieldVal::Pairs(ps) => FieldVal::Pairs(copy_pairs(ps)),
        FieldVal::Absent => FieldVal::Absent,
    }
}

/// Appends a list of records to the fields of the record that holds it.
pub fn push_nested<N: Nested>(fs: &mut Vec<FieldVal>, items: &Vec<N>)
    ensures
        fields_view(final(fs)@) == fields_view(old(fs)@) + nested_list(items@),
{
    let ghost start = fields_view(fs@);
    fs.push(FieldVal::Nat(items.len() as u64));
    assert(fields_view(fs@) =~= start + seq![Field::Nat(items@.len() as u64)]);
    let mut i: usize = 0;
    while i < items.len()
        invariant
            i <= items@.len(),
            fields_view(fs@) == start + seq![Field::Nat(items@.len() as u64)] + flatten(
                items@.take(i as int),
            ),
        decreases items@.len() - i,
    {
        let ghost before = fields_view(fs@);
        let mut more = items[i].to_fields();
        let ghost added = fields_view(more@);
        fs.append(&mut more);
        proof {
            assert(fields_view(fs@) =~= before + added);
            assert(items@.take(i + 1).drop_last() =~= items@.take(i as int));
            assert(fields_view(fs@) =~= start + seq![Field::Nat(items@.len() as u64)] + flatten(
                items@.take(i + 1),
            ));
        }
        i += 1;
    }
    assert(items@.take(i as int) =~= items@);
}

/// Reads a list of records that stands at `start` and runs to the end of
/// `fs`.
pub fn nested_from<N: Nested>(fs: &Vec<FieldVal>, start: usize) -> (r: Option<Vec<N>>)
    requires
        start < fs@.len(),
    ensures
        match r {
            Some(v) => fields_view(fs@).skip(start as int) == nested_list(v@),
            None => forall|v: Seq<N>| fields_view(fs@).skip(start as int) != #[trigger] nested_list(v),
        },
{
    let ghost fv = fields_view(fs@);
    let ghost tail = fv.skip(start as int);
    let w = N::width_exec();
    proof {
        N::lemma_width_positive();
    }
    let len = fs.len();
    let rest = len - start - 1;
    let n = match nat_at(fs, start) {
        Some(n) => n,
        None => {
            proof {
                assert forall|v: Seq<N>| tail != #[trigger] nested_list(v) by {
                    if tail == nested_list(v) {
                        lemma_nested_shape(v);
                        assert(tail[0] == fv[start as int]);
                    }
                }
            }
            return None;
        },
    };
    if rest % w != 0 || (rest / w) as u64 != n {
        proof {
            assert forall|v: Seq<N>| tail != #[trigger] nested_list(v) by {
                if tail == nested_list(v) {
                    lemma_nested_shape(v);
                    assert(tail[0] == fv[start as int]);
                    let vl = v.len() as int;
                    let wi = w as int;
                    assert(rest == vl * wi);
                    assert(vl == n);
                    vstd::arithmetic::div_mod::lemma_div_by_multiple(vl, wi);
                    vstd::arithmetic::div_mod::lemma_mod_multiples_basic(vl, wi);
                }
            }
        }
        return None;
    }
    let count = rest / w;
    proof {
        assert(count * w == rest) by (nonlinear_arith)
            requires
                rest % w == 0,
                count == rest / w,
                w > 0,
        ;
    }
    let mut items: Vec<N> = Vec::new();
    let mut i: usize = 0;
    while i < count
        invariant
            w == N::width(),
            w > 0,
            count * w == rest,
            rest + start + 1 == fs@.len(),
            len == fs@.len(),
            fv == fields_view(fs@),
            tail == fv.skip(start as int),
            n == count,
            fv[start as int] == Field::Nat(n),
            i <= count,
            items@.len() == i,
            i * w <= rest,
            flatten(items@) == fv.subrange(start + 1, start + 1 + i * w),
        decreases count - i,
    {
        proof {
            assert(i * w + w <= count * w) by (nonlinear_arith)
                requires
                    i < count,
                    w > 0,
            ;
        }
        assert(start + 1 + i * w + w <= fs@.len());
        let iw = i * w;
        let base = (len - rest) + iw;
        let mut sub: Vec<FieldVal> = Vec::new();
        let mut j: usize = 0;
        while j < w
            invariant
                j <= w,
                len == fs@.len(),
                base + w <= len,
                fields_view(sub@) == fields_view(fs@).subrange(base as int, base + j),
            decreases w - j,
        {
            let c = copy_field(&fs[base + j]);
            let ghost before = sub@;
            sub.push(c);
            proof {
                assert(sub@ == before.push(c));
                assert(fields_view(before).len() == j);
                assert forall|k: int| 0 <= k < j + 1 implies #[trigger] fields_view(sub@)[k]
                    == fields_view(fs@).subrange(base as int, base + j + 1)[k] by {
                    assert(fields_view(sub@)[k] == sub@[k]@);
                    assert(fields_view(fs@)[base + k] == fs@[base + k]@);
                    if k < j {
                        assert(sub@[k] == before[k]);
                        assert(fields_view(before)[k] == before[k]@);
                        assert(fields_view(before)[k] == fields_view(fs@).subrange(
                            base as int,
                            base + j,
                        )[k]);
                    }
                }
                assert(fields_view(sub@) =~= fields_view(fs@).subrange(base as int, base + j + 1));
            }
            j += 1;
        }
        let ghost segment = fv.subrange(base as int, base + w);
        match N::from_fields(&sub) {
            Some(x) => {
                let ghost before = items@;
                items.push(x);
                proof {
                    assert(items@.drop_last() =~= before);
                    assert((i + 1) * w == i * w + w) by (nonlinear_arith);
                    assert(flatten(items@) =~= fv.subrange(start + 1, start + 1 + (i + 1) * w));
                }
            },
            None => {
                proof {
                    assert forall|v: Seq<N>| tail != #[trigger] nested_list(v) by {
                        if tail == nested_list(v) {
                            lemma_nested_shape(v);
                            assert(tail[0] == fv[start as int]);
                            let vl = v.len() as int;
                            assert(rest == vl * w);
                            assert(vl * w == count * w);
                            assert(vl == count) by (nonlinear_arith)
                                requires
                                    vl * w == count * w,
                                    w > 0,
                            ;
                            lemma_flatten_item(v, i as int);
                            assert(flatten(v).subrange(i * w, i * w + w) =~= segment);
                            assert(v[i as int].fields() == fields_view(sub@));
                        }
                    }
                }
                return None;
            },
        }
        i += 1;
    }
    proof {
        assert(i * w == rest);
        assert(tail =~= seq![Field::Nat(items@.len() as u64)] + flatten(items@));
    }
    Some(items)
}

// ---------------------------------------------------------------------------
// Records
// ---------------------------------------------------------------------------

/// A value stored as a sequence of fields. `fields` is its model: two
/// records with the same fields are equal in every field.
pub trait Record: Sized {
    spec fn fields(&self) -> Seq<Field>;

    fn to_fields(&self) -> (r: Vec<FieldVal>)
        ensures
            fields_view(r@) == self.fields(),
    ;

    fn from_fields(fs: &Vec<FieldVal>) -> (r: Option<Self>)
        ensures
            match r {
                Some(x) => x.fields() == fields_view(fs@),
                None => forall|x: Self| #[trigger] x.fields() != fields_view(fs@),
            },
    ;
}

/// `b` is the stored form of some record of type `R`.
pub open spec fn is_record<R: Record>(b: Seq<u8>) -> bool {
    exists|x: R| #[trigger] encodes(b, x.fields())
}

/// Encodes a record.
pub fn to_bytes<R: Record>(x: &R) -> (r: Vec<u8>)
    ensures
        encodes(r@, x.fields()),
{
    let fs = x.to_fields();
    write_fields(&fs)
}

/// Decodes a record: the record whose encoding `b` is, if there is one.
pub fn from_bytes<R: Record>(b: &Vec<u8>) -> (r: Option<R>)
    ensures
        match r {
            Some(x) => encodes(b@, x.fields()),
            None => !is_record::<R>(b@),
        },
{
    match read_fields(b) {
        Some(fs) => {
            let r = R::from_fields(&fs);
            proof {
                lemma_fields_canonical(b@);
                if r is None {
                    assert forall|x: R| !encodes(b@, #[trigger] x.fields()) by {
                        if encodes(b@, x.fields()) {
                            lemma_fields_round_trip(x.fields());
                        }
                    }
                }
            }
            r
        },
        None => {
            proof {
                assert forall|x: R| !encodes(b@, #[trigger] x.fields()) by {
                    if encodes(b@, x.fields()) {
                        lemma_fields_round_trip(x.fields());
                    }
                }
            }
            None
        },
    }
}

/// Storing a record and reading it back gives a record equal to it in every
/// field: decoding succeeds on every encoding, and two records with one
/// encoding have the same fields.
pub proof fn lemma_record_round_trip<R: Record>(x: R, b: Seq<u8>)
    requires
        encodes(b, x.fields()),
    ensures
        is_record::<R>(b),
        forall|y: R| encodes(b, #[trigger] y.fields()) ==> y.fields() == x.fields(),
{
    lemma_fields_round_trip(x.fields());
    assert forall|y: R| encodes(b, #[trigger] y.fields()) implies y.fields() == x.fields() by {
        lemma_fields_round_trip(y.fields());
    }
}

} // verus!
