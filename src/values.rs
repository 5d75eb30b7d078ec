//! Typed columns and their big-endian byte form.

use crate::bytes::{
    be16, be32, be64, be_bytes_u16, be_bytes_u32, be_bytes_u64, from_be16, from_be32, from_be64,
    lemma_be16_inverse, lemma_be32_inverse, lemma_be64_inverse, push_all, read_be_u16, read_be_u32,
    read_be_u64,
};
use crate::error::CodecError;
use vstd::prelude::*;

verus! {

/// The primitive type of every element of a column.
#[derive(Clone, Copy, Debug, PartialEq, Eq, Structural)]
pub enum TypeTag {
    U8,
    U16,
    U32,
    U64,
    I8,
    I16,
    I32,
    I64,
    F32,
    F64,
}

/// Bytes taken by one element of type `tag`.
pub open spec fn spec_width(tag: TypeTag) -> nat {
    match tag {
        TypeTag::U8 | TypeTag::I8 => 1,
        TypeTag::U16 | TypeTag::I16 => 2,
        TypeTag::U32 | TypeTag::I32 | TypeTag::F32 => 4,
        TypeTag::U64 | TypeTag::I64 | TypeTag::F64 => 8,
    }
}

impl TypeTag {
    /// Bytes taken by one element of this type.
    pub fn width(&self) -> (r: usize)
        ensures
            r == spec_width(*self),
    {
        match self {
            TypeTag::U8 | TypeTag::I8 => 1,
            TypeTag::U16 | TypeTag::I16 => 2,
            TypeTag::U32 | TypeTag::I32 | TypeTag::F32 => 4,
            TypeTag::U64 | TypeTag::I64 | TypeTag::F64 => 8,
        }
    }
}

/// A column of values that all share one type.
///
/// Floating-point columns hold the IEEE-754 bit pattern of each value.
#[derive(Clone, Debug, PartialEq, Eq)]
pub enum Values {
    U8(Vec<u8>),
    U16(Vec<u16>),
    U32(Vec<u32>),
    U64(Vec<u64>),
    I8(Vec<i8>),
    I16(Vec<i16>),
    I32(Vec<i32>),
    I64(Vec<i64>),
    F32(Vec<u32>),
    F64(Vec<u64>),
}

/// The mathematical content of a column.
pub enum ValuesView {
    U8(Seq<u8>),
    U16(Seq<u16>),
    U32(Seq<u32>),
    U64(Seq<u64>),
    I8(Seq<i8>),
    I16(Seq<i16>),
    I32(Seq<i32>),
    I64(Seq<i64>),
    F32(Seq<u32>),
    F64(Seq<u64>),
}

impl View for Values {
    type V = ValuesView;

    open spec fn view(&self) -> ValuesView {
        match self {
            Values::U8(v) => ValuesView::U8(v@),
            Values::U16(v) => ValuesView::U16(v@),
            Values::U32(v) => ValuesView::U32(v@),
            Values::U64(v) => ValuesView::U64(v@),
            Values::I8(v) => ValuesView::I8(v@),
            Values::I16(v) => ValuesView::I16(v@),
            Values::I32(v) => ValuesView::I32(v@),
            Values::I64(v) => ValuesView::I64(v@),
            Values::F32(v) => ValuesView::F32(v@),
            Values::F64(v) => ValuesView::F64(v@),
        }
    }
}

/// The bytes of each element of `s`, one element after another.
pub open spec fn concat_map<T>(s: Seq<T>, f: spec_fn(T) -> Seq<u8>) -> Seq<u8>
    decreases s.len(),
{
    if s.len() == 0 {
        Seq::empty()
    } else {
        concat_map(s.drop_last(), f) + f(s.last())
    }
}

/// `b` cut into pieces of `w` bytes, each read back as one element.
pub open spec fn split_map<T>(b: Seq<u8>, w: nat, g: spec_fn(Seq<u8>) -> T) -> Seq<T>
    decreases b.len(),
{
    if w == 0 || b.len() < w {
        Seq::empty()
    } else {
        split_map(b.take(b.len() - w), w, g).push(g(b.skip(b.len() - w)))
    }
}

pub open spec fn enc_u8() -> spec_fn(u8) -> Seq<u8> {
    |x: u8| seq![x]
}

pub open spec fn dec_u8() -> spec_fn(Seq<u8>) -> u8 {
    |b: Seq<u8>| b[0]
}

pub open spec fn enc_i8() -> spec_fn(i8) -> Seq<u8> {
    |x: i8| seq![x as u8]
}

pub open spec fn dec_i8() -> spec_fn(Seq<u8>) -> i8 {
    |b: Seq<u8>| b[0] as i8
}

pub open spec fn enc_u16() -> spec_fn(u16) -> Seq<u8> {
    |x: u16| be16(x)
}

pub open spec fn dec_u16() -> spec_fn(Seq<u8>) -> u16 {
    |b: Seq<u8>| from_be16(b)
}

pub open spec fn enc_i16() -> spec_fn(i16) -> Seq<u8> {
    |x: i16| be16(x as u16)
}

pub open spec fn dec_i16() -> spec_fn(Seq<u8>) -> i16 {
    |b: Seq<u8>| from_be16(b) as i16
}

pub open spec fn enc_u32() -> spec_fn(u32) -> Seq<u8> {
    |x: u32| be32(x)
}

pub open spec fn dec_u32() -> spec_fn(Seq<u8>) -> u32 {
    |b: Seq<u8>| from_be32(b)
}

pub open spec fn enc_i32() -> spec_fn(i32) -> Seq<u8> {
    |x: i32| be32(x as u32)
}

pub open spec fn dec_i32() -> spec_fn(Seq<u8>) -> i32 {
    |b: Seq<u8>| from_be32(b) as i32
}

pub open spec fn enc_u64() -> spec_fn(u64) -> Seq<u8> {
    |x: u64| be64(x)
}

pub open spec fn dec_u64() -> spec_fn(Seq<u8>) -> u64 {
    |b: Seq<u8>| from_be64(b)
}

pub open spec fn enc_i64() -> spec_fn(i64) -> Seq<u8> {
    |x: i64| be64(x as u64)
}

pub open spec fn dec_i64() -> spec_fn(Seq<u8>) -> i64 {
    |b: Seq<u8>| from_be64(b) as i64
}

impl ValuesView {
    pub open spec fn tag(self) -> TypeTag {
        match self {
            ValuesView::U8(_) => TypeTag::U8,
            ValuesView::U16(_) => TypeTag::U16,
            ValuesView::U32(_) => TypeTag::U32,
            ValuesView::U64(_) => TypeTag::U64,
            ValuesView::I8(_) => TypeTag::I8,
            ValuesView::I16(_) => TypeTag::I16,
            ValuesView::I32(_) => TypeTag::I32,
            ValuesView::I64(_) => TypeTag::I64,
            ValuesView::F32(_) => TypeTag::F32,
            ValuesView::F64(_) => TypeTag::F64,
        }
    }

    /// Number of elements.
    pub open spec fn len(self) -> nat {
        match self {
            ValuesView::U8(s) => s.len(),
            ValuesView::U16(s) => s.len(),
            ValuesView::U32(s) => s.len(),
            ValuesView::U64(s) => s.len(),
            ValuesView::I8(s) => s.len(),
            ValuesView::I16(s) => s.len(),
            ValuesView::I32(s) => s.len(),
            ValuesView::I64(s) => s.len(),
            ValuesView::F32(s) => s.len(),
            ValuesView::F64(s) => s.len(),
        }
    }

    /// The big-endian bytes of the column: each element in order, most
    /// significant byte first, signed values in two's complement.
    pub open spec fn bytes(self) -> Seq<u8> {
        match self {
            ValuesView::U8(s) => concat_map(s, enc_u8()),
            ValuesView::U16(s) => concat_map(s, enc_u16()),
            ValuesView::U32(s) => concat_map(s, enc_u32()),
            ValuesView::U64(s) => concat_map(s, enc_u64()),
            ValuesView::I8(s) => concat_map(s, enc_i8()),
            ValuesView::I16(s) => concat_map(s, enc_i16()),
            ValuesView::I32(s) => concat_map(s, enc_i32()),
            ValuesView::I64(s) => concat_map(s, enc_i64()),
            ValuesView::F32(s) => concat_map(s, enc_u32()),
            ValuesView::F64(s) => concat_map(s, enc_u64()),
        }
    }

    /// `self` followed by `other`; `self` alone where the types differ.
    pub open spec fn concat(self, other: ValuesView) -> ValuesView {
        match (self, other) {
            (ValuesView::U8(a), ValuesView::U8(b)) => ValuesView::U8(a + b),
            (ValuesView::U16(a), ValuesView::U16(b)) => ValuesView::U16(a + b),
            (ValuesView::U32(a), ValuesView::U32(b)) => ValuesView::U32(a + b),
            (ValuesView::U64(a), ValuesView::U64(b)) => ValuesView::U64(a + b),
            (ValuesView::I8(a), ValuesView::I8(b)) => ValuesView::I8(a + b),
            (ValuesView::I16(a), ValuesView::I16(b)) => ValuesView::I16(a + b),
            (ValuesView::I32(a), ValuesView::I32(b)) => ValuesView::I32(a + b),
            (ValuesView::I64(a), ValuesView::I64(b)) => ValuesView::I64(a + b),
            (ValuesView::F32(a), ValuesView::F32(b)) => ValuesView::F32(a + b),
            (ValuesView::F64(a), ValuesView::F64(b)) => ValuesView::F64(a + b),
            _ => self,
        }
    }
}

/// The column of type `tag` whose big-endian bytes are `b`.
pub open spec fn decode_bytes(tag: TypeTag, b: Seq<u8>) -> ValuesView {
    match tag {
        TypeTag::U8 => ValuesView::U8(split_map(b, 1, dec_u8())),
        TypeTag::U16 => ValuesView::U16(split_map(b, 2, dec_u16())),
        TypeTag::U32 => ValuesView::U32(split_map(b, 4, dec_u32())),
        TypeTag::U64 => ValuesView::U64(split_map(b, 8, dec_u64())),
        TypeTag::I8 => ValuesView::I8(split_map(b, 1, dec_i8())),
        TypeTag::I16 => ValuesView::I16(split_map(b, 2, dec_i16())),
        TypeTag::I32 => ValuesView::I32(split_map(b, 4, dec_i32())),
        TypeTag::I64 => ValuesView::I64(split_map(b, 8, dec_i64())),
        TypeTag::F32 => ValuesView::F32(split_map(b, 4, dec_u32())),
        TypeTag::F64 => ValuesView::F64(split_map(b, 8, dec_u64())),
    }
}


pub proof fn lemma_concat_map_step<T>(s: Seq<T>, i: int, f: spec_fn(T) -> Seq<u8>)
    requires
        0 <= i < s.len(),
    ensures
        concat_map(s.take(i + 1), f) == concat_map(s.take(i), f) + f(s[i]),
{
    assert(s.take(i + 1).drop_last() =~= s.take(i));
}

pub proof fn lemma_split_map_step<T>(b: Seq<u8>, w: nat, i: int, g: spec_fn(Seq<u8>) -> T)
    requires
        w > 0,
        0 <= i,
        i * w + w <= b.len(),
    ensures
        split_map(b.take(i * w + w), w, g) == split_map(b.take(i * w), w, g).push(
            g(b.subrange(i * w, i * w + w)),
        ),
{
    let t = b.take(i * w + w);
    assert(t.take(t.len() - w) =~= b.take(i * w));
    assert(t.skip(t.len() - w) =~= b.subrange(i * w, i * w + w));
}

/// Reading back the bytes of a column gives the column, and each element
/// takes `w` bytes.
pub proof fn lemma_split_concat<T>(
    s: Seq<T>,
    w: nat,
    f: spec_fn(T) -> Seq<u8>,
    g: spec_fn(Seq<u8>) -> T,
)
    requires
        w > 0,
        forall|x: T| #[trigger] f(x).len() == w && g(f(x)) == x,
    ensures
        concat_map(s, f).len() == s.len() * w,
        split_map(concat_map(s, f), w, g) == s,
    decreases s.len(),
{
    if s.len() > 0 {
        let s0 = s.drop_last();
        lemma_split_concat(s0, w, f, g);
        let c = concat_map(s0, f);
        let full = c + f(s.last());
        assert(s0.len() * w + w == s.len() * w) by (nonlinear_arith)
            requires
                s0.len() + 1 == s.len(),
        ;
        assert(full.take(full.len() - w) =~= c);
        assert(full.skip(full.len() - w) =~= f(s.last()));
        assert(s0.push(s.last()) =~= s);
    } else {
        assert(split_map(Seq::<u8>::empty(), w, g) =~= s);
    }
}

proof fn lemma_inverse_u8(s: Seq<u8>)
    ensures
        concat_map(s, enc_u8()).len() == s.len() * 1,
        split_map(concat_map(s, enc_u8()), 1, dec_u8()) == s,
{
    let f = enc_u8();
    let g = dec_u8();
    assert forall|x: u8| #[trigger] f(x).len() == 1 && g(f(x)) == x by {
        assert(enc_u8()(x) == seq![x]);
        assert(dec_u8()(seq![x]) == seq![x][0]);
    }
    lemma_split_concat(s, 1, f, g);
}

proof fn lemma_inverse_i8(s: Seq<i8>)
    ensures
        concat_map(s, enc_i8()).len() == s.len() * 1,
        split_map(concat_map(s, enc_i8()), 1, dec_i8()) == s,
{
    let f = enc_i8();
    let g = dec_i8();
    assert forall|x: i8| #[trigger] f(x).len() == 1 && g(f(x)) == x by {
        assert((x as u8) as i8 == x) by (bit_vector);
        assert(enc_i8()(x) == seq![x as u8]);
        assert(dec_i8()(seq![x as u8]) == seq![x as u8][0] as i8);
    }
    lemma_split_concat(s, 1, f, g);
}

proof fn lemma_inverse_u16(s: Seq<u16>)
    ensures
        concat_map(s, enc_u16()).len() == s.len() * 2,
        split_map(concat_map(s, enc_u16()), 2, dec_u16()) == s,
{
    let f = enc_u16();
    let g = dec_u16();
    assert forall|x: u16| #[trigger] f(x).len() == 2 && g(f(x)) == x by {
        lemma_be16_inverse(x);
        assert(enc_u16()(x) == be16(x));
        assert(dec_u16()(be16(x)) == from_be16(be16(x)));
    }
    lemma_split_concat(s, 2, f, g);
}

proof fn lemma_inverse_i16(s: Seq<i16>)
    ensures
        concat_map(s, enc_i16()).len() == s.len() * 2,
        split_map(concat_map(s, enc_i16()), 2, dec_i16()) == s,
{
    let f = enc_i16();
    let g = dec_i16();
    assert forall|x: i16| #[trigger] f(x).len() == 2 && g(f(x)) == x by {
        lemma_be16_inverse(x as u16);
        assert((x as u16) as i16 == x) by (bit_vector);
        assert(enc_i16()(x) == be16(x as u16));
        assert(dec_i16()(be16(x as u16)) == from_be16(be16(x as u16)) as i16);
    }
    lemma_split_concat(s, 2, f, g);
}

proof fn lemma_inverse_u32(s: Seq<u32>)
    ensures
        concat_map(s, enc_u32()).len() == s.len() * 4,
        split_map(concat_map(s, enc_u32()), 4, dec_u32()) == s,
{
    let f = enc_u32();
    let g = dec_u32();
    assert forall|x: u32| #[trigger] f(x).len() == 4 && g(f(x)) == x by {
        lemma_be32_inverse(x);
        assert(enc_u32()(x) == be32(x));
        assert(dec_u32()(be32(x)) == from_be32(be32(x)));
    }
    lemma_split_concat(s, 4, f, g);
}

proof fn lemma_inverse_i32(s: Seq<i32>)
    ensures
        concat_map(s, enc_i32()).len() == s.len() * 4,
        split_map(concat_map(s, enc_i32()), 4, dec_i32()) == s,
{
    let f = enc_i32();
    let g = dec_i32();
    assert forall|x: i32| #[trigger] f(x).len() == 4 && g(f(x)) == x by {
        lemma_be32_inverse(x as u32);
        assert((x as u32) as i32 == x) by (bit_vector);
        assert(enc_i32()(x) == be32(x as u32));
        assert(dec_i32()(be32(x as u32)) == from_be32(be32(x as u32)) as i32);
    }
    lemma_split_concat(s, 4, f, g);
}

proof fn lemma_inverse_u64(s: Seq<u64>)
    ensures
        concat_map(s, enc_u64()).len() == s.len() * 8,
        split_map(concat_map(s, enc_u64()), 8, dec_u64()) == s,
{
    let f = enc_u64();
    let g = dec_u64();
    assert forall|x: u64| #[trigger] f(x).len() == 8 && g(f(x)) == x by {
        lemma_be64_inverse(x);
        assert(enc_u64()(x) == be64(x));
        assert(dec_u64()(be64(x)) == from_be64(be64(x)));
    }
    lemma_split_concat(s, 8, f, g);
}

proof fn lemma_inverse_i64(s: Seq<i64>)
    ensures
        concat_map(s, enc_i64()).len() == s.len() * 8,
        split_map(concat_map(s, enc_i64()), 8, dec_i64()) == s,
{
    let f = enc_i64();
    let g = dec_i64();
    assert forall|x: i64| #[trigger] f(x).len() == 8 && g(f(x)) == x by {
        lemma_be64_inverse(x as u64);
        assert((x as u64) as i64 == x) by (bit_vector);
        assert(enc_i64()(x) == be64(x as u64));
        assert(dec_i64()(be64(x as u64)) == from_be64(be64(x as u64)) as i64);
    }
    lemma_split_concat(s, 8, f, g);
}

/// Marshalling law: reading back the bytes of a column, as its own type,
/// gives the column, and the bytes number the elements times the width.
pub proof fn lemma_marshal_inverse(v: ValuesView)
    ensures
        v.bytes().len() == v.len() * spec_width(v.tag()),
        decode_bytes(v.tag(), v.bytes()) == v,
{
    match v {
        ValuesView::U8(s) => lemma_inverse_u8(s),
        ValuesView::U16(s) => lemma_inverse_u16(s),
        ValuesView::U32(s) => lemma_inverse_u32(s),
        ValuesView::U64(s) => lemma_inverse_u64(s),
        ValuesView::I8(s) => lemma_inverse_i8(s),
        ValuesView::I16(s) => lemma_inverse_i16(s),
        ValuesView::I32(s) => lemma_inverse_i32(s),
        ValuesView::I64(s) => lemma_inverse_i64(s),
        ValuesView::F32(s) => lemma_inverse_u32(s),
        ValuesView::F64(s) => lemma_inverse_u64(s),
    }
}


fn put_u8s(s: &Vec<u8>, out: &mut Vec<u8>)
    ensures
        final(out)@ == old(out)@ + concat_map(s@, enc_u8()),
{
    let ghost start = out@;
    let mut i: usize = 0;
    while i < s.len()
        invariant
            i <= s@.len(),
            out@ == start + concat_map(s@.take(i as int), enc_u8()),
        decreases s@.len() - i,
    {
        out.push(s[i]);
        proof {
            lemma_concat_map_step(s@, i as int, enc_u8());
            assert(enc_u8()(s@[i as int]) == seq![s@[i as int]]);
            assert(start + concat_map(s@.take(i as int), enc_u8()) + enc_u8()(s@[i as int]) =~= out@);
        }
        i += 1;
    }
    assert(s@.take(i as int) =~= s@);
}

fn get_u8s(b: &[u8]) -> (r: Vec<u8>)
    requires
        b@.len() % 1 == 0,
    ensures
        r@ == split_map(b@, 1, dec_u8()),
{
    let len = b.len();
    let n = len / 1;
    let mut r: Vec<u8> = Vec::new();
    let mut i: usize = 0;
    assert(b@.take(0) =~= Seq::<u8>::empty());
    assert(n * 1 == b@.len());
    while i < n
        invariant
            n == b@.len() / 1,
            n * 1 == b@.len(),
            len == b@.len(),
            i <= n,
            r@ == split_map(b@.take(i * 1), 1, dec_u8()),
        decreases n - i,
    {
        let v = b[i];
        proof {
            lemma_split_map_step(b@, 1, i as int, dec_u8());
            assert(b@.subrange(i as int, i + 1)[0] == b@[i as int]);
        }
        r.push(v);
        i += 1;
    }
    assert(b@.take(n * 1) =~= b@);
    r
}

fn put_i8s(s: &Vec<i8>, out: &mut Vec<u8>)
    ensures
        final(out)@ == old(out)@ + concat_map(s@, enc_i8()),
{
    let ghost start = out@;
    let mut i: usize = 0;
    while i < s.len()
        invariant
            i <= s@.len(),
            out@ == start + concat_map(s@.take(i as int), enc_i8()),
        decreases s@.len() - i,
    {
        out.push(#[verifier::truncate] (s[i] as u8));
        proof {
            lemma_concat_map_step(s@, i as int, enc_i8());
            assert(enc_i8()(s@[i as int]) == seq![s@[i as int] as u8]);
            assert(start + concat_map(s@.take(i as int), enc_i8()) + enc_i8()(s@[i as int]) =~= out@);
        }
        i += 1;
    }
    assert(s@.take(i as int) =~= s@);
}

fn get_i8s(b: &[u8]) -> (r: Vec<i8>)
    requires
        b@.len() % 1 == 0,
    ensures
        r@ == split_map(b@, 1, dec_i8()),
{
    let len = b.len();
    let n = len / 1;
    let mut r: Vec<i8> = Vec::new();
    let mut i: usize = 0;
    assert(b@.take(0) =~= Seq::<u8>::empty());
    assert(n * 1 == b@.len());
    while i < n
        invariant
            n == b@.len() / 1,
            n * 1 == b@.len(),
            len == b@.len(),
            i <= n,
            r@ == split_map(b@.take(i * 1), 1, dec_i8()),
        decreases n - i,
    {
        let v = #[verifier::truncate] (b[i] as i8);
        proof {
            lemma_split_map_step(b@, 1, i as int, dec_i8());
            assert(b@.subrange(i as int, i + 1)[0] == b@[i as int]);
        }
        r.push(v);
        i += 1;
    }
    assert(b@.take(n * 1) =~= b@);
    r
}

fn put_u16s(s: &Vec<u16>, out: &mut Vec<u8>)
    ensures
        final(out)@ == old(out)@ + concat_map(s@, enc_u16()),
{
    let ghost start = out@;
    let mut i: usize = 0;
    while i < s.len()
        invariant
            i <= s@.len(),
            out@ == start + concat_map(s@.take(i as int), enc_u16()),
        decreases s@.len() - i,
    {
        let b = be_bytes_u16(s[i]);
        push_all(out, &b);
        proof {
            lemma_concat_map_step(s@, i as int, enc_u16());
            assert(enc_u16()(s@[i as int]) == b@);
        }
        i += 1;
    }
    assert(s@.take(i as int) =~= s@);
}

fn get_u16s(b: &[u8]) -> (r: Vec<u16>)
    requires
        b@.len() % 2 == 0,
    ensures
        r@ == split_map(b@, 2, dec_u16()),
{
    let len = b.len();
    let n = len / 2;
    let mut r: Vec<u16> = Vec::new();
    let mut i: usize = 0;
    assert(b@.take(0) =~= Seq::<u8>::empty());
    assert(n * 2 == b@.len());
    while i < n
        invariant
            n == b@.len() / 2,
            n * 2 == b@.len(),
            len == b@.len(),
            i <= n,
            r@ == split_map(b@.take(i * 2), 2, dec_u16()),
        decreases n - i,
    {
        proof {
            assert(i * 2 + 2 <= n * 2) by (nonlinear_arith)
                requires
                    i < n,
            ;
        }
        let v = read_be_u16(b, i * 2);
        proof {
            lemma_split_map_step(b@, 2, i as int, dec_u16());
            
        }
        r.push(v);
        i += 1;
    }
    assert(b@.take(n * 2) =~= b@);
    r
}

fn put_i16s(s: &Vec<i16>, out: &mut Vec<u8>)
    ensures
        final(out)@ == old(out)@ + concat_map(s@, enc_i16()),
{
    let ghost start = out@;
    let mut i: usize = 0;
    while i < s.len()
        invariant
            i <= s@.len(),
            out@ == start + concat_map(s@.take(i as int), enc_i16()),
        decreases s@.len() - i,
    {
        let b = be_bytes_u16(#[verifier::truncate] (s[i] as u16));
        push_all(out, &b);
        proof {
            lemma_concat_map_step(s@, i as int, enc_i16());
            assert(enc_i16()(s@[i as int]) == b@);
        }
        i += 1;
    }
    assert(s@.take(i as int) =~= s@);
}

fn get_i16s(b: &[u8]) -> (r: Vec<i16>)
    requires
        b@.len() % 2 == 0,
    ensures
        r@ == split_map(b@, 2, dec_i16()),
{
    let len = b.len();
    let n = len / 2;
    let mut r: Vec<i16> = Vec::new();
    let mut i: usize = 0;
    assert(b@.take(0) =~= Seq::<u8>::empty());
    assert(n * 2 == b@.len());
    while i < n
        invariant
            n == b@.len() / 2,
            n * 2 == b@.len(),
            len == b@.len(),
            i <= n,
            r@ == split_map(b@.take(i * 2), 2, dec_i16()),
        decreases n - i,
    {
        proof {
            assert(i * 2 + 2 <= n * 2) by (nonlinear_arith)
                requires
                    i < n,
            ;
        }
        let v = #[verifier::truncate] (read_be_u16(b, i * 2) as i16);
        proof {
            lemma_split_map_step(b@, 2, i as int, dec_i16());
            
        }
        r.push(v);
        i += 1;
    }
    assert(b@.take(n * 2) =~= b@);
    r
}

fn put_u32s(s: &Vec<u32>, out: &mut Vec<u8>)
    ensures
        final(out)@ == old(out)@ + concat_map(s@, enc_u32()),
{
    let ghost start = out@;
    let mut i: usize = 0;
    while i < s.len()
        invariant
            i <= s@.len(),
            out@ == start + concat_map(s@.take(i as int), enc_u32()),
        decreases s@.len() - i,
    {
        let b = be_bytes_u32(s[i]);
        push_all(out, &b);
        proof {
            lemma_concat_map_step(s@, i as int, enc_u32());
            assert(enc_u32()(s@[i as int]) == b@);
        }
        i += 1;
    }
    assert(s@.take(i as int) =~= s@);
}

fn get_u32s(b: &[u8]) -> (r: Vec<u32>)
    requires
        b@.len() % 4 == 0,
    ensures
        r@ == split_map(b@, 4, dec_u32()),
{
    let len = b.len();
    let n = len / 4;
    let mut r: Vec<u32> = Vec::new();
    let mut i: usize = 0;
    assert(b@.take(0) =~= Seq::<u8>::empty());
    assert(n * 4 == b@.len());
    while i < n
        invariant
            n == b@.len() / 4,
            n * 4 == b@.len(),
            len == b@.len(),
            i <= n,
            r@ == split_map(b@.take(i * 4), 4, dec_u32()),
        decreases n - i,
    {
        proof {
            assert(i * 4 + 4 <= n * 4) by (nonlinear_arith)
                requires
                    i < n,
            ;
        }
        let v = read_be_u32(b, i * 4);
        proof {
            lemma_split_map_step(b@, 4, i as int, dec_u32());
            
        }
        r.push(v);
        i += 1;
    }
    assert(b@.take(n * 4) =~= b@);
    r
}

fn put_i32s(s: &Vec<i32>, out: &mut Vec<u8>)
    ensures
        final(out)@ == old(out)@ + concat_map(s@, enc_i32()),
{
    let ghost start = out@;
    let mut i: usize = 0;
    while i < s.len()
        invariant
            i <= s@.len(),
            out@ == start + concat_map(s@.take(i as int), enc_i32()),
        decreases s@.len() - i,
    {
        let b = be_bytes_u32(#[verifier::truncate] (s[i] as u32));
        push_all(out, &b);
        proof {
            lemma_concat_map_step(s@, i as int, enc_i32());
            assert(enc_i32()(s@[i as int]) == b@);
        }
        i += 1;
    }
    assert(s@.take(i as int) =~= s@);
}

fn get_i32s(b: &[u8]) -> (r: Vec<i32>)
    requires
        b@.len() % 4 == 0,
    ensures
        r@ == split_map(b@, 4, dec_i32()),
{
    let len = b.len();
    let n = len / 4;
    let mut r: Vec<i32> = Vec::new();
    let mut i: usize = 0;
    assert(b@.take(0) =~= Seq::<u8>::empty());
    assert(n * 4 == b@.len());
    while i < n
        invariant
            n == b@.len() / 4,
            n * 4 == b@.len(),
            len == b@.len(),
            i <= n,
            r@ == split_map(b@.take(i * 4), 4, dec_i32()),
        decreases n - i,
    {
        proof {
            assert(i * 4 + 4 <= n * 4) by (nonlinear_arith)
                requires
                    i < n,
            ;
        }
        let v = #[verifier::truncate] (read_be_u32(b, i * 4) as i32);
        proof {
            lemma_split_map_step(b@, 4, i as int, dec_i32());
            
        }
        r.push(v);
        i += 1;
    }
    assert(b@.take(n * 4) =~= b@);
    r
}

fn put_u64s(s: &Vec<u64>, out: &mut Vec<u8>)
    ensures
        final(out)@ == old(out)@ + concat_map(s@, enc_u64()),
{
    let ghost start = out@;
    let mut i: usize = 0;
    while i < s.len()
        invariant
            i <= s@.len(),
            out@ == start + concat_map(s@.take(i as int), enc_u64()),
        decreases s@.len() - i,
    {
        let b = be_bytes_u64(s[i]);
        push_all(out, &b);
        proof {
            lemma_concat_map_step(s@, i as int, enc_u64());
            assert(enc_u64()(s@[i as int]) == b@);
        }
        i += 1;
    }
    assert(s@.take(i as int) =~= s@);
}

fn get_u64s(b: &[u8]) -> (r: Vec<u64>)
    requires
        b@.len() % 8 == 0,
    ensures
        r@ == split_map(b@, 8, dec_u64()),
{
    let len = b.len();
    let n = len / 8;
    let mut r: Vec<u64> = Vec::new();
    let mut i: usize = 0;
    assert(b@.take(0) =~= Seq::<u8>::empty());
    assert(n * 8 == b@.len());
    while i < n
        invariant
            n == b@.len() / 8,
            n * 8 == b@.len(),
            len == b@.len(),
            i <= n,
            r@ == split_map(b@.take(i * 8), 8, dec_u64()),
        decreases n - i,
    {
        proof {
            assert(i * 8 + 8 <= n * 8) by (nonlinear_arith)
                requires
                    i < n,
            ;
        }
        let v = read_be_u64(b, i * 8);
        proof {
            lemma_split_map_step(b@, 8, i as int, dec_u64());
            
        }
        r.push(v);
        i += 1;
    }
    assert(b@.take(n * 8) =~= b@);
    r
}

fn put_i64s(s: &Vec<i64>, out: &mut Vec<u8>)
    ensures
        final(out)@ == old(out)@ + concat_map(s@, enc_i64()),
{
    let ghost start = out@;
    let mut i: usize = 0;
    while i < s.len()
        invariant
            i <= s@.len(),
            out@ == start + concat_map(s@.take(i as int), enc_i64()),
        decreases s@.len() - i,
    {
        let b = be_bytes_u64(#[verifier::truncate] (s[i] as u64));
        push_all(out, &b);
        proof {
            lemma_concat_map_step(s@, i as int, enc_i64());
            assert(enc_i64()(s@[i as int]) == b@);
        }
        i += 1;
    }
    assert(s@.take(i as int) =~= s@);
}

fn get_i64s(b: &[u8]) -> (r: Vec<i64>)
    requires
        b@.len() % 8 == 0,
    ensures
        r@ == split_map(b@, 8, dec_i64()),
{
    let len = b.len();
    let n = len / 8;
    let mut r: Vec<i64> = Vec::new();
    let mut i: usize = 0;
    assert(b@.take(0) =~= Seq::<u8>::empty());
    assert(n * 8 == b@.len());
    while i < n
        invariant
            n == b@.len() / 8,
            n * 8 == b@.len(),
            len == b@.len(),
            i <= n,
            r@ == split_map(b@.take(i * 8), 8, dec_i64()),
        decreases n - i,
    {
        proof {
            assert(i * 8 + 8 <= n * 8) by (nonlinear_arith)
                requires
                    i < n,
            ;
        }
        let v = #[verifier::truncate] (read_be_u64(b, i * 8) as i64);
        proof {
            lemma_split_map_step(b@, 8, i as int, dec_i64());
            
        }
        r.push(v);
        i += 1;
    }
    assert(b@.take(n * 8) =~= b@);
    r
}

impl Values {
    /// An empty column of type `tag`.
    pub fn empty(tag: TypeTag) -> (r: Values)
        ensures
            r@.tag() == tag,
            r@.len() == 0,
    {
        match tag {
            TypeTag::U8 => Values::U8(Vec::new()),
            TypeTag::U16 => Values::U16(Vec::new()),
            TypeTag::U32 => Values::U32(Vec::new()),
            TypeTag::U64 => Values::U64(Vec::new()),
            TypeTag::I8 => Values::I8(Vec::new()),
            TypeTag::I16 => Values::I16(Vec::new()),
            TypeTag::I32 => Values::I32(Vec::new()),
            TypeTag::I64 => Values::I64(Vec::new()),
            TypeTag::F32 => Values::F32(Vec::new()),
            TypeTag::F64 => Values::F64(Vec::new()),
        }
    }

    /// The type of the elements.
    pub fn tag(&self) -> (r: TypeTag)
        ensures
            r == self@.tag(),
    {
        match self {
            Values::U8(_) => TypeTag::U8,
            Values::U16(_) => TypeTag::U16,
            Values::U32(_) => TypeTag::U32,
            Values::U64(_) => TypeTag::U64,
            Values::I8(_) => TypeTag::I8,
            Values::I16(_) => TypeTag::I16,
            Values::I32(_) => TypeTag::I32,
            Values::I64(_) => TypeTag::I64,
            Values::F32(_) => TypeTag::F32,
            Values::F64(_) => TypeTag::F64,
        }
    }

    /// Number of elements.
    pub fn len(&self) -> (r: usize)
        ensures
            r == self@.len(),
    {
        match self {
            Values::U8(s) => s.len(),
            Values::U16(s) => s.len(),
            Values::U32(s) => s.len(),
            Values::U64(s) => s.len(),
            Values::I8(s) => s.len(),
            Values::I16(s) => s.len(),
            Values::I32(s) => s.len(),
            Values::I64(s) => s.len(),
            Values::F32(s) => s.len(),
            Values::F64(s) => s.len(),
        }
    }

    /// Moves the elements of `other` to the end of `self` where both have
    /// the same type; leaves `self` as it is otherwise.
    pub fn append(&mut self, other: Values)
        ensures
            final(self)@ == old(self)@.concat(other@),
    {
        let mut other = other;
        match (self, &mut other) {
            (Values::U8(a), Values::U8(b)) => a.append(b),
            (Values::U16(a), Values::U16(b)) => a.append(b),
            (Values::U32(a), Values::U32(b)) => a.append(b),
            (Values::U64(a), Values::U64(b)) => a.append(b),
            (Values::I8(a), Values::I8(b)) => a.append(b),
            (Values::I16(a), Values::I16(b)) => a.append(b),
            (Values::I32(a), Values::I32(b)) => a.append(b),
            (Values::I64(a), Values::I64(b)) => a.append(b),
            (Values::F32(a), Values::F32(b)) => a.append(b),
            (Values::F64(a), Values::F64(b)) => a.append(b),
            _ => {},
        }
    }
}

/// The big-endian bytes of `values`: each element in order, most significant
/// byte first, signed values in two's complement.
pub fn to_bytes(values: &Values) -> (r: Vec<u8>)
    ensures
        r@ == values@.bytes(),
{
    let mut out: Vec<u8> = Vec::new();
    match values {
        Values::U8(s) => put_u8s(s, &mut out),
        Values::U16(s) => put_u16s(s, &mut out),
        Values::U32(s) => put_u32s(s, &mut out),
        Values::U64(s) => put_u64s(s, &mut out),
        Values::I8(s) => put_i8s(s, &mut out),
        Values::I16(s) => put_i16s(s, &mut out),
        Values::I32(s) => put_i32s(s, &mut out),
        Values::I64(s) => put_i64s(s, &mut out),
        Values::F32(s) => put_u32s(s, &mut out),
        Values::F64(s) => put_u64s(s, &mut out),
    }
    out
}

/// The column of type `tag` whose big-endian bytes are `bytes`; fails with
/// `LengthMismatch` where the byte count is not a multiple of the width.
pub fn from_bytes(tag: TypeTag, bytes: &[u8]) -> (r: Result<Values, CodecError>)
    ensures
        r.is_ok() <==> bytes@.len() % spec_width(tag) == 0,
        r matches Ok(v) ==> v@ == decode_bytes(tag, bytes@),
        r matches Err(e) ==> e == CodecError::LengthMismatch,
{
    if bytes.len() % tag.width() != 0 {
        return Err(CodecError::LengthMismatch);
    }
    match tag {
        TypeTag::U8 => Ok(Values::U8(get_u8s(bytes))),
        TypeTag::U16 => Ok(Values::U16(get_u16s(bytes))),
        TypeTag::U32 => Ok(Values::U32(get_u32s(bytes))),
        TypeTag::U64 => Ok(Values::U64(get_u64s(bytes))),
        TypeTag::I8 => Ok(Values::I8(get_i8s(bytes))),
        TypeTag::I16 => Ok(Values::I16(get_i16s(bytes))),
        TypeTag::I32 => Ok(Values::I32(get_i32s(bytes))),
        TypeTag::I64 => Ok(Values::I64(get_i64s(bytes))),
        TypeTag::F32 => Ok(Values::F32(get_u32s(bytes))),
        TypeTag::F64 => Ok(Values::F64(get_u64s(bytes))),
    }
}

} // verus!
