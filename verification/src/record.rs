//! The `#[inject]` metadata record format. Each annotated function leaves
//! one record in a link section of the cdylib:
//! `fn_name US target US method US at US class RS` (US = 0x1f, RS = 0x1e),
//! every field in UTF-8. The builder reads the concatenated section data
//! back into [`InjectMeta`] values.

use vstd::prelude::*;
use vstd::utf8::{valid_utf8, decode_utf8, encode_utf8};
use crate::names::{FIELD_SEP, RECORD_SEP};

verus! {

/// One `#[inject]` record: the payload function and where its Mixin hooks in.
#[derive(Debug, Clone)]
pub struct InjectMeta {
    pub fn_name: String,
    pub target: String,
    pub method: String,
    pub at: String,
    pub class: String,
}

/// The characters of each field of an [`InjectMeta`].
pub struct InjectMetaView {
    pub fn_name: Seq<char>,
    pub target: Seq<char>,
    pub method: Seq<char>,
    pub at: Seq<char>,
    pub class: Seq<char>,
}

impl View for InjectMeta {
    type V = InjectMetaView;

    open spec fn view(&self) -> InjectMetaView {
        InjectMetaView {
            fn_name: self.fn_name@,
            target: self.target@,
            method: self.method@,
            at: self.at@,
            class: self.class@,
        }
    }
}

/// Why the metadata could not be read.
#[derive(Debug, Clone)]
pub enum InjectMetaError {
    /// The named library is not an object file the `object` crate can parse.
    ObjectParse(String),
    /// The named metadata section could not be read (decompressed).
    SectionRead(String),
    /// The named library has none of the metadata sections, or only empty ones.
    NoMetaSection(String),
    /// A record has this many fields instead of five.
    FieldCount(usize),
    /// The field with this index (0 = fn_name … 4 = class) is not UTF-8.
    NotUtf8(usize),
}

/// Splitting of a prefix: the pieces already ended by `sep`, and the piece
/// still open.
pub open spec fn split_prefix<A>(s: Seq<A>, sep: A) -> (Seq<Seq<A>>, Seq<A>)
    decreases s.len(),
{
    if s.len() == 0 {
        (Seq::empty(), Seq::empty())
    } else {
        let (done, cur) = split_prefix(s.drop_last(), sep);
        if s.last() == sep {
            (done.push(cur), Seq::empty())
        } else {
            (done, cur.push(s.last()))
        }
    }
}

/// The pieces of `s` between occurrences of `sep`, as `[u8]::split` yields
/// them: `n` separators give `n + 1` pieces, possibly empty.
pub open spec fn split<A>(s: Seq<A>, sep: A) -> Seq<Seq<A>> {
    let (done, cur) = split_prefix(s, sep);
    done.push(cur)
}

/// Views of a sequence of byte vectors.
pub open spec fn byte_views(v: Seq<Vec<u8>>) -> Seq<Seq<u8>> {
    Seq::new(v.len(), |i: int| v[i]@)
}

/// Splits `data` on every `sep` byte.
pub fn split_bytes(data: &[u8], sep: u8) -> (r: Vec<Vec<u8>>)
    ensures
        byte_views(r@) == split(data@, sep),
{
    let mut done: Vec<Vec<u8>> = Vec::new();
    let mut cur: Vec<u8> = Vec::new();
    let mut i: usize = 0;
    while i < data.len()
        invariant
            i <= data.len(),
            (byte_views(done@), cur@) == split_prefix(data@.subrange(0, i as int), sep),
        decreases data.len() - i,
    {
        let ghost prev = byte_views(done@);
        proof {
            assert(data@.subrange(0, i + 1).drop_last() =~= data@.subrange(0, i as int));
        }
        if data[i] == sep {
            let piece = cur;
            cur = Vec::new();
            done.push(piece);
            assert(byte_views(done@) =~= prev.push(piece@));
        } else {
            cur.push(data[i]);
            assert(byte_views(done@) =~= prev);
        }
        i = i + 1;
    }
    let ghost prev = byte_views(done@);
    let last = cur;
    done.push(last);
    assert(byte_views(done@) =~= prev.push(last@));
    assert(data@.subrange(0, data@.len() as int) =~= data@);
    done
}

/// The record with fields `f` (UTF-8 checked), or why it is not one.
pub open spec fn decode_fields(f: Seq<Seq<u8>>) -> Result<InjectMetaView, InjectMetaError> {
    if f.len() != 5 {
        Err(InjectMetaError::FieldCount(f.len() as usize))
    } else if !valid_utf8(f[0]) {
        Err(InjectMetaError::NotUtf8(0))
    } else if !valid_utf8(f[1]) {
        Err(InjectMetaError::NotUtf8(1))
    } else if !valid_utf8(f[2]) {
        Err(InjectMetaError::NotUtf8(2))
    } else if !valid_utf8(f[3]) {
        Err(InjectMetaError::NotUtf8(3))
    } else if !valid_utf8(f[4]) {
        Err(InjectMetaError::NotUtf8(4))
    } else {
        Ok(
            InjectMetaView {
                fn_name: decode_utf8(f[0]),
                target: decode_utf8(f[1]),
                method: decode_utf8(f[2]),
                at: decode_utf8(f[3]),
                class: decode_utf8(f[4]),
            },
        )
    }
}

/// One record (without its RS terminator).
pub open spec fn parse_record(rec: Seq<u8>) -> Result<InjectMetaView, InjectMetaError> {
    decode_fields(split(rec, FIELD_SEP))
}

/// The records of a sequence of pieces, skipping empty pieces; the first
/// malformed record decides the error.
pub open spec fn parse_records(pieces: Seq<Seq<u8>>) -> Result<Seq<InjectMetaView>, InjectMetaError>
    decreases pieces.len(),
{
    if pieces.len() == 0 {
        Ok(Seq::empty())
    } else {
        match parse_records(pieces.drop_last()) {
            Err(e) => Err(e),
            Ok(ms) => if pieces.last().len() == 0 {
                Ok(ms)
            } else {
                match parse_record(pieces.last()) {
                    Ok(m) => Ok(ms.push(m)),
                    Err(e) => Err(e),
                }
            },
        }
    }
}

/// All records in concatenated section data.
pub open spec fn parse_meta_data(data: Seq<u8>) -> Result<Seq<InjectMetaView>, InjectMetaError> {
    parse_records(split(data, RECORD_SEP))
}

/// Views of a sequence of records.
pub open spec fn meta_views(v: Seq<InjectMeta>) -> Seq<InjectMetaView> {
    Seq::new(v.len(), |i: int| v[i]@)
}

/// `String::from_utf8`: the string whose UTF-8 encoding is `bytes`, or
/// `None` when `bytes` is not valid UTF-8.
#[verifier::external_body]
fn string_from_utf8(bytes: Vec<u8>) -> (r: Option<String>)
    ensures
        r is Some <==> valid_utf8(bytes@),
        r matches Some(s) ==> s@ == decode_utf8(bytes@),
{
    String::from_utf8(bytes).ok()
}

/// Decodes field `k` of a record.
fn decode_field(fields: &Vec<Vec<u8>>, k: usize) -> (r: Result<String, InjectMetaError>)
    requires
        k < fields@.len(),
    ensures
        r matches Ok(s) ==> valid_utf8(fields@[k as int]@) && s@ == decode_utf8(fields@[k as int]@),
        r matches Err(e) ==> !valid_utf8(fields@[k as int]@) && e == InjectMetaError::NotUtf8(k),
{
    let bytes = fields[k].clone();
    match string_from_utf8(bytes) {
        Some(s) => Ok(s),
        None => Err(InjectMetaError::NotUtf8(k)),
    }
}

/// Parses one record (its RS terminator removed).
pub fn parse_one_record(rec: &[u8]) -> (r: Result<InjectMeta, InjectMetaError>)
    ensures
        match r {
            Ok(m) => parse_record(rec@) == Ok::<InjectMetaView, InjectMetaError>(m@),
            Err(e) => parse_record(rec@) == Err::<InjectMetaView, InjectMetaError>(e),
        },
{
    let fields = split_bytes(rec, FIELD_SEP);
    let ghost f = split(rec@, FIELD_SEP);
    assert(byte_views(fields@) == f);
    if fields.len() != 5 {
        return Err(InjectMetaError::FieldCount(fields.len()));
    }
    assert(fields@[0]@ == f[0] && fields@[1]@ == f[1] && fields@[2]@ == f[2]);
    assert(fields@[3]@ == f[3] && fields@[4]@ == f[4]);
    let fn_name = decode_field(&fields, 0)?;
    let target = decode_field(&fields, 1)?;
    let method = decode_field(&fields, 2)?;
    let at = decode_field(&fields, 3)?;
    let class = decode_field(&fields, 4)?;
    Ok(InjectMeta { fn_name, target, method, at, class })
}

/// Parses the concatenated metadata section data: the records between RS
/// bytes, empty ones skipped, in order.
pub fn parse_inject_records(data: &[u8]) -> (r: Result<Vec<InjectMeta>, InjectMetaError>)
    ensures
        match r {
            Ok(v) => parse_meta_data(data@) == Ok::<Seq<InjectMetaView>, InjectMetaError>(
                meta_views(v@),
            ),
            Err(e) => parse_meta_data(data@) == Err::<Seq<InjectMetaView>, InjectMetaError>(e),
        },
{
    let pieces = split_bytes(data, RECORD_SEP);
    let ghost ps = split(data@, RECORD_SEP);
    let mut out: Vec<InjectMeta> = Vec::new();
    let mut i: usize = 0;
    assert(ps.subrange(0, 0) =~= Seq::<Seq<u8>>::empty());
    assert(meta_views(out@) =~= Seq::<InjectMetaView>::empty());
    while i < pieces.len()
        invariant
            i <= pieces.len(),
            byte_views(pieces@) == ps,
            ps == split(data@, RECORD_SEP),
            parse_records(ps.subrange(0, i as int)) == Ok::<Seq<InjectMetaView>, InjectMetaError>(
                meta_views(out@),
            ),
        decreases pieces.len() - i,
    {
        proof {
            assert(ps.subrange(0, i + 1).drop_last() =~= ps.subrange(0, i as int));
            assert(pieces@[i as int]@ == ps[i as int]);
            assert(ps.subrange(0, i + 1).last() == ps[i as int]);
        }
        if pieces[i].len() == 0 {
        } else {
            match parse_one_record(pieces[i].as_slice()) {
                Ok(m) => {
                    let ghost prev = meta_views(out@);
                    out.push(m);
                    assert(meta_views(out@) =~= prev.push(m@));
                },
                Err(e) => {
                    proof {
                        assert(parse_record(ps[i as int]) == Err::<InjectMetaView, InjectMetaError>(e));
                        let sub = ps.subrange(0, i + 1);
                        assert(sub.last().len() != 0);
                        assert(parse_records(sub) == Err::<Seq<InjectMetaView>, InjectMetaError>(e));
                        lemma_parse_records_err_prefix(ps, i as int + 1, e);
                    }
                    return Err(e);
                },
            }
        }
        i = i + 1;
    }
    assert(ps.subrange(0, pieces@.len() as int) =~= ps);
    Ok(out)
}

/// An error in a prefix of the pieces is the error of all of them.
proof fn lemma_parse_records_err_prefix(ps: Seq<Seq<u8>>, n: int, e: InjectMetaError)
    requires
        0 <= n <= ps.len(),
        parse_records(ps.subrange(0, n)) == Err::<Seq<InjectMetaView>, InjectMetaError>(e),
    ensures
        parse_records(ps) == Err::<Seq<InjectMetaView>, InjectMetaError>(e),
    decreases ps.len() - n,
{
    if n == ps.len() {
        assert(ps.subrange(0, n) =~= ps);
    } else {
        assert(ps.subrange(0, n + 1).drop_last() =~= ps.subrange(0, n));
        lemma_parse_records_err_prefix(ps, n + 1, e);
    }
}

/// The UTF-8 bytes of one record: the five fields separated by US and ended by RS.
pub open spec fn record_bytes(m: InjectMetaView) -> Seq<u8> {
    record_body(m) + seq![RECORD_SEP]
}

/// One record without its RS terminator.
pub open spec fn record_body(m: InjectMetaView) -> Seq<u8> {
    encode_utf8(m.fn_name) + seq![FIELD_SEP] + encode_utf8(m.target) + seq![FIELD_SEP]
        + encode_utf8(m.method) + seq![FIELD_SEP] + encode_utf8(m.at) + seq![FIELD_SEP]
        + encode_utf8(m.class)
}

/// The records of `ms`, one after the other, as the linker concatenates them.
pub open spec fn records_bytes(ms: Seq<InjectMetaView>) -> Seq<u8>
    decreases ms.len(),
{
    if ms.len() == 0 {
        Seq::empty()
    } else {
        records_bytes(ms.drop_last()) + record_bytes(ms.last())
    }
}

/// Appends the UTF-8 bytes of `s` to `out`.
fn push_utf8(out: &mut Vec<u8>, s: &str)
    ensures
        final(out)@ == old(out)@ + encode_utf8(s@),
{
    let b = s.as_bytes();
    let ghost start = out@;
    let mut i: usize = 0;
    while i < b.len()
        invariant
            i <= b@.len(),
            b@ == encode_utf8(s@),
            out@ == start + b@.subrange(0, i as int),
        decreases b.len() - i,
    {
        out.push(b[i]);
        assert(out@ =~= start + b@.subrange(0, i + 1));
        i = i + 1;
    }
    assert(b@.subrange(0, b@.len() as int) =~= b@);
}

/// The metadata record `#[inject]` leaves in the cdylib for function
/// `fn_name` with Mixin target `target`, target method `method`, injection
/// point `at` and Mixin class name `class`.
pub fn encode_inject_record(
    fn_name: &str,
    target: &str,
    method: &str,
    at: &str,
    class: &str,
) -> (r: Vec<u8>)
    ensures
        r@ == record_bytes(
            InjectMetaView {
                fn_name: fn_name@,
                target: target@,
                method: method@,
                at: at@,
                class: class@,
            },
        ),
{
    let mut out: Vec<u8> = Vec::new();
    push_utf8(&mut out, fn_name);
    out.push(FIELD_SEP);
    push_utf8(&mut out, target);
    out.push(FIELD_SEP);
    push_utf8(&mut out, method);
    out.push(FIELD_SEP);
    push_utf8(&mut out, at);
    out.push(FIELD_SEP);
    push_utf8(&mut out, class);
    out.push(RECORD_SEP);
    proof {
        let m = InjectMetaView {
            fn_name: fn_name@,
            target: target@,
            method: method@,
            at: at@,
            class: class@,
        };
        assert(out@ =~= record_bytes(m));
    }
    out
}

/// No character of `s` is one of the two separators.
pub open spec fn separator_free(s: Seq<char>) -> bool {
    forall|i: int| 0 <= i < s.len() ==> #[trigger] s[i] != '\x1e' && s[i] != '\x1f'
}

/// Every field of `m` is free of separators.
pub open spec fn meta_separator_free(m: InjectMetaView) -> bool {
    &&& separator_free(m.fn_name)
    &&& separator_free(m.target)
    &&& separator_free(m.method)
    &&& separator_free(m.at)
    &&& separator_free(m.class)
}

proof fn lemma_scalar_bytes(c: char)
    ensures
        forall|j: int|
            0 <= j < vstd::utf8::encode_scalar(c as u32).len() ==> {
                let b = #[trigger] vstd::utf8::encode_scalar(c as u32)[j];
                b >= 0x80 || b as u32 == c as u32
            },
{
    let v = c as u32;
    assert(v <= 0x7F ==> (v & 0x7F) as u8 as u32 == v) by (bit_vector);
    assert(forall|x: u8| #[trigger] (0xC0u8 | x) >= 0x80) by (bit_vector);
    assert(forall|x: u8| #[trigger] (0xE0u8 | x) >= 0x80) by (bit_vector);
    assert(forall|x: u8| #[trigger] (0xF0u8 | x) >= 0x80) by (bit_vector);
    assert(forall|x: u8| #[trigger] (0x80u8 | x) >= 0x80) by (bit_vector);
}

/// The UTF-8 encoding of a separator-free string holds no separator byte.
proof fn lemma_encode_separator_free(s: Seq<char>)
    requires
        separator_free(s),
    ensures
        !encode_utf8(s).contains(FIELD_SEP),
        !encode_utf8(s).contains(RECORD_SEP),
    decreases s.len(),
{
    if s.len() > 0 {
        let rest = s.drop_first();
        assert(separator_free(rest)) by {
            assert forall|i: int| 0 <= i < rest.len() implies #[trigger] rest[i] != '\x1e'
                && rest[i] != '\x1f' by {
                assert(rest[i] == s[i + 1]);
            }
        }
        lemma_encode_separator_free(rest);
        let head = vstd::utf8::encode_scalar(s[0] as u32);
        lemma_scalar_bytes(s[0]);
        assert(s[0] != '\x1e' && s[0] != '\x1f');
        assert(('\x1e' as u32) == 0x1e && ('\x1f' as u32) == 0x1f);
        let e = encode_utf8(s);
        assert(e == head + encode_utf8(rest));
        assert forall|j: int| 0 <= j < e.len() implies e[j] != FIELD_SEP && e[j] != RECORD_SEP by {
            if j < head.len() {
                assert(e[j] == head[j]);
                let b = head[j];
                if b < 0x80 {
                    assert(b as u32 == s[0] as u32);
                    vstd::utf8::char_u32_cast(s[0], s[0] as u32);
                    vstd::utf8::char_u32_cast('\x1e', '\x1e' as u32);
                    vstd::utf8::char_u32_cast('\x1f', '\x1f' as u32);
                }
            } else {
                assert(e[j] == encode_utf8(rest)[j - head.len()]);
            }
        }
    }
}

/// Splitting after a separator-free stretch `x` extends the open piece.
proof fn lemma_split_prefix_append(p: Seq<u8>, x: Seq<u8>, sep: u8)
    requires
        !x.contains(sep),
    ensures
        split_prefix(p + x, sep) == (split_prefix(p, sep).0, split_prefix(p, sep).1 + x),
    decreases x.len(),
{
    if x.len() == 0 {
        assert(p + x =~= p);
        assert(split_prefix(p, sep).1 + x =~= split_prefix(p, sep).1);
    } else {
        let y = x.drop_last();
        assert(!y.contains(sep)) by {
            assert forall|i: int| 0 <= i < y.len() implies y[i] != sep by {
                assert(y[i] == x[i]);
            }
        }
        lemma_split_prefix_append(p, y, sep);
        assert((p + x).drop_last() =~= p + y);
        assert((p + x).last() == x.last());
        assert(x.last() != sep) by {
            assert(x[x.len() - 1] == x.last());
        }
        assert(split_prefix(p, sep).1 + y + seq![x.last()] =~= split_prefix(p, sep).1 + x);
        assert((split_prefix(p, sep).1 + y).push(x.last()) =~= split_prefix(p, sep).1 + x);
    }
}

/// Splitting after a separator-free stretch `x` and a separator closes the piece.
proof fn lemma_split_prefix_close(p: Seq<u8>, x: Seq<u8>, sep: u8)
    requires
        !x.contains(sep),
    ensures
        split_prefix(p + x + seq![sep], sep) == (
            split_prefix(p, sep).0.push(split_prefix(p, sep).1 + x),
            Seq::<u8>::empty(),
        ),
{
    lemma_split_prefix_append(p, x, sep);
    assert((p + x + seq![sep]).drop_last() =~= p + x);
}

/// The body of a separator-free record splits into its five encoded fields.
proof fn lemma_record_body_fields(m: InjectMetaView)
    requires
        meta_separator_free(m),
    ensures
        !record_body(m).contains(RECORD_SEP),
        record_body(m).len() > 0,
        parse_record(record_body(m)) == Ok::<InjectMetaView, InjectMetaError>(m),
{
    let e0 = encode_utf8(m.fn_name);
    let e1 = encode_utf8(m.target);
    let e2 = encode_utf8(m.method);
    let e3 = encode_utf8(m.at);
    let e4 = encode_utf8(m.class);
    lemma_encode_separator_free(m.fn_name);
    lemma_encode_separator_free(m.target);
    lemma_encode_separator_free(m.method);
    lemma_encode_separator_free(m.at);
    lemma_encode_separator_free(m.class);
    let us = seq![FIELD_SEP];
    let empty = Seq::<u8>::empty();
    lemma_split_prefix_close(empty, e0, FIELD_SEP);
    assert(empty + e0 + us =~= e0 + us);
    assert(split_prefix(empty, FIELD_SEP) == (Seq::<Seq<u8>>::empty(), empty));
    assert(empty + e0 =~= e0);
    let p1 = e0 + us;
    lemma_split_prefix_close(p1, e1, FIELD_SEP);
    let p2 = p1 + e1 + us;
    lemma_split_prefix_close(p2, e2, FIELD_SEP);
    let p3 = p2 + e2 + us;
    lemma_split_prefix_close(p3, e3, FIELD_SEP);
    let p4 = p3 + e3 + us;
    lemma_split_prefix_append(p4, e4, FIELD_SEP);
    assert(empty + e1 =~= e1);
    assert(empty + e2 =~= e2);
    assert(empty + e3 =~= e3);
    assert(empty + e4 =~= e4);
    assert(p4 + e4 =~= record_body(m));
    let f = split(record_body(m), FIELD_SEP);
    assert(f =~= seq![e0, e1, e2, e3, e4]);
    vstd::utf8::encode_utf8_valid_utf8(m.fn_name);
    vstd::utf8::encode_utf8_valid_utf8(m.target);
    vstd::utf8::encode_utf8_valid_utf8(m.method);
    vstd::utf8::encode_utf8_valid_utf8(m.at);
    vstd::utf8::encode_utf8_valid_utf8(m.class);
    vstd::utf8::encode_utf8_decode_utf8(m.fn_name);
    vstd::utf8::encode_utf8_decode_utf8(m.target);
    vstd::utf8::encode_utf8_decode_utf8(m.method);
    vstd::utf8::encode_utf8_decode_utf8(m.at);
    vstd::utf8::encode_utf8_decode_utf8(m.class);
    let body = record_body(m);
    assert forall|j: int| 0 <= j < body.len() implies body[j] != RECORD_SEP by {
        if j < p4.len() {
            assert(body[j] == p4[j]);
            lemma_no_rs_in_prefix(m, j);
        } else {
            assert(body[j] == e4[j - p4.len()]);
        }
    }
    assert(body.len() >= 4) by {
        assert(body =~= p4 + e4);
    }
}

proof fn lemma_no_rs_in_prefix(m: InjectMetaView, j: int)
    requires
        meta_separator_free(m),
        0 <= j < (encode_utf8(m.fn_name) + seq![FIELD_SEP] + encode_utf8(m.target) + seq![FIELD_SEP]
            + encode_utf8(m.method) + seq![FIELD_SEP] + encode_utf8(m.at) + seq![FIELD_SEP]).len(),
    ensures
        (encode_utf8(m.fn_name) + seq![FIELD_SEP] + encode_utf8(m.target) + seq![FIELD_SEP]
            + encode_utf8(m.method) + seq![FIELD_SEP] + encode_utf8(m.at) + seq![FIELD_SEP])[j]
            != RECORD_SEP,
{
    lemma_encode_separator_free(m.fn_name);
    lemma_encode_separator_free(m.target);
    lemma_encode_separator_free(m.method);
    lemma_encode_separator_free(m.at);
}

/// Reading back what `#[inject]` writes: the concatenated records of `ms`
/// parse to exactly `ms`, in order, whenever no field holds a separator
/// character.
pub proof fn lemma_records_roundtrip(ms: Seq<InjectMetaView>)
    requires
        forall|i: int| 0 <= i < ms.len() ==> meta_separator_free(#[trigger] ms[i]),
    ensures
        parse_meta_data(records_bytes(ms)) == Ok::<Seq<InjectMetaView>, InjectMetaError>(ms),
{
    lemma_records_split(ms);
    let bodies = Seq::new(ms.len(), |i: int| record_body(ms[i]));
    let pieces = split(records_bytes(ms), RECORD_SEP);
    assert(pieces == bodies.push(Seq::<u8>::empty()));
    assert(pieces.drop_last() =~= bodies);
    lemma_parse_bodies(ms);
}

/// The records of `ms` split, at RS, into their bodies and an empty tail.
proof fn lemma_records_split(ms: Seq<InjectMetaView>)
    requires
        forall|i: int| 0 <= i < ms.len() ==> meta_separator_free(#[trigger] ms[i]),
    ensures
        split_prefix(records_bytes(ms), RECORD_SEP) == (
            Seq::new(ms.len(), |i: int| record_body(ms[i])),
            Seq::<u8>::empty(),
        ),
    decreases ms.len(),
{
    if ms.len() == 0 {
        assert(Seq::new(0, |i: int| record_body(ms[i])) =~= Seq::<Seq<u8>>::empty());
    } else {
        let init = ms.drop_last();
        assert forall|i: int| 0 <= i < init.len() implies meta_separator_free(
            #[trigger] init[i],
        ) by {
            assert(init[i] == ms[i]);
        }
        lemma_records_split(init);
        let m = ms.last();
        assert(meta_separator_free(m)) by {
            assert(ms[ms.len() - 1] == m);
        }
        lemma_record_body_fields(m);
        let p = records_bytes(init);
        lemma_split_prefix_close(p, record_body(m), RECORD_SEP);
        assert(records_bytes(ms) =~= p + record_body(m) + seq![RECORD_SEP]);
        assert(Seq::<u8>::empty() + record_body(m) =~= record_body(m));
        assert(Seq::new(init.len(), |i: int| record_body(init[i])).push(record_body(m)) =~= Seq::new(
            ms.len(),
            |i: int| record_body(ms[i]),
        ));
    }
}

/// The bodies of separator-free records parse to the records.
proof fn lemma_parse_bodies(ms: Seq<InjectMetaView>)
    requires
        forall|i: int| 0 <= i < ms.len() ==> meta_separator_free(#[trigger] ms[i]),
    ensures
        parse_records(Seq::new(ms.len(), |i: int| record_body(ms[i])))
            == Ok::<Seq<InjectMetaView>, InjectMetaError>(ms),
        parse_records(Seq::new(ms.len(), |i: int| record_body(ms[i])).push(Seq::<u8>::empty()))
            == Ok::<Seq<InjectMetaView>, InjectMetaError>(ms),
    decreases ms.len(),
{
    let bodies = Seq::new(ms.len(), |i: int| record_body(ms[i]));
    assert(bodies.push(Seq::<u8>::empty()).drop_last() =~= bodies);
    if ms.len() == 0 {
        assert(ms =~= Seq::<InjectMetaView>::empty());
    } else {
        let init = ms.drop_last();
        assert forall|i: int| 0 <= i < init.len() implies meta_separator_free(
            #[trigger] init[i],
        ) by {
            assert(init[i] == ms[i]);
        }
        lemma_parse_bodies(init);
        assert(bodies.drop_last() =~= Seq::new(init.len(), |i: int| record_body(init[i])));
        let m = ms.last();
        assert(meta_separator_free(m)) by {
            assert(ms[ms.len() - 1] == m);
        }
        lemma_record_body_fields(m);
        assert(bodies.last() == record_body(m));
        assert(init.push(m) =~= ms);
    }
}

} // verus!
