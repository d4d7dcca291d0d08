//! Canonical protobuf encoding (CPE) of verified assertions: proto3 wire
//! format with fields in number order, default scalars omitted, map
//! entries in key order and oneof members always written.
use vstd::prelude::*;
use vstd::utf8::encode_utf8;

use crate::hash::{hex_encode, hex_lower, is_lower_hex, lemma_hex_lower_shape, sha256, sha256_digest};
use crate::proto::{
    clone_vec, CanonicalCitation, CanonicalCitationView, Timestamp, Value, ValueKind, ValueKindView,
    ValueView, VerifiedAssertion, VerifiedAssertionView,
};
use crate::smap::StrMap;
use crate::sort::{lemma_sort_stable, lemma_sorted_same_elements, sort_by_key, sort_stable, SortKey};

verus! {

/// Base-128 varint, least significant group first.
pub open spec fn varint(v: nat) -> Seq<u8>
    decreases v,
{
    if v < 128 {
        seq![v as u8]
    } else {
        seq![((v % 128) + 128) as u8] + varint(v / 128)
    }
}

/// The field key: field number and wire type.
pub open spec fn field_key(field: nat, wire_type: nat) -> Seq<u8> {
    varint(field * 8 + wire_type)
}

/// A length-delimited field.
pub open spec fn delimited(field: nat, body: Seq<u8>) -> Seq<u8> {
    field_key(field, 2) + varint(body.len()) + body
}

/// Two's-complement 64-bit image of a signed integer.
pub open spec fn as_u64(v: int) -> nat {
    if v < 0 {
        (v + 0x1_0000_0000_0000_0000) as nat
    } else {
        v as nat
    }
}

/// A singular `int32`/`int64`/enum field; zero is omitted.
pub open spec fn int_field(field: nat, v: int) -> Seq<u8> {
    if v == 0 {
        Seq::empty()
    } else {
        field_key(field, 0) + varint(as_u64(v))
    }
}

/// A singular `string` field; empty is omitted.
pub open spec fn string_field(field: nat, s: Seq<char>) -> Seq<u8> {
    if s.len() == 0 {
        Seq::empty()
    } else {
        delimited(field, encode_utf8(s))
    }
}

/// Little-endian bytes of a 64-bit value.
pub open spec fn le64(v: nat) -> Seq<u8> {
    Seq::new(8, |i: int| ((v / pow256(i)) % 256) as u8)
}

pub open spec fn pow256(i: int) -> nat
    decreases i,
{
    if i <= 0 {
        1
    } else {
        256 * pow256(i - 1)
    }
}

/// `Timestamp { seconds = 1, nanos = 2 }`.
pub open spec fn timestamp_bytes(t: Timestamp) -> Seq<u8> {
    int_field(1, t.seconds as int) + int_field(2, t.nanos as int)
}

/// The `Value` oneof: `s = 1, b = 2, i64 = 3, f64 = 4, ts = 5, e = 6`.
pub open spec fn value_bytes(v: ValueView) -> Seq<u8> {
    match v.v {
        None => Seq::empty(),
        Some(k) => match k {
            ValueKindView::S(s) => delimited(1, encode_utf8(s)),
            ValueKindView::B(b) => field_key(2, 0) + varint(if b { 1 } else { 0 }),
            ValueKindView::I64(i) => field_key(3, 0) + varint(as_u64(i as int)),
            ValueKindView::F64(f) => field_key(4, 1) + le64(f.bits as nat),
            ValueKindView::Ts(t) => delimited(5, timestamp_bytes(t)),
            ValueKindView::E(s) => delimited(6, encode_utf8(s)),
        },
    }
}

/// One entry of a `map<string, Value>` field: key 1 and value 2, each
/// omitted when default.
pub open spec fn map_entry_bytes(field: nat, k: Seq<char>, v: ValueView) -> Seq<u8> {
    delimited(
        field,
        (if k.len() == 0 {
            Seq::empty()
        } else {
            delimited(1, encode_utf8(k))
        }) + (if v.v is None {
            Seq::empty()
        } else {
            delimited(2, value_bytes(v))
        }),
    )
}

/// All entries of a map field, in key order.
pub open spec fn map_bytes(field: nat, m: Seq<(Seq<char>, ValueView)>) -> Seq<u8>
    decreases m.len(),
{
    if m.len() == 0 {
        Seq::empty()
    } else {
        map_bytes(field, m.drop_last()) + map_entry_bytes(field, m.last().0, m.last().1)
    }
}

/// `CanonicalCitation { anchor_digest = 1 }`.
pub open spec fn citation_bytes(c: CanonicalCitationView) -> Seq<u8> {
    string_field(1, c.anchor_digest)
}

/// A repeated `CanonicalCitation` field.
pub open spec fn citations_bytes(field: nat, cs: Seq<CanonicalCitationView>) -> Seq<u8>
    decreases cs.len(),
{
    if cs.len() == 0 {
        Seq::empty()
    } else {
        citations_bytes(field, cs.drop_last()) + delimited(field, citation_bytes(cs.last()))
    }
}

/// `VerifiedAssertion { assertion_type = 1, fields = 2, citations = 3 }`.
pub open spec fn assertion_bytes(a: VerifiedAssertionView) -> Seq<u8> {
    int_field(1, a.assertion_type as int) + map_bytes(2, a.fields) + citations_bytes(
        3,
        a.citations,
    )
}

impl SortKey for CanonicalCitation {
    open spec fn key_of(v: CanonicalCitationView) -> Seq<char> {
        v.anchor_digest
    }

    fn sort_key(&self) -> (k: &String) {
        &self.anchor_digest
    }
}

/// The assertion with its citations stably sorted by anchor digest.
pub open spec fn canonical_form(a: VerifiedAssertionView) -> VerifiedAssertionView {
    VerifiedAssertionView {
        citations: sort_stable(a.citations, |c: CanonicalCitationView| c.anchor_digest),
        ..a
    }
}

/// The canonical bytes of an assertion.
pub open spec fn canonical_bytes_spec(a: VerifiedAssertionView) -> Seq<u8> {
    assertion_bytes(canonical_form(a))
}

// ----------------------------------------------------------------------
// Encoders
// ----------------------------------------------------------------------

/// Appends a varint.
pub fn push_varint(buf: &mut Vec<u8>, v: u64)
    ensures
        final(buf)@ == old(buf)@ + varint(v as nat),
    decreases v,
{
    if v < 128 {
        buf.push(v as u8);
        assert(final(buf)@ =~= old(buf)@ + varint(v as nat));
    } else {
        buf.push((v % 128 + 128) as u8);
        push_varint(buf, v / 128);
        assert(final(buf)@ =~= old(buf)@ + varint(v as nat));
    }
}

fn push_key(buf: &mut Vec<u8>, field: u64, wire_type: u64)
    requires
        field < 1000,
        wire_type < 8,
    ensures
        final(buf)@ == old(buf)@ + field_key(field as nat, wire_type as nat),
{
    push_varint(buf, field * 8 + wire_type);
}

/// Appends all bytes of a slice.
pub fn push_bytes(buf: &mut Vec<u8>, bytes: &[u8])
    ensures
        final(buf)@ == old(buf)@ + bytes@,
{
    let mut i: usize = 0;
    let ghost start = buf@;
    while i < bytes.len()
        invariant
            i <= bytes.len(),
            buf@ == start + bytes@.take(i as int),
        decreases bytes.len() - i,
    {
        buf.push(bytes[i]);
        i += 1;
        assert(bytes@.take(i as int) =~= bytes@.take(i - 1).push(bytes@[i - 1]));
    }
    assert(bytes@.take(bytes.len() as int) =~= bytes@);
}

fn push_delimited(buf: &mut Vec<u8>, field: u64, body: &Vec<u8>)
    requires
        field < 1000,
    ensures
        final(buf)@ == old(buf)@ + delimited(field as nat, body@),
{
    push_key(buf, field, 2);
    push_varint(buf, body.len() as u64);
    push_bytes(buf, body.as_slice());
    assert(final(buf)@ =~= old(buf)@ + delimited(field as nat, body@));
}

fn push_str_delimited(buf: &mut Vec<u8>, field: u64, s: &str)
    requires
        field < 1000,
    ensures
        final(buf)@ == old(buf)@ + delimited(field as nat, encode_utf8(s@)),
{
    let b = s.as_bytes();
    push_key(buf, field, 2);
    push_varint(buf, b.len() as u64);
    push_bytes(buf, b);
    assert(final(buf)@ =~= old(buf)@ + delimited(field as nat, encode_utf8(s@)));
}

fn u64_image(v: i64) -> (r: u64)
    ensures
        r as nat == as_u64(v as int),
{
    if v < 0 {
        u64::MAX - ((-(v + 1)) as u64)
    } else {
        v as u64
    }
}

fn push_int_field(buf: &mut Vec<u8>, field: u64, v: i64)
    requires
        field < 1000,
    ensures
        final(buf)@ == old(buf)@ + int_field(field as nat, v as int),
{
    if v != 0 {
        push_key(buf, field, 0);
        push_varint(buf, u64_image(v));
        assert(final(buf)@ =~= old(buf)@ + int_field(field as nat, v as int));
    } else {
        assert(old(buf)@ + int_field(field as nat, v as int) =~= old(buf)@);
    }
}

fn push_le64(buf: &mut Vec<u8>, v: u64)
    ensures
        final(buf)@ == old(buf)@ + le64(v as nat),
{
    let ghost start = buf@;
    let mut x: u64 = v;
    let mut i: usize = 0;
    assert(pow256(0) == 1);
    while i < 8
        invariant
            i <= 8,
            buf@.len() == start.len() + i,
            forall|j: int| 0 <= j < start.len() ==> buf@[j] == start[j],
            forall|j: int| 0 <= j < i ==> buf@[start.len() + j] == le64(v as nat)[j],
            x as nat == (v as nat) / pow256(i as int),
        decreases 8 - i,
    {
        buf.push((x % 256) as u8);
        proof {
            assert(pow256(i + 1) == 256 * pow256(i as int));
            assert(pow256(i as int) > 0) by {
                lemma_pow256_pos(i as int);
            }
            vstd::arithmetic::div_mod::lemma_div_denominator(
                v as int,
                pow256(i as int) as int,
                256,
            );
        }
        x = x / 256;
        i += 1;
    }
    assert(buf@ =~= start + le64(v as nat));
}

proof fn lemma_pow256_pos(i: int)
    ensures
        pow256(i) > 0,
    decreases i,
{
    if i > 0 {
        lemma_pow256_pos(i - 1);
    }
}

/// The encoding of a value.
pub fn encode_value(v: &Value) -> (out: Vec<u8>)
    ensures
        out@ == value_bytes(v@),
{
    let mut buf: Vec<u8> = Vec::new();
    match &v.v {
        None => {},
        Some(k) => match k {
            ValueKind::S(s) => push_str_delimited(&mut buf, 1, s.as_str()),
            ValueKind::B(b) => {
                push_key(&mut buf, 2, 0);
                push_varint(&mut buf, if *b { 1 } else { 0 });
            },
            ValueKind::I64(i) => {
                push_key(&mut buf, 3, 0);
                push_varint(&mut buf, u64_image(*i));
            },
            ValueKind::F64(f) => {
                push_key(&mut buf, 4, 1);
                push_le64(&mut buf, f.bits);
            },
            ValueKind::Ts(t) => {
                let mut body: Vec<u8> = Vec::new();
                push_int_field(&mut body, 1, t.seconds);
                push_int_field(&mut body, 2, t.nanos as i64);
                assert(body@ =~= timestamp_bytes(*t));
                push_delimited(&mut buf, 5, &body);
            },
            ValueKind::E(s) => push_str_delimited(&mut buf, 6, s.as_str()),
        },
    }
    assert(buf@ =~= value_bytes(v@));
    buf
}

fn push_map(buf: &mut Vec<u8>, field: u64, m: &StrMap<Value>)
    requires
        field < 1000,
    ensures
        final(buf)@ == old(buf)@ + map_bytes(field as nat, m@),
{
    let ghost start = buf@;
    let mut i: usize = 0;
    while i < m.len()
        invariant
            field < 1000,
            i <= m@.len(),
            buf@ == start + map_bytes(field as nat, m@.take(i as int)),
        decreases m@.len() - i,
    {
        let k = m.key_at(i);
        let v = m.value_at(i);
        let mut entry: Vec<u8> = Vec::new();
        if !crate::text::str_is_empty(k.as_str()) {
            push_str_delimited(&mut entry, 1, k.as_str());
        }
        if v.v.is_some() {
            let vb = encode_value(v);
            push_delimited(&mut entry, 2, &vb);
        }
        proof {
            assert(entry@ =~= (if k@.len() == 0 {
                Seq::<u8>::empty()
            } else {
                delimited(1, encode_utf8(k@))
            }) + (if v@.v is None {
                Seq::<u8>::empty()
            } else {
                delimited(2, value_bytes(v@))
            }));
        }
        push_delimited(buf, field, &entry);
        proof {
            let t = m@.take(i + 1);
            assert(t.drop_last() =~= m@.take(i as int));
            assert(t.last() == m@[i as int]);
            assert(buf@ =~= start + map_bytes(field as nat, t));
        }
        i += 1;
    }
    assert(m@.take(m@.len() as int) =~= m@);
}

fn push_citations(buf: &mut Vec<u8>, field: u64, cs: &Vec<CanonicalCitation>)
    requires
        field < 1000,
    ensures
        final(buf)@ == old(buf)@ + citations_bytes(
            field as nat,
            cs@.map_values(|c: CanonicalCitation| c@),
        ),
{
    let ghost start = buf@;
    let ghost cv = cs@.map_values(|c: CanonicalCitation| c@);
    let mut i: usize = 0;
    while i < cs.len()
        invariant
            field < 1000,
            i <= cs.len(),
            cv == cs@.map_values(|c: CanonicalCitation| c@),
            buf@ == start + citations_bytes(field as nat, cv.take(i as int)),
        decreases cs.len() - i,
    {
        let mut body: Vec<u8> = Vec::new();
        let a = &cs[i].anchor_digest;
        if !crate::text::str_is_empty(a.as_str()) {
            push_str_delimited(&mut body, 1, a.as_str());
        }
        proof {
            assert(body@ =~= citation_bytes(cs@[i as int]@));
        }
        push_delimited(buf, field, &body);
        proof {
            let t = cv.take(i + 1);
            assert(t.drop_last() =~= cv.take(i as int));
            assert(t.last() == cs@[i as int]@);
            assert(buf@ =~= start + citations_bytes(field as nat, t));
        }
        i += 1;
    }
    assert(cv.take(cs.len() as int) =~= cv);
}

/// The encoding of an assertion as it stands.
pub fn encode_assertion(a: &VerifiedAssertion) -> (out: Vec<u8>)
    ensures
        out@ == assertion_bytes(a@),
{
    let mut buf: Vec<u8> = Vec::new();
    push_int_field(&mut buf, 1, a.assertion_type as i64);
    push_map(&mut buf, 2, &a.fields);
    push_citations(&mut buf, 3, &a.citations);
    assert(buf@ =~= assertion_bytes(a@));
    buf
}

/// The canonical bytes of an assertion: its encoding after stably sorting
/// the citations by anchor digest.
pub fn canonical_assertion_bytes(assertion: &VerifiedAssertion) -> (out: Vec<u8>)
    ensures
        out@ == canonical_bytes_spec(assertion@),
{
    let mut canonical = assertion.clone();
    let cs = clone_vec(&canonical.citations);
    let sorted = sort_by_key(cs);
    canonical.citations = sorted;
    proof {
        let key = |m: CanonicalCitationView| CanonicalCitation::key_of(m);
        assert(key == (|c: CanonicalCitationView| c.anchor_digest));
        assert(canonical@ =~= canonical_form(assertion@));
    }
    encode_assertion(&canonical)
}

/// The hex SHA-256 of the canonical bytes of an assertion.
pub open spec fn canonical_hash_spec(a: VerifiedAssertionView) -> Seq<char> {
    hex_lower(sha256_digest(canonical_bytes_spec(a)))
}

/// The hex SHA-256 of the canonical bytes of an assertion.
pub fn canonical_assertion_hash(assertion: &VerifiedAssertion) -> (out: String)
    ensures
        out@ == canonical_hash_spec(assertion@),
        out@.len() == 64,
        forall|i: int| 0 <= i < out@.len() ==> is_lower_hex(#[trigger] out@[i]),
{
    let bytes = canonical_assertion_bytes(assertion);
    let d = sha256(bytes.as_slice());
    proof {
        lemma_hex_lower_shape(d@);
    }
    hex_encode(d.as_slice())
}

/// Citation order does not matter: two assertions that differ only in the
/// order of their citations have the same canonical bytes and hash,
/// provided no two different citations share an anchor digest.
pub proof fn lemma_canonical_bytes_order_free(a: VerifiedAssertionView, b: VerifiedAssertionView)
    requires
        b == (VerifiedAssertionView { citations: b.citations, ..a }),
        b.citations.to_multiset() == a.citations.to_multiset(),
        forall|i: int, j: int|
            0 <= i < a.citations.len() && 0 <= j < a.citations.len() && (#[trigger] a.citations[i]).anchor_digest
                == (#[trigger] a.citations[j]).anchor_digest ==> a.citations[i] == a.citations[j],
    ensures
        canonical_bytes_spec(a) == canonical_bytes_spec(b),
        canonical_hash_spec(a) == canonical_hash_spec(b),
{
    broadcast use vstd::seq_lib::group_to_multiset_ensures;
    let key = |c: CanonicalCitationView| c.anchor_digest;
    let sa = sort_stable(a.citations, key);
    let sb = sort_stable(b.citations, key);
    lemma_sort_stable(a.citations, key);
    lemma_sort_stable(b.citations, key);
    assert forall|x: CanonicalCitationView, y: CanonicalCitationView|
        sa.contains(x) && sa.contains(y) && key(x) == key(y) implies x == y by {
        assert(sa.to_multiset().count(x) > 0);
        assert(sa.to_multiset().count(y) > 0);
        assert(a.citations.to_multiset().count(x) > 0);
        assert(a.citations.to_multiset().count(y) > 0);
        assert(a.citations.contains(x));
        assert(a.citations.contains(y));
        let i = choose|i: int| 0 <= i < a.citations.len() && a.citations[i] == x;
        let j = choose|j: int| 0 <= j < a.citations.len() && a.citations[j] == y;
        assert(a.citations[i].anchor_digest == a.citations[j].anchor_digest);
    };
    lemma_sorted_same_elements(sa, sb, key);
    assert(canonical_form(a) =~= canonical_form(b));
}

} // verus!
