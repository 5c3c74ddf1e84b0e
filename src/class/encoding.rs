//! The byte layout of constant-pool records as the decoder reads them, and
//! the law that decoding an encoded pool gives the pool back.
use vstd::prelude::*;

use crate::class::constant_pool::tag::{tag_byte, ConstantTag};
use crate::class::constant_pool::{
    lemma_tag_byte_injective, spec_constant_pool, tag_from_byte, tag_of, EntryView,
};
use crate::class::constant_pool_table::utf8_map;
use crate::class::{spec_class, spec_pool};
use crate::class::attribute::{code_name, spec_attribute, spec_attributes};
use crate::class::attribute::code::spec_code;
use crate::class::method::{spec_method, spec_text};
use crate::class::spec_methods;
use crate::instruction::{lemma_unsupported_opcode_fails, spec_instructions, supported};
use crate::reader::{be_u16, be_u32, DecodeError};

verus! {

/// A `u16` as two bytes, most significant first.
pub open spec fn u16_bytes(v: u16) -> Seq<u8> {
    seq![(v / 0x100) as u8, (v % 0x100) as u8]
}

pub open spec fn u32_bytes(v: u32) -> Seq<u8> {
    u16_bytes((v / 0x10000) as u16) + u16_bytes((v % 0x10000) as u16)
}

/// One record: its tag byte, then its fields; UTF-8 text with its length in
/// front.
pub open spec fn encode_entry(e: EntryView) -> Seq<u8> {
    seq![tag_byte(tag_of(e))] + match e {
        EntryView::Class(c) => u16_bytes(c.name_index),
        EntryView::Fieldref(f) => u16_bytes(f.class_index) + u16_bytes(f.name_and_type_index),
        EntryView::Methodref(m) => u16_bytes(m.class_index) + u16_bytes(m.name_and_type_index),
        EntryView::InterfaceMethodref(m) => u16_bytes(m.class_index) + u16_bytes(
            m.name_and_type_index,
        ),
        EntryView::String(s) => u16_bytes(s.utf8_index),
        EntryView::NameAndType(n) => u16_bytes(n.name_index) + u16_bytes(n.descriptor_index),
        EntryView::Utf8(b) => u16_bytes(b.len() as u16) + b,
    }
}

/// The records of `es` one after another.
pub open spec fn encode_pool(es: Seq<EntryView>) -> Seq<u8>
    decreases es.len(),
{
    if es.len() == 0 {
        Seq::empty()
    } else {
        encode_entry(es[0]) + encode_pool(es.drop_first())
    }
}

/// A record can be encoded: UTF-8 text fits its two-byte length.
pub open spec fn encodable(e: EntryView) -> bool {
    e is Utf8 ==> e->Utf8_0.len() <= u16::MAX
}

/// The start of a class buffer: magic, versions, pool count and pool.
pub open spec fn class_prefix(magic: u32, minor: u16, major: u16, es: Seq<EntryView>) -> Seq<u8> {
    u32_bytes(magic) + u16_bytes(minor) + u16_bytes(major) + u16_bytes((es.len() + 1) as u16)
        + encode_pool(es)
}

proof fn lemma_u16_bytes(s: Seq<u8>, p: int, v: u16)
    requires
        0 <= p,
        p + 2 <= s.len(),
        s[p] == u16_bytes(v)[0],
        s[p + 1] == u16_bytes(v)[1],
    ensures
        be_u16(s, p) == v,
{
    assert((v / 0x100) as u8 as int * 0x100 + (v % 0x100) as u8 as int == v) by (nonlinear_arith);
}

proof fn lemma_tag_from_byte(e: EntryView)
    ensures
        tag_from_byte(tag_byte(tag_of(e))) == Some(tag_of(e)),
{
    let b = tag_byte(tag_of(e));
    assert(exists|t: ConstantTag| #[trigger] tag_byte(t) == b);
    let t = choose|t: ConstantTag| #[trigger] tag_byte(t) == b;
    lemma_tag_byte_injective(t, tag_of(e));
}

/// Decoding an encoded record, wherever it stands, gives the record back
/// and consumes exactly its bytes.
pub proof fn lemma_entry_round_trip(pre: Seq<u8>, e: EntryView, tail: Seq<u8>)
    requires
        encodable(e),
    ensures
        spec_constant_pool(pre + encode_entry(e) + tail, pre.len() as int) == Ok::<
            (EntryView, nat),
            crate::reader::DecodeError,
        >((e, encode_entry(e).len())),
{
    let enc = encode_entry(e);
    let s = pre + enc + tail;
    let p = pre.len() as int;
    assert forall|i: int| 0 <= i < enc.len() implies s[p + i] == enc[i] by {
        assert(s[p + i] == (pre + enc)[p + i]);
    }
    lemma_tag_from_byte(e);
    match e {
        EntryView::Class(c) => {
            lemma_u16_bytes(s, p + 1, c.name_index);
        },
        EntryView::Fieldref(f) => {
            lemma_u16_bytes(s, p + 1, f.class_index);
            lemma_u16_bytes(s, p + 3, f.name_and_type_index);
        },
        EntryView::Methodref(m) => {
            lemma_u16_bytes(s, p + 1, m.class_index);
            lemma_u16_bytes(s, p + 3, m.name_and_type_index);
        },
        EntryView::InterfaceMethodref(m) => {
            lemma_u16_bytes(s, p + 1, m.class_index);
            lemma_u16_bytes(s, p + 3, m.name_and_type_index);
        },
        EntryView::String(x) => {
            lemma_u16_bytes(s, p + 1, x.utf8_index);
        },
        EntryView::NameAndType(n) => {
            lemma_u16_bytes(s, p + 1, n.name_index);
            lemma_u16_bytes(s, p + 3, n.descriptor_index);
        },
        EntryView::Utf8(b) => {
            lemma_u16_bytes(s, p + 1, b.len() as u16);
            assert(s.subrange(p + 3, p + 3 + b.len()) =~= b) by {
                assert forall|i: int| 0 <= i < b.len() implies s.subrange(p + 3, p + 3 + b.len())[i]
                    == b[i] by {
                    assert(enc[3 + i] == b[i]);
                }
            }
        },
    }
}

/// Decoding the encoding of a pool, wherever it stands, reproduces the same
/// records in the same order, and consumes exactly the encoded bytes.
pub proof fn lemma_pool_round_trip(pre: Seq<u8>, es: Seq<EntryView>, tail: Seq<u8>)
    requires
        forall|i: int| 0 <= i < es.len() ==> encodable(#[trigger] es[i]),
    ensures
        spec_pool(pre + encode_pool(es) + tail, pre.len() as int, es.len()) == Ok::<
            (Seq<EntryView>, nat),
            crate::reader::DecodeError,
        >((es, encode_pool(es).len())),
    decreases es.len(),
{
    if es.len() > 0 {
        let e = es[0];
        let rest = es.drop_first();
        assert(encodable(es[0]));
        assert(pre + encode_pool(es) + tail =~= pre + encode_entry(e) + (encode_pool(rest) + tail));
        lemma_entry_round_trip(pre, e, encode_pool(rest) + tail);
        assert(pre + encode_pool(es) + tail =~= (pre + encode_entry(e)) + encode_pool(rest) + tail);
        assert forall|i: int| 0 <= i < rest.len() implies encodable(#[trigger] rest[i]) by {
            assert(rest[i] == es[i + 1]);
        }
        lemma_pool_round_trip(pre + encode_entry(e), rest, tail);
        assert(seq![e] + rest =~= es);
    } else {
        assert(es =~= Seq::<EntryView>::empty());
    }
}

/// A class buffer built from a pool model decodes, if at all, to that same
/// pool, with the same UTF-8 text at each index.
pub proof fn lemma_class_pool_round_trip(
    magic: u32,
    minor: u16,
    major: u16,
    es: Seq<EntryView>,
    tail: Seq<u8>,
)
    requires
        es.len() < u16::MAX,
        forall|i: int| 0 <= i < es.len() ==> encodable(#[trigger] es[i]),
    ensures
        ({
            let d = spec_class(class_prefix(magic, minor, major, es) + tail);
            d is Ok ==> d->Ok_0.0.pool == es && utf8_map(d->Ok_0.0.pool) == utf8_map(es)
        }),
{
    let head = u32_bytes(magic) + u16_bytes(minor) + u16_bytes(major) + u16_bytes(
        (es.len() + 1) as u16,
    );
    let s = class_prefix(magic, minor, major, es) + tail;
    assert(head.len() == 10);
    assert(s =~= head + encode_pool(es) + tail);
    assert(s[8] == head[8] && s[9] == head[9]);
    lemma_u16_bytes(s, 8, (es.len() + 1) as u16);
    assert(be_u16(s, 8) != 0 && be_u16(s, 8) - 1 == es.len());
    lemma_pool_round_trip(head, es, tail);
}

/// A run of `u16` fields, each most significant byte first.
pub open spec fn u16s(f: Seq<u16>) -> Seq<u8>
    decreases f.len(),
{
    if f.len() == 0 {
        Seq::empty()
    } else {
        u16_bytes(f[0]) + u16s(f.drop_first())
    }
}

proof fn lemma_u16s_len(f: Seq<u16>)
    ensures
        u16s(f).len() == 2 * f.len(),
    decreases f.len(),
{
    if f.len() > 0 {
        lemma_u16s_len(f.drop_first());
    }
}

/// Field `i` of an encoded run reads back as itself, wherever the run stands.
proof fn lemma_u16s_at(pre: Seq<u8>, f: Seq<u16>, tail: Seq<u8>, i: int)
    requires
        0 <= i < f.len(),
    ensures
        be_u16(pre + u16s(f) + tail, pre.len() + 2 * i) == f[i],
    decreases f.len(),
{
    let rest = f.drop_first();
    lemma_u16s_len(rest);
    let s = pre + u16s(f) + tail;
    assert(s =~= (pre + u16_bytes(f[0])) + u16s(rest) + tail);
    if i == 0 {
        assert(s[pre.len() as int] == u16_bytes(f[0])[0]);
        assert(s[pre.len() as int + 1] == u16_bytes(f[0])[1]);
        lemma_u16_bytes(s, pre.len() as int, f[0]);
    } else {
        lemma_u16s_at(pre + u16_bytes(f[0]), rest, tail, i - 1);
    }
}

proof fn lemma_be_u32_halves(s: Seq<u8>, x: int)
    requires
        0 <= x,
        x + 4 <= s.len(),
    ensures
        be_u32(s, x) == be_u16(s, x) as int * 0x10000 + be_u16(s, x + 2) as int,
{
}

/// A class buffer whose pool is `es`, followed by `f` and then by code bytes:
/// `f` holds the class's flags and indices, the interface and field counts,
/// the method count, the first method's flags, name index, descriptor index
/// and attribute count, and the first attribute's name index, byte length
/// (two halves), stack and local limits, and code length (two halves).
pub open spec fn class_with_code(
    magic: u32,
    minor: u16,
    major: u16,
    es: Seq<EntryView>,
    f: Seq<u16>,
    code: Seq<u8>,
    tail: Seq<u8>,
) -> Seq<u8> {
    class_prefix(magic, minor, major, es) + u16s(f) + (code + tail)
}

/// When the first method's first attribute is a code attribute whose code
/// reaches, after instructions that decode, a byte outside the supported set,
/// decoding the class fails with that byte: it is never skipped.
pub proof fn lemma_class_rejects_unsupported_opcode(
    magic: u32,
    minor: u16,
    major: u16,
    es: Seq<EntryView>,
    f: Seq<u16>,
    pre: Seq<u8>,
    op: u8,
    rest: Seq<u8>,
    tail: Seq<u8>,
)
    requires
        es.len() < u16::MAX,
        forall|i: int| 0 <= i < es.len() ==> encodable(#[trigger] es[i]),
        f.len() == 17,
        f[5] >= 1,
        f[9] >= 1,
        spec_text(utf8_map(es), f[7]) is Ok,
        spec_text(utf8_map(es), f[8]) is Ok,
        utf8_map(es).contains_key(f[10]),
        utf8_map(es)[f[10]] == code_name(),
        f[15] as int * 0x10000 + f[16] as int == pre.len() + 1 + rest.len(),
        spec_instructions(pre, 0) is Ok,
        !supported(op),
    ensures
        spec_class(class_with_code(magic, minor, major, es, f, pre + seq![op] + rest, tail))
            == Err::<(crate::class::ClassView, nat), DecodeError>(DecodeError::UnsupportedOpcode(op)),
{
    let code = pre + seq![op] + rest;
    let t = utf8_map(es);
    let hdr = u32_bytes(magic) + u16_bytes(minor) + u16_bytes(major) + u16_bytes(
        (es.len() + 1) as u16,
    );
    let head = class_prefix(magic, minor, major, es);
    let s = class_with_code(magic, minor, major, es, f, code, tail);
    assert(hdr.len() == 10);
    assert(s =~= hdr + encode_pool(es) + (u16s(f) + (code + tail)));
    assert(s[8] == hdr[8] && s[9] == hdr[9]);
    lemma_u16_bytes(s, 8, (es.len() + 1) as u16);
    lemma_pool_round_trip(hdr, es, u16s(f) + (code + tail));
    let q = head.len() as int;
    assert(q == 10 + encode_pool(es).len());
    lemma_u16s_len(f);
    assert forall|i: int| 0 <= i < 17 implies be_u16(s, q + 2 * i) == f[i] by {
        lemma_u16s_at(head, f, code + tail, i);
    }
    assert(be_u16(s, q + 10) == f[5]);
    assert(be_u16(s, q + 14) == f[7]);
    assert(be_u16(s, q + 16) == f[8]);
    assert(be_u16(s, q + 18) == f[9]);
    assert(be_u16(s, q + 20) == f[10]);
    assert(be_u16(s, q + 30) == f[15]);
    assert(be_u16(s, q + 32) == f[16]);
    lemma_be_u32_halves(s, q + 30);
    let n = code.len() as int;
    assert(be_u32(s, q + 30) as int == n);
    assert(s.subrange(q + 34, q + 34 + n) =~= code);
    lemma_unsupported_opcode_fails(pre, op, rest);
    assert(spec_code(s, q + 26, t) == Err::<(crate::class::attribute::code::CodeView, nat), DecodeError>(
        DecodeError::UnsupportedOpcode(op),
    ));
    assert(spec_attribute(s, q + 20, t) == Err::<(crate::class::attribute::AttributeView, nat), DecodeError>(
        DecodeError::UnsupportedOpcode(op),
    ));
    assert(spec_attributes(s, q + 20, f[9] as nat, t) == Err::<
        (Seq<crate::class::attribute::AttributeView>, nat),
        DecodeError,
    >(DecodeError::UnsupportedOpcode(op)));
    assert(spec_method(s, q + 12, t) == Err::<(crate::class::method::MethodView, nat), DecodeError>(
        DecodeError::UnsupportedOpcode(op),
    ));
    assert(spec_methods(s, q + 12, f[5] as nat, t) == Err::<
        (Seq<crate::class::method::MethodView>, nat),
        DecodeError,
    >(DecodeError::UnsupportedOpcode(op)));
}

} // verus!
