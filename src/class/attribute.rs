//! Attributes: named, length-prefixed records dispatched on their name.
pub mod code;
pub mod line_number_table;

use vstd::prelude::*;

use crate::class::constant_pool_table::{texts, Utf8Table};
use crate::class::method::NotFoundUtf8;
use crate::reader::{
    available, be_u16, decodes_to_view, read_u16, read_u32, remaining, same_bytes, DecodeError,
    joined, Decoded, ReaderResult,
};
use code::{code_view, spec_code, CodeAttribute, CodeView};
use line_number_table::{spec_line_number_table, LineNumber, LineNumberTableAttribute};

verus! {

broadcast use vstd::std_specs::hash::group_hash_axioms;

/// An attribute whose name this decoder does not know; holds the pool index
/// of that name.
#[derive(Clone, Copy, Debug, PartialEq, Eq, Structural)]
pub struct NotFoundAttribute {
    pub name_index: u16,
}

impl NotFoundAttribute {
    pub fn new(name_index: u16) -> (r: Self)
        ensures
            r.name_index == name_index,
    {
        Self { name_index }
    }
}

/// A decoded attribute of one of the kinds this decoder knows.
pub enum Attribute {
    Code(CodeAttribute),
    LineNumberTable(LineNumberTableAttribute),
}

pub ghost enum AttributeView {
    Code(CodeView),
    LineNumberTable(Seq<LineNumber>),
}

pub open spec fn attribute_view(a: Attribute) -> AttributeView
    decreases a,
{
    match a {
        Attribute::Code(c) => AttributeView::Code(code_view(c)),
        Attribute::LineNumberTable(l) => AttributeView::LineNumberTable(l@),
    }
}

pub open spec fn attributes_view(s: Seq<Attribute>) -> Seq<AttributeView>
    decreases s,
{
    if s.len() == 0 {
        Seq::empty()
    } else {
        attributes_view(s.subrange(0, s.len() - 1)).push(attribute_view(s[s.len() - 1]))
    }
}

impl View for Attribute {
    type V = AttributeView;

    open spec fn view(&self) -> AttributeView {
        attribute_view(*self)
    }
}

/// The name that selects a code attribute: "Code".
pub open spec fn code_name() -> Seq<u8> {
    seq![0x43u8, 0x6f, 0x64, 0x65]
}

/// The name that selects a line-number table: "LineNumberTable".
pub open spec fn line_number_table_name() -> Seq<u8> {
    seq![
        0x4cu8, 0x69, 0x6e, 0x65, 0x4e, 0x75, 0x6d, 0x62, 0x65, 0x72, 0x54, 0x61, 0x62, 0x6c,
        0x65,
    ]
}

/// The attribute at `p`: a name index, a byte length, then the body that
/// the name calls for. Names are looked up in `t`.
pub open spec fn spec_attribute(s: Seq<u8>, p: int, t: Map<u16, Seq<u8>>) -> Decoded<AttributeView>
    decreases remaining(s.len() as int, p), 0nat,
{
    if !available(s, p, 6) {
        Err(DecodeError::Truncated)
    } else {
        let name_index = be_u16(s, p);
        if !t.contains_key(name_index) {
            Err(DecodeError::NotFoundUtf8(NotFoundUtf8 { index: name_index }))
        } else if t[name_index] == code_name() {
            match spec_code(s, p + 6, t) {
                Ok((c, k)) => Ok((AttributeView::Code(c), k + 6)),
                Err(e) => Err(e),
            }
        } else if t[name_index] == line_number_table_name() {
            match spec_line_number_table(s, p + 6) {
                Ok((l, k)) => Ok((AttributeView::LineNumberTable(l), k + 6)),
                Err(e) => Err(e),
            }
        } else {
            Err(DecodeError::UnknownAttribute(NotFoundAttribute { name_index }))
        }
    }
}

/// `n` attributes one after another from `p`.
pub open spec fn spec_attributes(s: Seq<u8>, p: int, n: nat, t: Map<u16, Seq<u8>>) -> Decoded<
    Seq<AttributeView>,
>
    decreases remaining(s.len() as int, p), n,
{
    if n == 0 {
        Ok((Seq::empty(), 0))
    } else {
        match spec_attribute(s, p, t) {
            Err(e) => Err(e),
            Ok((a, k)) => match spec_attributes(s, p + k, (n - 1) as nat, t) {
                Err(e) => Err(e),
                Ok((rest, k2)) => Ok((seq![a] + rest, k + k2)),
            },
        }
    }
}

/// `r` is the outcome of decoding attributes from `pos` whose meaning is `d`.
pub open spec fn attributes_decoded(
    r: ReaderResult<Vec<Attribute>>,
    pos: usize,
    d: Decoded<Seq<AttributeView>>,
) -> bool {
    match d {
        Ok((v, k)) => r is Ok && attributes_view(r->Ok_0.0@) == v && r->Ok_0.1 == pos + k,
        Err(e) => r == Err::<(Vec<Attribute>, usize), DecodeError>(e),
    }
}

pub proof fn lemma_attributes_view_push(s: Seq<Attribute>, a: Attribute)
    ensures
        attributes_view(s.push(a)) == attributes_view(s).push(attribute_view(a)),
{
    assert(s.push(a).subrange(0, s.len() as int) =~= s);
}

impl Attribute {
    /// Decodes the attribute at `pos`, resolving its name through
    /// `utf8_table`.
    pub fn new(bytes: &[u8], pos: usize, utf8_table: &Utf8Table) -> (r: ReaderResult<Self>)
        ensures
            decodes_to_view(r, pos, spec_attribute(bytes@, pos as int, texts(utf8_table@))),
        decreases remaining(bytes@.len() as int, pos as int), 0nat,
    {
        let (attribute_name_index, at1) = read_u16(bytes, pos)?;
        let (_attribute_length, body) = read_u32(bytes, at1)?;
        let name = match utf8_table.get(&attribute_name_index) {
            Some(u) => u,
            None => {
                return Err(DecodeError::NotFoundUtf8(NotFoundUtf8::new(attribute_name_index)));
            },
        };
        let code: [u8; 4] = [0x43, 0x6f, 0x64, 0x65];
        let line_number_table: [u8; 15] = [
            0x4c, 0x69, 0x6e, 0x65, 0x4e, 0x75, 0x6d, 0x62, 0x65, 0x72, 0x54, 0x61, 0x62, 0x6c,
            0x65,
        ];
        assert(code@ =~= code_name());
        assert(line_number_table@ =~= line_number_table_name());
        if same_bytes(name.bytes.as_slice(), code.as_slice()) {
            let (attribute, end) = CodeAttribute::new(bytes, body, utf8_table)?;
            Ok((Self::Code(attribute), end))
        } else if same_bytes(name.bytes.as_slice(), line_number_table.as_slice()) {
            let (attribute, end) = LineNumberTableAttribute::new(bytes, body)?;
            Ok((Self::LineNumberTable(attribute), end))
        } else {
            Err(DecodeError::UnknownAttribute(NotFoundAttribute::new(attribute_name_index)))
        }
    }
}

/// Decodes `count` attributes one after another from `pos`.
pub fn decode_attributes(bytes: &[u8], pos: usize, count: u16, utf8_table: &Utf8Table) -> (r:
    ReaderResult<Vec<Attribute>>)
    ensures
        attributes_decoded(r, pos, spec_attributes(bytes@, pos as int, count as nat, texts(utf8_table@))),
    decreases remaining(bytes@.len() as int, pos as int), count,
{
    let ghost s = bytes@;
    let ghost t = texts(utf8_table@);
    let mut attributes: Vec<Attribute> = Vec::new();
    let mut cur = pos;
    let mut i: u16 = 0;
    proof {
        if let Ok((v, k)) = spec_attributes(s, pos as int, count as nat, t) {
            assert(Seq::<AttributeView>::empty() + v =~= v);
        }
    }
    while i < count
        invariant
            s == bytes@,
            t == texts(utf8_table@),
            i <= count,
            pos <= cur,
            spec_attributes(s, pos as int, count as nat, t) == joined(
                attributes_view(attributes@),
                (cur - pos) as nat,
                spec_attributes(s, cur as int, (count - i) as nat, t),
            ),
        decreases count - i,
    {
        let (attribute, next) = match Attribute::new(bytes, cur, utf8_table) {
            Ok(v) => v,
            Err(e) => return Err(e),
        };
        proof {
            lemma_attributes_view_push(attributes@, attribute);
            let rest = spec_attributes(s, next as int, (count - i - 1) as nat, t);
            if let Ok((r, k)) = rest {
                assert(attributes_view(attributes@) + (seq![attribute@] + r) =~= attributes_view(
                    attributes@,
                ).push(attribute@) + r);
            }
        }
        attributes.push(attribute);
        cur = next;
        i = i + 1;
    }
    proof {
        assert(attributes_view(attributes@) + Seq::<AttributeView>::empty() =~= attributes_view(
            attributes@,
        ));
    }
    Ok((attributes, cur))
}

} // verus!
