//! Method records: access flags, resolved name and descriptor, attributes.
use vstd::prelude::*;
use vstd::utf8::{decode_utf8, valid_utf8};

use crate::class::attribute::code::{CodeAttribute, CodeView};
use crate::class::attribute::{
    attributes_view, decode_attributes, lemma_attributes_view_push,
    spec_attributes, Attribute, AttributeView,
};
use crate::class::constant_pool_table::{texts, Utf8Table};
use crate::reader::{
    available, be_u16, decodes_to_view, read_u16, utf8_string, DecodeError, Decoded,
    ReaderResult,
};

verus! {

broadcast use vstd::std_specs::hash::group_hash_axioms;

/// A pool index that should have named a UTF-8 entry.
#[derive(Clone, Copy, Debug, PartialEq, Eq, Structural)]
pub struct NotFoundUtf8 {
    pub index: u16,
}

impl NotFoundUtf8 {
    pub fn new(index: u16) -> (r: Self)
        ensures
            r.index == index,
    {
        Self { index }
    }
}

pub struct MethodInfo {
    pub access_flags: u16,
    pub name: String,
    pub descriptor: String,
    pub attribute_info: Vec<Attribute>,
}

pub ghost struct MethodView {
    pub access_flags: u16,
    pub name: Seq<char>,
    pub descriptor: Seq<char>,
    pub attributes: Seq<AttributeView>,
}

impl View for MethodInfo {
    type V = MethodView;

    open spec fn view(&self) -> MethodView {
        MethodView {
            access_flags: self.access_flags,
            name: self.name@,
            descriptor: self.descriptor@,
            attributes: attributes_view(self.attribute_info@),
        }
    }
}

/// The text of the UTF-8 record at `index` of `t`, as characters.
pub open spec fn spec_text(t: Map<u16, Seq<u8>>, index: u16) -> Result<Seq<char>, DecodeError> {
    if !t.contains_key(index) {
        Err(DecodeError::NotFoundUtf8(NotFoundUtf8 { index }))
    } else if !valid_utf8(t[index]) {
        Err(DecodeError::InvalidUtf8(index))
    } else {
        Ok(decode_utf8(t[index]))
    }
}

/// The method record at `p`: access flags, name index, descriptor index,
/// then a counted list of attributes.
pub open spec fn spec_method(s: Seq<u8>, p: int, t: Map<u16, Seq<u8>>) -> Decoded<MethodView> {
    if !available(s, p, 4) {
        Err(DecodeError::Truncated)
    } else {
        match spec_text(t, be_u16(s, p + 2)) {
            Err(e) => Err(e),
            Ok(name) => if !available(s, p + 4, 2) {
                Err(DecodeError::Truncated)
            } else {
                match spec_text(t, be_u16(s, p + 4)) {
                    Err(e) => Err(e),
                    Ok(descriptor) => if !available(s, p + 6, 2) {
                        Err(DecodeError::Truncated)
                    } else {
                        match spec_attributes(s, p + 8, be_u16(s, p + 6) as nat, t) {
                            Err(e) => Err(e),
                            Ok((attributes, k)) => Ok(
                                (
                                    MethodView {
                                        access_flags: be_u16(s, p),
                                        name,
                                        descriptor,
                                        attributes,
                                    },
                                    8 + k,
                                ),
                            ),
                        }
                    },
                }
            },
        }
    }
}

/// The code attributes among `s`, in order.
pub open spec fn code_attributes(s: Seq<AttributeView>) -> Seq<CodeView>
    decreases s.len(),
{
    if s.len() == 0 {
        Seq::empty()
    } else {
        let rest = code_attributes(s.drop_last());
        match s.last() {
            AttributeView::Code(c) => rest.push(c),
            _ => rest,
        }
    }
}

/// Looks up the text at `index` of `utf8_table` and turns it into a string.
fn resolve_text(utf8_table: &Utf8Table, index: u16) -> (r: Result<String, DecodeError>)
    ensures
        match spec_text(texts(utf8_table@), index) {
            Ok(t) => r is Ok && r->Ok_0@ == t,
            Err(e) => r == Err::<String, DecodeError>(e),
        },
{
    match utf8_table.get(&index) {
        None => Err(DecodeError::NotFoundUtf8(NotFoundUtf8::new(index))),
        Some(u) => match utf8_string(u.bytes.as_slice()) {
            Some(text) => Ok(text),
            None => Err(DecodeError::InvalidUtf8(index)),
        },
    }
}

impl MethodInfo {
    /// Decodes the method record at `pos`, resolving its name, descriptor and
    /// attribute names through `utf8_table`.
    pub fn new(bytes: &[u8], pos: usize, utf8_table: &Utf8Table) -> (r: ReaderResult<Self>)
        ensures
            decodes_to_view(r, pos, spec_method(bytes@, pos as int, texts(utf8_table@))),
    {
        let (access_flags, at1) = read_u16(bytes, pos)?;
        let (name_index, at2) = read_u16(bytes, at1)?;
        let name = resolve_text(utf8_table, name_index)?;
        let (descriptor_index, at3) = read_u16(bytes, at2)?;
        let descriptor = resolve_text(utf8_table, descriptor_index)?;
        let (attributes_count, at4) = read_u16(bytes, at3)?;
        let (attribute_info, end) = decode_attributes(bytes, at4, attributes_count, utf8_table)?;
        Ok((Self { access_flags, name, descriptor, attribute_info }, end))
    }

    /// The method's code attributes, in order. A method without one has no
    /// code this engine can run.
    pub fn code_attribute(&self) -> (r: Vec<&CodeAttribute>)
        ensures
            r@.map_values(|c: &CodeAttribute| c@) == code_attributes(self@.attributes),
    {
        let ghost s = self.attribute_info@;
        let mut out: Vec<&CodeAttribute> = Vec::new();
        let mut i: usize = 0;
        while i < self.attribute_info.len()
            invariant
                s == self.attribute_info@,
                i <= s.len(),
                out@.map_values(|c: &CodeAttribute| c@) == code_attributes(
                    attributes_view(s.subrange(0, i as int)),
                ),
            decreases s.len() - i,
        {
            proof {
                assert(s.subrange(0, i + 1) =~= s.subrange(0, i as int).push(s[i as int]));
                lemma_attributes_view_push(s.subrange(0, i as int), s[i as int]);
                let v = attributes_view(s.subrange(0, i + 1));
                assert(v.drop_last() =~= attributes_view(s.subrange(0, i as int)));
            }
            if let Attribute::Code(c) = &self.attribute_info[i] {
                let ghost before = out@;
                out.push(c);
                assert(out@.map_values(|c: &CodeAttribute| c@) =~= before.map_values(
                    |c: &CodeAttribute| c@,
                ).push(c@));
            }
            i = i + 1;
        }
        assert(s.subrange(0, s.len() as int) =~= s);
        out
    }
}

} // verus!
