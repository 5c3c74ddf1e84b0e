//! One constant-pool record and its tag-dispatched decoder.
pub mod class_info;
pub mod fieldref_info;
pub mod interface_methodref_info;
pub mod methodref_info;
pub mod name_and_type_info;
pub mod string_info;
pub mod tag;
pub mod utf8_info;

use vstd::prelude::*;

use crate::reader::{
    decodes_to_view, read_u8, spec_u8, DecodeError, Decoded, ReaderResult,
};
use class_info::{spec_class_info, ClassInfo};
use fieldref_info::{spec_fieldref_info, FieldrefInfo};
use interface_methodref_info::{spec_interface_methodref_info, InterfaceMethodrefInfo};
use methodref_info::{spec_methodref_info, MethodrefInfo};
use name_and_type_info::{spec_name_and_type_info, NameAndTypeInfo};
use string_info::{spec_string_info, StringInfo};
use tag::{tag_byte, ConstantTag, NotFoundConstantTagError};
use utf8_info::{spec_utf8_info, Utf8Info};

verus! {

/// The body of a decoded constant-pool record.
pub enum ConstantPoolInfo {
    ClassInfo(ClassInfo),
    FieldrefInfo(FieldrefInfo),
    MethodrefInfo(MethodrefInfo),
    InterfaceMethodrefInfo(InterfaceMethodrefInfo),
    StringInfo(StringInfo),
    NameAndTypeInfo(NameAndTypeInfo),
    Utf8Info(Utf8Info),
}

/// What a constant-pool record holds, with UTF-8 text as its bytes.
pub ghost enum EntryView {
    Class(ClassInfo),
    Fieldref(FieldrefInfo),
    Methodref(MethodrefInfo),
    InterfaceMethodref(InterfaceMethodrefInfo),
    String(StringInfo),
    NameAndType(NameAndTypeInfo),
    Utf8(Seq<u8>),
}

impl View for ConstantPoolInfo {
    type V = EntryView;

    open spec fn view(&self) -> EntryView {
        match self {
            ConstantPoolInfo::ClassInfo(i) => EntryView::Class(*i),
            ConstantPoolInfo::FieldrefInfo(i) => EntryView::Fieldref(*i),
            ConstantPoolInfo::MethodrefInfo(i) => EntryView::Methodref(*i),
            ConstantPoolInfo::InterfaceMethodrefInfo(i) => EntryView::InterfaceMethodref(*i),
            ConstantPoolInfo::StringInfo(i) => EntryView::String(*i),
            ConstantPoolInfo::NameAndTypeInfo(i) => EntryView::NameAndType(*i),
            ConstantPoolInfo::Utf8Info(i) => EntryView::Utf8(i@),
        }
    }
}

/// The tag that a record of this kind carries.
pub open spec fn tag_of(e: EntryView) -> ConstantTag {
    match e {
        EntryView::Class(_) => ConstantTag::Class,
        EntryView::Fieldref(_) => ConstantTag::Fieldref,
        EntryView::Methodref(_) => ConstantTag::Methodref,
        EntryView::InterfaceMethodref(_) => ConstantTag::InterfaceMethodref,
        EntryView::String(_) => ConstantTag::String_,
        EntryView::NameAndType(_) => ConstantTag::NameAndType,
        EntryView::Utf8(_) => ConstantTag::Utf8,
    }
}

/// Lifts the decoding of one record kind to an entry.
pub open spec fn entry_of<T>(d: Decoded<T>, f: spec_fn(T) -> EntryView) -> Decoded<EntryView> {
    match d {
        Ok((v, k)) => Ok((f(v), k)),
        Err(e) => Err(e),
    }
}

/// The record body at `p` for a record tagged `tag`.
pub open spec fn spec_info(tag: ConstantTag, s: Seq<u8>, p: int) -> Decoded<EntryView> {
    match tag {
        ConstantTag::Class => entry_of(spec_class_info(s, p), |v| EntryView::Class(v)),
        ConstantTag::Fieldref => entry_of(spec_fieldref_info(s, p), |v| EntryView::Fieldref(v)),
        ConstantTag::Methodref => entry_of(spec_methodref_info(s, p), |v| EntryView::Methodref(v)),
        ConstantTag::InterfaceMethodref => entry_of(
            spec_interface_methodref_info(s, p),
            |v| EntryView::InterfaceMethodref(v),
        ),
        ConstantTag::String_ => entry_of(spec_string_info(s, p), |v| EntryView::String(v)),
        ConstantTag::NameAndType => entry_of(
            spec_name_and_type_info(s, p),
            |v| EntryView::NameAndType(v),
        ),
        ConstantTag::Utf8 => entry_of(spec_utf8_info(s, p), |v| EntryView::Utf8(v)),
        _ => Err(DecodeError::UnknownTag(NotFoundConstantTagError { num: tag_byte(tag) })),
    }
}

/// The tag that `num` stands for, if any.
pub open spec fn tag_from_byte(num: u8) -> Option<ConstantTag> {
    if exists|t: ConstantTag| tag_byte(t) == num {
        Some(choose|t: ConstantTag| tag_byte(t) == num)
    } else {
        None
    }
}

/// The whole record at `p`: its tag byte, then the body that tag calls for.
pub open spec fn spec_constant_pool(s: Seq<u8>, p: int) -> Decoded<EntryView> {
    match spec_u8(s, p) {
        Err(e) => Err(e),
        Ok((num, _)) => match tag_from_byte(num) {
            None => Err(DecodeError::UnknownTag(NotFoundConstantTagError { num })),
            Some(tag) => match spec_info(tag, s, p + 1) {
                Ok((e, k)) => Ok((e, k + 1)),
                Err(e) => Err(e),
            },
        },
    }
}

impl ConstantPoolInfo {
    /// The tag that a record of this kind carries.
    pub fn tag(&self) -> (r: ConstantTag)
        ensures
            r == tag_of(self@),
    {
        match self {
            ConstantPoolInfo::ClassInfo(_) => ConstantTag::Class,
            ConstantPoolInfo::FieldrefInfo(_) => ConstantTag::Fieldref,
            ConstantPoolInfo::MethodrefInfo(_) => ConstantTag::Methodref,
            ConstantPoolInfo::InterfaceMethodrefInfo(_) => ConstantTag::InterfaceMethodref,
            ConstantPoolInfo::StringInfo(_) => ConstantTag::String_,
            ConstantPoolInfo::NameAndTypeInfo(_) => ConstantTag::NameAndType,
            ConstantPoolInfo::Utf8Info(_) => ConstantTag::Utf8,
        }
    }

    /// Decodes the body of a record whose tag has been read. Tags whose
    /// records this decoder does not represent are refused.
    pub fn new(tag: &ConstantTag, bytes: &[u8], pos: usize) -> (r: ReaderResult<Self>)
        ensures
            decodes_to_view(r, pos, spec_info(*tag, bytes@, pos as int)),
    {
        match tag {
            ConstantTag::Class => {
                let (info, end) = ClassInfo::new(bytes, pos)?;
                Ok((Self::ClassInfo(info), end))
            },
            ConstantTag::Fieldref => {
                let (info, end) = FieldrefInfo::new(bytes, pos)?;
                Ok((Self::FieldrefInfo(info), end))
            },
            ConstantTag::Methodref => {
                let (info, end) = MethodrefInfo::new(bytes, pos)?;
                Ok((Self::MethodrefInfo(info), end))
            },
            ConstantTag::InterfaceMethodref => {
                let (info, end) = InterfaceMethodrefInfo::new(bytes, pos)?;
                Ok((Self::InterfaceMethodrefInfo(info), end))
            },
            ConstantTag::String_ => {
                let (info, end) = StringInfo::new(bytes, pos)?;
                Ok((Self::StringInfo(info), end))
            },
            ConstantTag::NameAndType => {
                let (info, end) = NameAndTypeInfo::new(bytes, pos)?;
                Ok((Self::NameAndTypeInfo(info), end))
            },
            ConstantTag::Utf8 => {
                let (info, end) = Utf8Info::new(bytes, pos)?;
                Ok((Self::Utf8Info(info), end))
            },
            _ => Err(DecodeError::UnknownTag(NotFoundConstantTagError::new(tag.to_u8()))),
        }
    }
}

/// One decoded constant-pool record: its tag and its body.
pub struct ConstantPool {
    pub tag: ConstantTag,
    pub info: ConstantPoolInfo,
}

impl View for ConstantPool {
    type V = EntryView;

    open spec fn view(&self) -> EntryView {
        self.info@
    }
}

impl ConstantPool {
    /// The tag agrees with the body.
    pub open spec fn wf(&self) -> bool {
        self.tag == tag_of(self.info@)
    }

    pub fn new(bytes: &[u8], pos: usize) -> (r: ReaderResult<Self>)
        ensures
            decodes_to_view(r, pos, spec_constant_pool(bytes@, pos as int)),
            r is Ok ==> r->Ok_0.0.wf(),
    {
        let (tag_number, body) = read_u8(bytes, pos)?;
        let tag = match ConstantTag::from_u8(tag_number) {
            Some(t) => t,
            None => {
                return Err(DecodeError::UnknownTag(NotFoundConstantTagError::new(tag_number)));
            },
        };
        proof {
            assert(tag_byte(tag) == tag_number);
            lemma_tag_byte_injective(tag, tag_from_byte(tag_number)->0);
        }
        let (info, end) = ConstantPoolInfo::new(&tag, bytes, body)?;
        Ok((ConstantPool { tag, info }, end))
    }
}

/// No two tags share a byte.
pub proof fn lemma_tag_byte_injective(a: ConstantTag, b: ConstantTag)
    requires
        tag_byte(a) == tag_byte(b),
    ensures
        a == b,
{
}

} // verus!
