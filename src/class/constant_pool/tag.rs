//! Constant-pool tags and the byte values that stand for them.
use vstd::prelude::*;

verus! {

/// A constant-pool tag byte that names no known tag.
#[derive(Clone, Copy, Debug, PartialEq, Eq, Structural)]
pub struct NotFoundConstantTagError {
    pub num: u8,
}

impl NotFoundConstantTagError {
    pub fn new(num: u8) -> (r: Self)
        ensures
            r.num == num,
    {
        Self { num }
    }
}

/// The kinds of constant-pool record that the class format defines.
#[derive(Clone, Copy, Debug, PartialEq, Eq, Structural)]
pub enum ConstantTag {
    Class,
    Fieldref,
    Methodref,
    InterfaceMethodref,
    String_,
    Integer,
    Float,
    Long,
    Double,
    NameAndType,
    Utf8,
    MethodHandle,
    MethodType,
    InvokeDynamic,
}

/// The byte that stands for a tag in the binary format.
pub open spec fn tag_byte(t: ConstantTag) -> u8 {
    match t {
        ConstantTag::Utf8 => 1,
        ConstantTag::Integer => 3,
        ConstantTag::Float => 4,
        ConstantTag::Long => 5,
        ConstantTag::Double => 6,
        ConstantTag::Class => 7,
        ConstantTag::String_ => 8,
        ConstantTag::Fieldref => 9,
        ConstantTag::Methodref => 10,
        ConstantTag::InterfaceMethodref => 11,
        ConstantTag::NameAndType => 12,
        ConstantTag::MethodHandle => 15,
        ConstantTag::MethodType => 16,
        ConstantTag::InvokeDynamic => 18,
    }
}

impl ConstantTag {
    /// The tag that `num` stands for, if any.
    pub fn from_u8(num: u8) -> (r: Option<ConstantTag>)
        ensures
            match r {
                Some(t) => tag_byte(t) == num,
                None => forall|t: ConstantTag| tag_byte(t) != num,
            },
    {
        match num {
            1 => Some(ConstantTag::Utf8),
            3 => Some(ConstantTag::Integer),
            4 => Some(ConstantTag::Float),
            5 => Some(ConstantTag::Long),
            6 => Some(ConstantTag::Double),
            7 => Some(ConstantTag::Class),
            8 => Some(ConstantTag::String_),
            9 => Some(ConstantTag::Fieldref),
            10 => Some(ConstantTag::Methodref),
            11 => Some(ConstantTag::InterfaceMethodref),
            12 => Some(ConstantTag::NameAndType),
            15 => Some(ConstantTag::MethodHandle),
            16 => Some(ConstantTag::MethodType),
            18 => Some(ConstantTag::InvokeDynamic),
            _ => None,
        }
    }

    /// The byte that stands for this tag.
    pub fn to_u8(&self) -> (r: u8)
        ensures
            r == tag_byte(*self),
    {
        match self {
            ConstantTag::Utf8 => 1,
            ConstantTag::Integer => 3,
            ConstantTag::Float => 4,
            ConstantTag::Long => 5,
            ConstantTag::Double => 6,
            ConstantTag::Class => 7,
            ConstantTag::String_ => 8,
            ConstantTag::Fieldref => 9,
            ConstantTag::Methodref => 10,
            ConstantTag::InterfaceMethodref => 11,
            ConstantTag::NameAndType => 12,
            ConstantTag::MethodHandle => 15,
            ConstantTag::MethodType => 16,
            ConstantTag::InvokeDynamic => 18,
        }
    }
}

} // verus!
