//! The decoded class and its top-level decoder.
pub mod attribute;
pub mod constant_pool;
pub mod constant_pool_table;
pub mod encoding;
pub mod method;

use vstd::prelude::*;

use constant_pool::{spec_constant_pool, ConstantPool, EntryView};
use constant_pool_table::{texts, utf8_map, ConstantPoolTable, Utf8Table};
use method::{spec_method, MethodInfo, MethodView};
use crate::reader::{
    available, be_u16, be_u32, joined, read_u16, read_u32, DecodeError, Decoded, ReaderResult,
};

verus! {

/// A decoded class. Interfaces, fields and class-level attributes are
/// counted, not decoded.
pub struct Class {
    pub magic: u32,
    pub minor_version: u16,
    pub major_version: u16,
    pub constant_pool_count: u16,
    pub cp_info: ConstantPoolTable,
    pub access_flags: u16,
    pub this_class: u16,
    pub super_class: u16,
    pub interfaces_count: u16,
    pub field_count: u16,
    pub method_count: u16,
    pub methods: Vec<MethodInfo>,
    pub attributes_count: u16,
}

pub ghost struct ClassView {
    pub magic: u32,
    pub minor_version: u16,
    pub major_version: u16,
    pub constant_pool_count: u16,
    pub pool: Seq<EntryView>,
    pub access_flags: u16,
    pub this_class: u16,
    pub super_class: u16,
    pub interfaces_count: u16,
    pub field_count: u16,
    pub method_count: u16,
    pub methods: Seq<MethodView>,
    pub attributes_count: u16,
}

impl View for Class {
    type V = ClassView;

    open spec fn view(&self) -> ClassView {
        ClassView {
            magic: self.magic,
            minor_version: self.minor_version,
            major_version: self.major_version,
            constant_pool_count: self.constant_pool_count,
            pool: self.cp_info@,
            access_flags: self.access_flags,
            this_class: self.this_class,
            super_class: self.super_class,
            interfaces_count: self.interfaces_count,
            field_count: self.field_count,
            method_count: self.method_count,
            methods: self.methods@.map_values(|m: MethodInfo| m@),
            attributes_count: self.attributes_count,
        }
    }
}

impl Class {
    pub open spec fn wf(&self) -> bool {
        self.cp_info.wf()
    }
}

/// `n` constant-pool records one after another from `p`.
pub open spec fn spec_pool(s: Seq<u8>, p: int, n: nat) -> Decoded<Seq<EntryView>>
    decreases n,
{
    if n == 0 {
        Ok((Seq::empty(), 0))
    } else {
        match spec_constant_pool(s, p) {
            Err(e) => Err(e),
            Ok((e, k)) => joined(seq![e], k, spec_pool(s, p + k, (n - 1) as nat)),
        }
    }
}

/// `n` method records one after another from `p`.
pub open spec fn spec_methods(s: Seq<u8>, p: int, n: nat, t: Map<u16, Seq<u8>>) -> Decoded<
    Seq<MethodView>,
>
    decreases n,
{
    if n == 0 {
        Ok((Seq::empty(), 0))
    } else {
        match spec_method(s, p, t) {
            Err(e) => Err(e),
            Ok((m, k)) => joined(seq![m], k, spec_methods(s, p + k, (n - 1) as nat, t)),
        }
    }
}

/// A whole class at the start of `s`: the header, the constant pool, the
/// class's own flags and indices, the interface and field counts, the
/// methods and the class attribute count. Method and attribute names resolve
/// through the UTF-8 records of the pool just decoded.
pub open spec fn spec_class(s: Seq<u8>) -> Decoded<ClassView> {
    if !available(s, 0, 10) {
        Err(DecodeError::Truncated)
    } else {
        let count = be_u16(s, 8);
        if count == 0 {
            Err(DecodeError::ZeroPoolCount)
        } else {
            match spec_pool(s, 10, (count - 1) as nat) {
                Err(e) => Err(e),
                Ok((pool, k)) => {
                    let q = 10 + k as int;
                    if !available(s, q, 12) {
                        Err(DecodeError::Truncated)
                    } else {
                        let method_count = be_u16(s, q + 10);
                        match spec_methods(s, q + 12, method_count as nat, utf8_map(pool)) {
                            Err(e) => Err(e),
                            Ok((methods, k2)) => {
                                let r = q + 12 + k2 as int;
                                if !available(s, r, 2) {
                                    Err(DecodeError::Truncated)
                                } else {
                                    Ok(
                                        (
                                            ClassView {
                                                magic: be_u32(s, 0),
                                                minor_version: be_u16(s, 4),
                                                major_version: be_u16(s, 6),
                                                constant_pool_count: count,
                                                pool,
                                                access_flags: be_u16(s, q),
                                                this_class: be_u16(s, q + 2),
                                                super_class: be_u16(s, q + 4),
                                                interfaces_count: be_u16(s, q + 6),
                                                field_count: be_u16(s, q + 8),
                                                method_count,
                                                methods,
                                                attributes_count: be_u16(s, r),
                                            },
                                            (r + 2) as nat,
                                        ),
                                    )
                                }
                            },
                        }
                    }
                },
            }
        }
    }
}

/// Decodes `entries` constant-pool records from `pos` into a table.
pub fn decode_pool(bytes: &[u8], pos: usize, entries: u16) -> (r: ReaderResult<ConstantPoolTable>)
    ensures
        match spec_pool(bytes@, pos as int, entries as nat) {
            Ok((v, k)) => r is Ok && r->Ok_0.0@ == v && r->Ok_0.1 == pos + k && r->Ok_0.0.wf(),
            Err(e) => r == Err::<(ConstantPoolTable, usize), DecodeError>(e),
        },
{
    let ghost s = bytes@;
    let mut cp_info = ConstantPoolTable::new();
    let mut cur = pos;
    let mut i: u16 = 0;
    proof {
        if let Ok((v, k)) = spec_pool(s, pos as int, entries as nat) {
            assert(Seq::<EntryView>::empty() + v =~= v);
        }
    }
    while i < entries
        invariant
            s == bytes@,
            i <= entries,
            pos <= cur,
            cp_info.wf(),
            spec_pool(s, pos as int, entries as nat) == joined(
                cp_info@,
                (cur - pos) as nat,
                spec_pool(s, cur as int, (entries - i) as nat),
            ),
        decreases entries - i,
    {
        let (constant_pool, next) = match ConstantPool::new(bytes, cur) {
            Ok(v) => v,
            Err(e) => return Err(e),
        };
        proof {
            let rest = spec_pool(s, next as int, (entries - i - 1) as nat);
            if let Ok((r, k)) = rest {
                assert(cp_info@ + (seq![constant_pool@] + r) =~= cp_info@.push(constant_pool@)
                    + r);
            }
        }
        cp_info.push(constant_pool);
        cur = next;
        i = i + 1;
    }
    assert(cp_info@ + Seq::<EntryView>::empty() =~= cp_info@);
    Ok((cp_info, cur))
}

/// Decodes `count` method records from `pos`, resolving names through
/// `utf8_table`.
pub fn decode_methods(bytes: &[u8], pos: usize, count: u16, utf8_table: &Utf8Table) -> (r:
    ReaderResult<Vec<MethodInfo>>)
    ensures
        match spec_methods(bytes@, pos as int, count as nat, texts(utf8_table@)) {
            Ok((v, k)) => r is Ok && r->Ok_0.0@.map_values(|m: MethodInfo| m@) == v && r->Ok_0.1
                == pos + k,
            Err(e) => r == Err::<(Vec<MethodInfo>, usize), DecodeError>(e),
        },
{
    let ghost s = bytes@;
    let ghost t = texts(utf8_table@);
    let mut methods: Vec<MethodInfo> = Vec::new();
    let mut cur = pos;
    let mut j: u16 = 0;
    proof {
        if let Ok((v, k)) = spec_methods(s, pos as int, count as nat, t) {
            assert(Seq::<MethodView>::empty() + v =~= v);
        }
    }
    while j < count
        invariant
            s == bytes@,
            t == texts(utf8_table@),
            j <= count,
            pos <= cur,
            spec_methods(s, pos as int, count as nat, t) == joined(
                methods@.map_values(|m: MethodInfo| m@),
                (cur - pos) as nat,
                spec_methods(s, cur as int, (count - j) as nat, t),
            ),
        decreases count - j,
    {
        let (method, next) = match MethodInfo::new(bytes, cur, utf8_table) {
            Ok(v) => v,
            Err(e) => return Err(e),
        };
        proof {
            let before = methods@.map_values(|m: MethodInfo| m@);
            assert(methods@.push(method).map_values(|m: MethodInfo| m@) =~= before.push(method@));
            let rest = spec_methods(s, next as int, (count - j - 1) as nat, t);
            if let Ok((r, k)) = rest {
                assert(before + (seq![method@] + r) =~= before.push(method@) + r);
            }
        }
        methods.push(method);
        cur = next;
        j = j + 1;
    }
    assert(methods@.map_values(|m: MethodInfo| m@) + Seq::<MethodView>::empty()
        =~= methods@.map_values(|m: MethodInfo| m@));
    Ok((methods, cur))
}

impl Class {
    /// Decodes a whole class from the start of `bytes`; the position
    /// returned is just past it.
    pub fn new(bytes: &[u8]) -> (r: ReaderResult<Self>)
        ensures
            match spec_class(bytes@) {
                Ok((v, k)) => r is Ok && r->Ok_0.0@ == v && r->Ok_0.1 == k && r->Ok_0.0.wf(),
                Err(e) => r == Err::<(Class, usize), DecodeError>(e),
            },
    {
        let (magic, at1) = read_u32(bytes, 0)?;
        let (minor_version, at2) = read_u16(bytes, at1)?;
        let (major_version, at3) = read_u16(bytes, at2)?;
        let (constant_pool_count, pool_start) = read_u16(bytes, at3)?;
        if constant_pool_count == 0 {
            return Err(DecodeError::ZeroPoolCount);
        }
        let entries: u16 = constant_pool_count - 1;
        let (cp_info, pool_end) = decode_pool(bytes, pool_start, entries)?;
        let utf8_table = cp_info.utf8info();
        let (access_flags, q1) = read_u16(bytes, pool_end)?;
        let (this_class, q2) = read_u16(bytes, q1)?;
        let (super_class, q3) = read_u16(bytes, q2)?;
        let (interfaces_count, q4) = read_u16(bytes, q3)?;
        let (field_count, q5) = read_u16(bytes, q4)?;
        let (method_count, methods_start) = read_u16(bytes, q5)?;
        let (methods, methods_end) = decode_methods(bytes, methods_start, method_count, &utf8_table)?;
        let (attributes_count, end) = read_u16(bytes, methods_end)?;
        Ok(
            (
                Self {
                    magic,
                    minor_version,
                    major_version,
                    constant_pool_count,
                    cp_info,
                    access_flags,
                    this_class,
                    super_class,
                    interfaces_count,
                    field_count,
                    method_count,
                    methods,
                    attributes_count,
                },
                end,
            ),
        )
    }
}

} // verus!
