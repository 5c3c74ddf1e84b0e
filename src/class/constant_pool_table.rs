//! The constant pool as a whole: records addressed by 1-based index.
use std::collections::HashMap;
use std::slice::Iter;

use vstd::prelude::*;
use vstd::std_specs::hash::{group_hash_axioms, obeys_key_model};
use vstd::std_specs::iter::IteratorSpec;

use crate::class::constant_pool::tag::ConstantTag;
use crate::class::constant_pool::utf8_info::Utf8Info;
use crate::class::constant_pool::{tag_of, ConstantPool, ConstantPoolInfo, EntryView};

verus! {

broadcast use group_hash_axioms;

/// The UTF-8 records of a pool, by their 1-based pool index.
pub type Utf8Table = HashMap<u16, Utf8Info>;

/// The text that each index of a `Utf8Table` stands for.
pub open spec fn texts(t: Map<u16, Utf8Info>) -> Map<u16, Seq<u8>> {
    t.map_values(|u: Utf8Info| u@)
}

/// The UTF-8 records of `pool`, by 1-based index.
pub open spec fn utf8_map(pool: Seq<EntryView>) -> Map<u16, Seq<u8>> {
    Map::new(
        |k: u16| 1 <= k <= pool.len() && pool[k - 1] is Utf8,
        |k: u16| pool[k - 1]->Utf8_0,
    )
}

/// Why a pool index could not be resolved.
#[derive(Clone, Copy, Debug, PartialEq, Eq, Structural)]
pub enum ResolutionError {
    /// No record at this index.
    NotFound(u16),
    /// The record at this index is of another kind than the one asked for.
    TypeMismatch(u16),
}

/// The record at 1-based `index` if it is of kind `expected`.
pub open spec fn spec_resolve(pool: Seq<EntryView>, index: u16, expected: ConstantTag) -> Result<
    EntryView,
    ResolutionError,
> {
    if 1 <= index <= pool.len() {
        if tag_of(pool[index - 1]) == expected {
            Ok(pool[index - 1])
        } else {
            Err(ResolutionError::TypeMismatch(index))
        }
    } else {
        Err(ResolutionError::NotFound(index))
    }
}

/// The text of the UTF-8 record at 1-based `index`.
pub open spec fn spec_utf8_text(pool: Seq<EntryView>, index: u16) -> Result<
    Seq<u8>,
    ResolutionError,
> {
    match spec_resolve(pool, index, ConstantTag::Utf8) {
        Ok(e) => Ok(e->Utf8_0),
        Err(e) => Err(e),
    }
}

/// Resolution succeeds exactly on the indices from 1 to the pool's size
/// whose record is of the kind asked for; the index just below that range
/// and the one just above it are not found.
pub proof fn lemma_resolve_exactly_in_range(pool: Seq<EntryView>, index: u16, expected: ConstantTag)
    ensures
        spec_resolve(pool, index, expected) is Ok <==> (1 <= index <= pool.len() && tag_of(
            pool[index - 1],
        ) == expected),
        spec_resolve(pool, 0, expected) == Err::<EntryView, ResolutionError>(
            ResolutionError::NotFound(0),
        ),
        pool.len() < u16::MAX ==> spec_resolve(pool, (pool.len() + 1) as u16, expected) == Err::<
            EntryView,
            ResolutionError,
        >(ResolutionError::NotFound((pool.len() + 1) as u16)),
{
}

pub struct ConstantPoolTable {
    pub table: Vec<ConstantPool>,
}

impl View for ConstantPoolTable {
    type V = Seq<EntryView>;

    open spec fn view(&self) -> Seq<EntryView> {
        self.table@.map_values(|c: ConstantPool| c@)
    }
}

impl ConstantPoolTable {
    /// Every record's tag agrees with its body.
    pub open spec fn wf(&self) -> bool {
        forall|i: int| 0 <= i < self.table@.len() ==> #[trigger] self.table@[i].wf()
    }

    pub fn new() -> (r: Self)
        ensures
            r@ == Seq::<EntryView>::empty(),
            r.wf(),
    {
        ConstantPoolTable { table: Vec::new() }
    }

    /// The records in pool order.
    pub fn iter(&self) -> (r: Iter<'_, ConstantPool>)
        ensures
            r.remaining() == self.table@.as_ref(),
    {
        self.table.as_slice().iter()
    }

    /// Appends a record; it gets the next index.
    pub fn push(&mut self, item: ConstantPool)
        ensures
            final(self)@ == old(self)@.push(item@),
            old(self).wf() && item.wf() ==> final(self).wf(),
    {
        self.table.push(item);
        assert(self@ =~= old(self)@.push(item@));
    }

    pub fn len(&self) -> (r: usize)
        ensures
            r == self@.len(),
    {
        self.table.len()
    }

    /// The record at 1-based `index` if it is of kind `expected`; a missing
    /// index and a record of another kind are told apart.
    pub fn resolve(&self, index: u16, expected: ConstantTag) -> (r: Result<
        &ConstantPoolInfo,
        ResolutionError,
    >)
        ensures
            match spec_resolve(self@, index, expected) {
                Ok(e) => r is Ok && r->Ok_0@ == e,
                Err(e) => r == Err::<&ConstantPoolInfo, ResolutionError>(e),
            },
    {
        if index == 0 || index as usize > self.table.len() {
            return Err(ResolutionError::NotFound(index));
        }
        let entry = &self.table[index as usize - 1];
        if entry.info.tag() == expected {
            Ok(&entry.info)
        } else {
            Err(ResolutionError::TypeMismatch(index))
        }
    }

    /// The UTF-8 record at 1-based `index`.
    pub fn utf8_text(&self, index: u16) -> (r: Result<&Utf8Info, ResolutionError>)
        ensures
            match spec_utf8_text(self@, index) {
                Ok(t) => r is Ok && r->Ok_0@ == t,
                Err(e) => r == Err::<&Utf8Info, ResolutionError>(e),
            },
    {
        match self.resolve(index, ConstantTag::Utf8) {
            Ok(ConstantPoolInfo::Utf8Info(u)) => Ok(u),
            Ok(_) => Err(ResolutionError::TypeMismatch(index)),
            Err(e) => Err(e),
        }
    }

    /// The UTF-8 records, keyed by 1-based index. Records past the largest
    /// index a `u16` can name are left out.
    pub fn utf8info(&self) -> (r: Utf8Table)
        ensures
            texts(r@) == utf8_map(self@),
    {
        assert(obeys_key_model::<u16>());
        let mut map: Utf8Table = HashMap::new();
        let n = self.table.len();
        let mut i: usize = 0;
        while i < n && i < 0xffff
            invariant
                n == self.table@.len(),
                i <= n,
                i <= 0xffff,
                forall|k: u16| #[trigger]
                    map@.contains_key(k) <==> (1 <= k <= i && self@[k - 1] is Utf8),
                forall|k: u16| #[trigger]
                    map@.contains_key(k) ==> map@[k]@ == self@[k - 1]->Utf8_0,
            decreases n - i,
        {
            if let ConstantPoolInfo::Utf8Info(u) = &self.table[i].info {
                map.insert((i + 1) as u16, u.duplicate());
            }
            i = i + 1;
        }
        assert(texts(map@) =~= utf8_map(self@));
        map
    }
}

} // verus!
