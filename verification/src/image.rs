//! In-memory model of an executable image as this tool reads and patches it:
//! an entry point, the loadable segments, and a table of named symbol slots,
//! each slot carrying the bytes currently stored at its location.

use vstd::prelude::*;

verus! {

/// The named symbol slots this tool resolves in a loader image. The five
/// table slots double as the tag identifying each produced table image.
#[derive(Clone, Copy, PartialEq, Eq, Structural, Debug)]
pub enum SymbolId {
    /// Level-0 table covering the lower (identity-mapped) half.
    BootLvl0Lower,
    /// Level-1 table holding the 1 GiB identity mapping.
    BootLvl1Lower,
    /// Level-0 table covering the upper (kernel) half.
    BootLvl0Upper,
    /// Level-1 table routing the kernel's region to the level-2 table.
    BootLvl1Upper,
    /// Level-2 table holding the kernel's 2 MiB block mappings.
    BootLvl2Upper,
    /// Anchor: first address of the bootstrap image, base for rebasing.
    BootstrapStart,
    /// Slot receiving the kernel's entry-point address.
    KernelEntry,
}

/// One program segment of an executable image.
#[derive(Clone, Copy, PartialEq, Eq, Structural, Debug)]
pub struct Segment {
    /// Address the segment is linked to run at.
    pub virt_addr: u64,
    /// Address the segment is loaded at.
    pub phys_addr: u64,
    /// Size of the segment in memory, in bytes.
    pub mem_size: u64,
    /// Whether the segment is mapped at run time.
    pub loadable: bool,
}

/// One resolved symbol slot: its identity, linked address, declared size,
/// and the bytes currently stored in its region of the image.
pub struct Symbol {
    pub id: SymbolId,
    pub vaddr: u64,
    pub size: u64,
    pub data: Vec<u8>,
}

impl Symbol {
    /// A slot's byte buffer matches its declared size.
    pub open spec fn wf(self) -> bool {
        self.data@.len() == self.size
    }
}

/// Errors of the bootstrap generator.
#[derive(Clone, Copy, PartialEq, Eq, Structural, Debug)]
pub enum CoreError {
    /// The kernel image declares no loadable segment.
    NoLoadableSegments,
    /// Two loadable segments disagree on `virt_addr - phys_addr`.
    InconsistentOffset,
    /// A required symbol is absent from the loader image.
    MissingSymbol,
    /// A destination symbol is smaller than the data to be written.
    SymbolTooSmall,
}

/// Model of a parsed executable image.
pub struct ElfFile {
    /// Entry-point address.
    pub entry: u64,
    /// Program segments, in file order.
    pub segments: Vec<Segment>,
    /// Resolved symbol slots, at most one per `SymbolId`.
    pub symbols: Vec<Symbol>,
}

impl ElfFile {
    /// Well-formed image: every slot's buffer matches its size, and no two
    /// slots share an identity.
    pub open spec fn wf(self) -> bool {
        &&& forall|i: int|
            0 <= i < self.symbols@.len() ==> (#[trigger] self.symbols@[i]).wf()
        &&& forall|i: int, j: int|
            0 <= i < j < self.symbols@.len() ==> (#[trigger] self.symbols@[i]).id != (
            #[trigger] self.symbols@[j]).id
    }

    /// Whether the image's symbol table resolves `id`.
    pub open spec fn has_symbol(self, id: SymbolId) -> bool {
        exists|i: int| 0 <= i < self.symbols@.len() && (#[trigger] self.symbols@[i]).id == id
    }

    /// Position of the slot resolving `id` (meaningful when `has_symbol`).
    pub open spec fn symbol_index(self, id: SymbolId) -> int {
        choose|i: int| 0 <= i < self.symbols@.len() && (#[trigger] self.symbols@[i]).id == id
    }

    /// The slot resolving `id` (meaningful when `has_symbol`).
    pub open spec fn symbol(self, id: SymbolId) -> Symbol {
        self.symbols@[self.symbol_index(id)]
    }

    /// In a well-formed image a matching position is the matching position.
    pub proof fn lemma_symbol_index_agrees(self, id: SymbolId, i: int)
        requires
            self.wf(),
            0 <= i < self.symbols@.len(),
            self.symbols@[i].id == id,
        ensures
            self.has_symbol(id),
            self.symbol_index(id) == i,
            self.symbol(id) == self.symbols@[i],
    {
        assert(self.has_symbol(id));
        let j = self.symbol_index(id);
        if j != i {
            if j < i {
                assert(self.symbols@[j].id != self.symbols@[i].id);
            } else {
                assert(self.symbols@[i].id != self.symbols@[j].id);
            }
        }
    }

    /// Two well-formed images with the same identities at the same positions
    /// resolve a symbol at the same position.
    pub proof fn lemma_symbol_index_stable(e1: ElfFile, e2: ElfFile, id: SymbolId)
        requires
            e1.wf(),
            e2.wf(),
            e1.symbols@.len() == e2.symbols@.len(),
            forall|j: int|
                0 <= j < e1.symbols@.len() ==> (#[trigger] e2.symbols@[j]).id
                    == e1.symbols@[j].id,
            e1.has_symbol(id),
        ensures
            e2.has_symbol(id),
            e2.symbol_index(id) == e1.symbol_index(id),
    {
        let i = e1.symbol_index(id);
        assert(0 <= i < e1.symbols@.len() && e1.symbols@[i].id == id);
        e2.lemma_symbol_index_agrees(id, i);
    }

    /// A change confined to the slot of `id` leaves every other slot as it
    /// was.
    pub proof fn lemma_untouched_symbol(pre: ElfFile, post: ElfFile, id: SymbolId, other: SymbolId)
        requires
            pre.wf(),
            post.wf(),
            post.symbols@.len() == pre.symbols@.len(),
            forall|j: int|
                0 <= j < pre.symbols@.len() ==> (#[trigger] post.symbols@[j]).id
                    == pre.symbols@[j].id,
            pre.has_symbol(id),
            forall|j: int|
                0 <= j < pre.symbols@.len() && j != pre.symbol_index(id)
                    ==> #[trigger] post.symbols@[j] == pre.symbols@[j],
            other != id,
        ensures
            post.has_symbol(other) <==> pre.has_symbol(other),
            pre.has_symbol(other) ==> post.symbol(other) == pre.symbol(other)
                && post.symbol_index(other) == pre.symbol_index(other),
    {
        if pre.has_symbol(other) {
            ElfFile::lemma_symbol_index_stable(pre, post, other);
            let io = pre.symbol_index(other);
            let ii = pre.symbol_index(id);
            assert(0 <= io < pre.symbols@.len() && pre.symbols@[io].id == other);
            assert(0 <= ii < pre.symbols@.len() && pre.symbols@[ii].id == id);
            assert(io != ii);
        }
        if post.has_symbol(other) {
            ElfFile::lemma_symbol_index_stable(post, pre, other);
        }
    }

    /// Position of the slot resolving `id`, or `None` when the image has no
    /// such slot.
    fn index_of(&self, id: SymbolId) -> (r: Option<usize>)
        requires
            self.wf(),
        ensures
            r is Some <==> self.has_symbol(id),
            r matches Some(i) ==> i < self.symbols@.len() && self.symbols@[i as int].id == id
                && i == self.symbol_index(id),
    {
        let n = self.symbols.len();
        for i in 0..n
            invariant
                n == self.symbols@.len(),
                self.wf(),
                forall|j: int| 0 <= j < i ==> (#[trigger] self.symbols@[j]).id != id,
        {
            if self.symbols[i].id == id {
                proof {
                    self.lemma_symbol_index_agrees(id, i as int);
                }
                return Some(i);
            }
        }
        None
    }

    /// Looks `id` up in the symbol table; returns its linked address and
    /// declared size.
    pub fn find_symbol(&self, id: SymbolId) -> (r: Result<(u64, u64), CoreError>)
        requires
            self.wf(),
        ensures
            r is Ok <==> self.has_symbol(id),
            r matches Ok(t) ==> t.0 == self.symbol(id).vaddr && t.1 == self.symbol(id).size,
            r matches Err(e) ==> e == CoreError::MissingSymbol,
    {
        match self.index_of(id) {
            Some(i) => Ok((self.symbols[i].vaddr, self.symbols[i].size)),
            None => Err(CoreError::MissingSymbol),
        }
    }

    /// Writes `bytes` at the start of the slot resolving `id`, leaving the
    /// slot's remaining bytes as they were. Fails, changing nothing, when the
    /// slot is absent or its declared size is smaller than `bytes`.
    pub fn write_symbol(&mut self, id: SymbolId, bytes: &[u8]) -> (r: Result<(), CoreError>)
        requires
            old(self).wf(),
        ensures
            final(self).wf(),
            r is Ok <==> old(self).has_symbol(id) && bytes@.len() <= old(self).symbol(id).size,
            r == Err::<(), CoreError>(CoreError::MissingSymbol) <==> !old(self).has_symbol(id),
            r == Err::<(), CoreError>(CoreError::SymbolTooSmall) <==> old(self).has_symbol(id) && bytes@.len()
                > old(self).symbol(id).size,
            r is Err ==> *final(self) == *old(self),
            final(self).entry == old(self).entry,
            final(self).segments@ == old(self).segments@,
            final(self).symbols@.len() == old(self).symbols@.len(),
            forall|j: int|
                0 <= j < old(self).symbols@.len() ==> (#[trigger] final(self).symbols@[j]).id
                    == old(self).symbols@[j].id,
            r is Ok ==> {
                let i = old(self).symbol_index(id);
                &&& forall|j: int|
                    0 <= j < old(self).symbols@.len() && j != i ==> #[trigger] final(
                    self).symbols@[j] == old(self).symbols@[j]
                &&& final(self).symbols@[i].id == id
                &&& final(self).symbols@[i].vaddr == old(self).symbol(id).vaddr
                &&& final(self).symbols@[i].size == old(self).symbol(id).size
                &&& final(self).symbols@[i].data@ == bytes@ + old(self).symbol(id).data@.skip(
                    bytes@.len() as int)
            },
            r is Ok ==> final(self).has_symbol(id) && final(self).symbol_index(id) == old(
                self).symbol_index(id),
    {
        let ghost orig = *self;
        let pos: usize = match self.index_of(id) {
            Some(i) => i,
            None => {
                return Err(CoreError::MissingSymbol);
            },
        };
        let len = bytes.len();
        if self.symbols[pos].size < len as u64 {
            return Err(CoreError::SymbolTooSmall);
        }
        let mut sym = self.symbols.remove(pos);
        let mut data: Vec<u8> = Vec::new();
        for j in 0..len
            invariant
                len == bytes@.len(),
                data@ == bytes@.take(j as int),
        {
            data.push(bytes[j]);
            proof {
                assert(data@ =~= bytes@.take(j + 1));
            }
        }
        proof {
            assert(data@ =~= bytes@);
            assert(data@ =~= bytes@ + sym.data@.subrange(len as int, len as int));
        }
        let old_len = sym.data.len();
        for j in len..old_len
            invariant
                len <= j <= old_len,
                old_len == sym.data@.len(),
                len == bytes@.len(),
                sym.data@ == orig.symbol(id).data@,
                data@ == bytes@ + sym.data@.subrange(len as int, j as int),
        {
            data.push(sym.data[j]);
            proof {
                assert(data@ =~= bytes@ + sym.data@.subrange(len as int, j + 1));
            }
        }
        proof {
            assert(data@ =~= bytes@ + orig.symbol(id).data@.skip(len as int));
        }
        sym.data = data;
        let ghost newsym = sym;
        self.symbols.insert(pos, sym);
        proof {
            assert(self.symbols@ =~= orig.symbols@.update(pos as int, newsym));
            assert forall|i: int| 0 <= i < self.symbols@.len() implies (
            #[trigger] self.symbols@[i]).wf() by {
                if i != pos as int {
                    assert(self.symbols@[i] == orig.symbols@[i]);
                }
            }
            assert forall|i: int, j: int|
                0 <= i < j < self.symbols@.len() implies (#[trigger] self.symbols@[i]).id != (
            #[trigger] self.symbols@[j]).id by {
                assert(orig.symbols@[i].id != orig.symbols@[j].id);
            }
            self.lemma_symbol_index_agrees(id, pos as int);
        }
        Ok(())
    }
}

} // verus!
