//! A guest instance: the per-instance internal-field cells, the linear
//! memories and tables, the globals, and the module description they were
//! built from.

use vstd::prelude::*;
use crate::fields::FIELD_COUNT;
use crate::module_info::{
    ModuleInfo,
    MemoryDescriptor,
    DataInitializer,
    ElemInitializer,
    PAGE_BYTES,
};

verus! {

/// A vector of `n` zero bytes.
pub fn zero_bytes(n: usize) -> (r: Vec<u8>)
    ensures
        r@.len() == n,
        forall|i: int| 0 <= i < n ==> r@[i] == 0,
        r@ =~= Seq::new(n as nat, |i: int| 0u8),
{
    let mut v: Vec<u8> = Vec::new();
    let mut i: usize = 0;
    while i < n
        invariant
            i <= n,
            v@.len() == i,
            forall|j: int| 0 <= j < i ==> v@[j] == 0,
        decreases n - i,
    {
        v.push(0);
        i = i + 1;
    }
    v
}

/// A vector of `n` zero elements.
pub fn zero_words(n: usize) -> (r: Vec<u32>)
    ensures
        r@ =~= Seq::new(n as nat, |i: int| 0u32),
{
    let mut v: Vec<u32> = Vec::new();
    let mut i: usize = 0;
    while i < n
        invariant
            i <= n,
            v@.len() == i,
            forall|j: int| 0 <= j < i ==> v@[j] == 0,
        decreases n - i,
    {
        v.push(0);
        i = i + 1;
    }
    proof {
        assert(v@ =~= Seq::new(n as nat, |i: int| 0u32));
    }
    v
}

/// `data` written into `s` at `off`; the rest of `s` is kept.
pub open spec fn spec_write_range(s: Seq<u8>, off: int, data: Seq<u8>) -> Seq<u8> {
    Seq::new(
        s.len(),
        |i: int|
            if off <= i < off + data.len() {
                data[i - off]
            } else {
                s[i]
            },
    )
}

/// `elems` written into `t` at `off`; the rest of `t` is kept.
pub open spec fn spec_write_elems(t: Seq<u32>, off: int, elems: Seq<u32>) -> Seq<u32> {
    Seq::new(
        t.len(),
        |i: int|
            if off <= i < off + elems.len() {
                elems[i - off]
            } else {
                t[i]
            },
    )
}

/// One guest linear memory.
#[derive(Clone, PartialEq, Eq, Debug)]
pub struct LinearMemory {
    /// The current bytes; always a whole number of pages.
    pub data: Vec<u8>,
    /// The declared minimum, in pages; reset shrinks back to it.
    pub minimum: u32,
    /// The declared maximum, in pages, if bounded.
    pub maximum: Option<u32>,
}

impl LinearMemory {
    /// Well-formed: whole pages, at least the minimum, within the maximum.
    pub open spec fn wf(self) -> bool {
        &&& self.data@.len() as int % (PAGE_BYTES as int) == 0
        &&& self.data@.len() >= self.minimum * PAGE_BYTES
        &&& self.maximum matches Some(max) ==> self.data@.len() <= max * PAGE_BYTES
        &&& self.data@.len() <= MAX_MEMORY_BYTES
    }

    /// The current size in pages.
    pub open spec fn spec_pages(self) -> int {
        self.data@.len() as int / (PAGE_BYTES as int)
    }

    /// The descriptor this memory was built from.
    pub open spec fn spec_descriptor(self) -> MemoryDescriptor {
        MemoryDescriptor { minimum: self.minimum, maximum: self.maximum }
    }

    /// A fresh memory at its declared minimum, zero-filled.
    pub fn with_descriptor(descriptor: MemoryDescriptor) -> (r: LinearMemory)
        requires
            descriptor.wf(),
        ensures
            r.wf(),
            r.minimum == descriptor.minimum,
            r.maximum == descriptor.maximum,
            r.data@ =~= spec_zero_memory(descriptor),
    {
        proof {
            lemma_pages_bytes(descriptor.minimum);
        }
        let bytes = (descriptor.minimum as usize) * (PAGE_BYTES as usize);
        let data = zero_bytes(bytes);
        proof {
            vstd::arithmetic::div_mod::lemma_mod_multiples_basic(
                descriptor.minimum as int,
                PAGE_BYTES as int,
            );
        }
        LinearMemory { data, minimum: descriptor.minimum, maximum: descriptor.maximum }
    }

    /// The current size in bytes.
    pub fn current_length(&self) -> (r: usize)
        ensures
            r == self.data@.len(),
    {
        self.data.len()
    }

    /// The current size in pages.
    pub fn pages(&self) -> (r: u32)
        requires
            self.wf(),
        ensures
            r == self.spec_pages(),
    {
        proof {
            vstd::arithmetic::div_mod::lemma_div_is_ordered(
                self.data@.len() as int,
                MAX_MEMORY_BYTES as int,
                PAGE_BYTES as int,
            );
            assert(MAX_MEMORY_BYTES as int / (PAGE_BYTES as int) == 65535);
            vstd::arithmetic::div_mod::lemma_div_pos_is_pos(
                self.data@.len() as int,
                PAGE_BYTES as int,
            );
        }
        (self.data.len() / (PAGE_BYTES as usize)) as u32
    }

    /// Grow by `delta` pages, zero-filled; returns the previous page count,
    /// or fails when the declared maximum would be exceeded.
    pub fn grow(&mut self, delta: u32) -> (r: Result<u32, String>)
        requires
            old(self).wf(),
        ensures
            final(self).wf(),
            final(self).minimum == old(self).minimum,
            final(self).maximum == old(self).maximum,
            r matches Ok(prev) ==> {
                &&& prev == old(self).spec_pages()
                &&& final(self).spec_pages() == old(self).spec_pages() + delta
                &&& final(self).data@ == old(self).data@ + Seq::new(
                    (delta * PAGE_BYTES) as nat,
                    |i: int| 0u8,
                )
            },
            r is Err ==> *final(self) == *old(self),
            r is Ok <==> ({
                let target = old(self).spec_pages() + delta;
                &&& target <= 65535
                &&& (old(self).maximum matches Some(max) ==> target <= max)
            }),
    {
        let prev = self.pages();
        if delta > 65535 - prev {
            return Err("memory grown past the page space".to_owned());
        }
        let target = prev + delta;
        match self.maximum {
            Some(max) if target > max => {
                return Err("memory grown past its declared maximum".to_owned());
            },
            _ => {},
        }
        proof {
            lemma_pages_bytes(delta);
            vstd::arithmetic::div_mod::lemma_fundamental_div_mod(
                self.data@.len() as int,
                PAGE_BYTES as int,
            );
            assert((prev + delta) * PAGE_BYTES == prev * PAGE_BYTES + delta * PAGE_BYTES)
                by (nonlinear_arith);
            assert(prev * PAGE_BYTES == self.data@.len()) by (nonlinear_arith)
                requires
                    self.data@.len() as int == PAGE_BYTES as int * (self.data@.len() as int
                        / PAGE_BYTES as int) + self.data@.len() as int % PAGE_BYTES as int,
                    self.data@.len() as int % PAGE_BYTES as int == 0,
                    prev == self.data@.len() as int / PAGE_BYTES as int,
            ;
        }
        let ghost old_data = self.data@;
        let extra = zero_bytes((delta as usize) * (PAGE_BYTES as usize));
        let mut i: usize = 0;
        while i < extra.len()
            invariant
                i <= extra@.len(),
                self.data@ == old_data + extra@.subrange(0, i as int),
                self.minimum == old(self).minimum,
                self.maximum == old(self).maximum,
            decreases extra@.len() - i,
        {
            let b = extra[i];
            self.data.push(b);
            proof {
                assert(self.data@ =~= old_data + extra@.subrange(0, i as int + 1));
            }
            i = i + 1;
        }
        proof {
            assert(extra@.subrange(0, extra@.len() as int) =~= extra@);
            assert(self.data@ == old_data + extra@);
            let n = self.data@.len() as int;
            let p = PAGE_BYTES as int;
            vstd::arithmetic::div_mod::lemma_mod_multiples_basic((prev + delta) as int, p);
            assert(n == (prev + delta) * p);
            vstd::arithmetic::div_mod::lemma_fundamental_div_mod_converse_div(
                n,
                p,
                (prev + delta) as int,
                0,
            );
        }
        Ok(prev)
    }

    /// Fill `[dst, dst + len)` with `val`, as the guest's `memory.fill`
    /// does: out-of-bounds ranges trap and write nothing.
    pub fn memory_fill(&mut self, dst: u32, val: u8, len: u32) -> (r: Result<(), String>)
        ensures
            final(self).minimum == old(self).minimum,
            final(self).maximum == old(self).maximum,
            r is Ok <==> dst + len <= old(self).data@.len(),
            r is Ok ==> final(self).data@ =~= spec_write_range(
                old(self).data@,
                dst as int,
                Seq::new(len as nat, |i: int| val),
            ),
            r is Err ==> *final(self) == *old(self),
    {
        let n = self.data.len();
        if dst as usize > n || len as usize > n - dst as usize {
            return Err("out of bounds memory access".to_owned());
        }
        let mut i: usize = 0;
        while i < len as usize
            invariant
                i <= len,
                dst + len <= n,
                self.data@.len() == n,
                self.data@.len() == old(self).data@.len(),
                self.minimum == old(self).minimum,
                self.maximum == old(self).maximum,
                forall|j: int|
                    0 <= j < self.data@.len() ==> self.data@[j] == if dst <= j < dst + i {
                        val
                    } else {
                        old(self).data@[j]
                    },
            decreases len - i,
        {
            self.data.set(dst as usize + i, val);
            i = i + 1;
        }
        proof {
            assert(self.data@ =~= spec_write_range(
                old(self).data@,
                dst as int,
                Seq::new(len as nat, |k: int| val),
            ));
        }
        Ok(())
    }

    /// Write `bytes` at `offset`; out-of-bounds writes trap and change
    /// nothing.
    pub fn write(&mut self, offset: u32, bytes: &[u8]) -> (r: Result<(), String>)
        ensures
            final(self).minimum == old(self).minimum,
            final(self).maximum == old(self).maximum,
            r is Ok <==> offset + bytes@.len() <= old(self).data@.len(),
            r is Ok ==> final(self).data@ =~= spec_write_range(
                old(self).data@,
                offset as int,
                bytes@,
            ),
            r is Err ==> *final(self) == *old(self),
    {
        let n = self.data.len();
        if offset as usize > n || bytes.len() > n - offset as usize {
            return Err("out of bounds memory access".to_owned());
        }
        let mut i: usize = 0;
        while i < bytes.len()
            invariant
                i <= bytes@.len(),
                offset + bytes@.len() <= n,
                self.data@.len() == n,
                self.data@.len() == old(self).data@.len(),
                self.minimum == old(self).minimum,
                self.maximum == old(self).maximum,
                forall|j: int|
                    0 <= j < self.data@.len() ==> self.data@[j] == if offset <= j < offset
                        + i {
                        bytes@[j - offset]
                    } else {
                        old(self).data@[j]
                    },
            decreases bytes@.len() - i,
        {
            let b = bytes[i];
            self.data.set(offset as usize + i, b);
            i = i + 1;
        }
        proof {
            assert(self.data@ =~= spec_write_range(old(self).data@, offset as int, bytes@));
        }
        Ok(())
    }

    /// Read one byte.
    pub fn read_byte(&self, offset: u32) -> (r: Result<u8, String>)
        ensures
            r matches Ok(b) ==> offset < self.data@.len() && b == self.data@[offset as int],
            r is Err ==> offset >= self.data@.len(),
    {
        if (offset as usize) < self.data.len() {
            Ok(self.data[offset as usize])
        } else {
            Err("out of bounds memory access".to_owned())
        }
    }

    /// Shrink back to the declared minimum page count.
    pub fn shrink_to_minimum(&mut self) -> (r: Result<(), String>)
        requires
            old(self).wf(),
        ensures
            r is Ok,
            final(self).wf(),
            final(self).minimum == old(self).minimum,
            final(self).maximum == old(self).maximum,
            final(self).data@ == old(self).data@.subrange(
                0,
                old(self).minimum * PAGE_BYTES,
            ),
    {
        proof {
            lemma_pages_bytes(self.minimum);
            vstd::arithmetic::div_mod::lemma_mod_multiples_basic(
                self.minimum as int,
                PAGE_BYTES as int,
            );
        }
        self.data.truncate((self.minimum as usize) * (PAGE_BYTES as usize));
        Ok(())
    }
}

/// The largest byte size a linear memory can reach.
pub const MAX_MEMORY_BYTES: u64 = 0xFFFF0000;

/// Pages times the page size stays within the memory space.
pub proof fn lemma_pages_bytes(pages: u32)
    requires
        pages <= 65535,
    ensures
        pages * PAGE_BYTES <= MAX_MEMORY_BYTES,
        pages * PAGE_BYTES <= usize::MAX,
{
    assert(pages * PAGE_BYTES <= 65535 * PAGE_BYTES) by (nonlinear_arith)
        requires
            pages <= 65535,
    ;
}

/// The zero-filled initial bytes of a declared memory.
pub open spec fn spec_zero_memory(descriptor: MemoryDescriptor) -> Seq<u8> {
    Seq::new((descriptor.minimum * PAGE_BYTES) as nat, |i: int| 0u8)
}

/// The zero-filled initial bytes of every declared memory.
pub open spec fn spec_zero_memories(descriptors: Seq<MemoryDescriptor>) -> Seq<Seq<u8>> {
    Seq::new(descriptors.len(), |i: int| spec_zero_memory(descriptors[i]))
}

/// The zero-filled initial elements of every declared table.
pub open spec fn spec_zero_tables(descriptors: Seq<crate::module_info::TableDescriptor>) -> Seq<
    Seq<u32>,
> {
    Seq::new(descriptors.len(), |i: int| Seq::new(descriptors[i].minimum as nat, |j: int| 0u32))
}

/// Whether one data segment fits the memories it writes.
pub open spec fn spec_data_init_ok(mems: Seq<Seq<u8>>, init: DataInitializer) -> bool {
    &&& init.memory_index < mems.len()
    &&& init.offset + init.data@.len() <= mems[init.memory_index as int].len()
}

/// One data segment applied to the memories.
pub open spec fn spec_apply_data_init(mems: Seq<Seq<u8>>, init: DataInitializer) -> Seq<Seq<u8>> {
    mems.update(
        init.memory_index as int,
        spec_write_range(mems[init.memory_index as int], init.offset as int, init.data@),
    )
}

/// The data segments from index `k` on, applied in order.
pub open spec fn spec_apply_data_inits(
    mems: Seq<Seq<u8>>,
    inits: Seq<DataInitializer>,
    k: int,
) -> Seq<Seq<u8>>
    decreases inits.len() - k,
    when 0 <= k <= inits.len()
{
    if k >= inits.len() {
        mems
    } else {
        spec_apply_data_inits(spec_apply_data_init(mems, inits[k]), inits, k + 1)
    }
}

/// Every data segment fits; segment application never changes lengths, so
/// the check against the initial shapes covers the whole fold.
pub open spec fn spec_data_inits_ok(mems: Seq<Seq<u8>>, inits: Seq<DataInitializer>) -> bool {
    forall|k: int| 0 <= k < inits.len() ==> spec_data_init_ok(mems, #[trigger] inits[k])
}

/// Whether one element segment fits the tables it writes.
pub open spec fn spec_elem_init_ok(tables: Seq<Seq<u32>>, init: ElemInitializer) -> bool {
    &&& init.table_index < tables.len()
    &&& init.offset + init.elems@.len() <= tables[init.table_index as int].len()
}

/// One element segment applied to the tables.
pub open spec fn spec_apply_elem_init(tables: Seq<Seq<u32>>, init: ElemInitializer) -> Seq<
    Seq<u32>,
> {
    tables.update(
        init.table_index as int,
        spec_write_elems(tables[init.table_index as int], init.offset as int, init.elems@),
    )
}

/// The element segments from index `k` on, applied in order.
pub open spec fn spec_apply_elem_inits(
    tables: Seq<Seq<u32>>,
    inits: Seq<ElemInitializer>,
    k: int,
) -> Seq<Seq<u32>>
    decreases inits.len() - k,
    when 0 <= k <= inits.len()
{
    if k >= inits.len() {
        tables
    } else {
        spec_apply_elem_inits(spec_apply_elem_init(tables, inits[k]), inits, k + 1)
    }
}

/// Every element segment fits its table's initial shape.
pub open spec fn spec_elem_inits_ok(tables: Seq<Seq<u32>>, inits: Seq<ElemInitializer>) -> bool {
    forall|k: int| 0 <= k < inits.len() ==> spec_elem_init_ok(tables, #[trigger] inits[k])
}

/// Applying data segments that fit keeps the number and the lengths of the
/// memories.
pub proof fn lemma_apply_data_inits_shape(
    mems: Seq<Seq<u8>>,
    inits: Seq<DataInitializer>,
    k: int,
)
    requires
        0 <= k <= inits.len(),
        forall|j: int| k <= j < inits.len() ==> spec_data_init_ok(mems, #[trigger] inits[j]),
    ensures
        spec_apply_data_inits(mems, inits, k).len() == mems.len(),
        forall|i: int|
            0 <= i < mems.len() ==> (#[trigger] spec_apply_data_inits(mems, inits, k)[i]).len()
                == mems[i].len(),
    decreases inits.len() - k,
{
    if k < inits.len() {
        let mems1 = spec_apply_data_init(mems, inits[k]);
        assert(mems1.len() == mems.len());
        assert forall|i: int| 0 <= i < mems.len() implies (#[trigger] mems1[i]).len()
            == mems[i].len() by {}
        assert forall|j: int| k + 1 <= j < inits.len() implies spec_data_init_ok(
            mems1,
            #[trigger] inits[j],
        ) by {
            assert(spec_data_init_ok(mems, inits[j]));
        }
        lemma_apply_data_inits_shape(mems1, inits, k + 1);
    }
}

/// Applying element segments that fit keeps the number and the lengths of
/// the tables.
pub proof fn lemma_apply_elem_inits_shape(
    tables: Seq<Seq<u32>>,
    inits: Seq<ElemInitializer>,
    k: int,
)
    requires
        0 <= k <= inits.len(),
        forall|j: int| k <= j < inits.len() ==> spec_elem_init_ok(tables, #[trigger] inits[j]),
    ensures
        spec_apply_elem_inits(tables, inits, k).len() == tables.len(),
        forall|i: int|
            0 <= i < tables.len() ==> (#[trigger] spec_apply_elem_inits(tables, inits, k)[
            i]).len() == tables[i].len(),
    decreases inits.len() - k,
{
    if k < inits.len() {
        let tables1 = spec_apply_elem_init(tables, inits[k]);
        assert(tables1.len() == tables.len());
        assert forall|i: int| 0 <= i < tables.len() implies (#[trigger] tables1[i]).len()
            == tables[i].len() by {}
        assert forall|j: int| k + 1 <= j < inits.len() implies spec_elem_init_ok(
            tables1,
            #[trigger] inits[j],
        ) by {
            assert(spec_elem_init_ok(tables, inits[j]));
        }
        lemma_apply_elem_inits_shape(tables1, inits, k + 1);
    }
}

/// A guest instance.
pub struct Instance {
    /// The static description the instance was built from.
    pub module: ModuleInfo,
    /// The internal-field cells the instrumentation reads and writes.
    pub cells: Vec<u64>,
    /// The guest's linear memories.
    pub memories: Vec<LinearMemory>,
    /// The guest's tables of function indices.
    pub tables: Vec<Vec<u32>>,
    /// The guest's globals.
    pub globals: Vec<u64>,
}

impl Instance {
    /// The bytes of every linear memory.
    pub open spec fn spec_mem_datas(self) -> Seq<Seq<u8>> {
        Seq::new(self.memories@.len(), |i: int| self.memories@[i].data@)
    }

    /// The elements of every table.
    pub open spec fn spec_table_datas(self) -> Seq<Seq<u32>> {
        Seq::new(self.tables@.len(), |i: int| self.tables@[i]@)
    }

    /// A well-formed instance matches its module's declarations.
    pub open spec fn wf(self) -> bool {
        &&& self.module.wf()
        &&& self.cells@.len() == FIELD_COUNT
        &&& self.memories@.len() == self.module.memories@.len()
        &&& forall|i: int|
            0 <= i < self.memories@.len() ==> (#[trigger] self.memories@[i]).wf()
                && self.memories@[i].spec_descriptor() == self.module.memories@[i]
        &&& self.tables@.len() == self.module.tables@.len()
        &&& self.globals@.len() == self.module.globals@.len()
    }

    /// Instantiate a module: zeroed cells, memories at their declared
    /// minimum initialized by the data segments, tables initialized by the
    /// element segments, globals at their initializer values. Fails exactly
    /// when a segment does not fit its declared target.
    pub fn instantiate(module: ModuleInfo) -> (r: Result<Instance, String>)
        requires
            module.wf(),
        ensures
            r is Ok <==> spec_data_inits_ok(
                spec_zero_memories(module.memories@),
                module.data_initializers@,
            ) && spec_elem_inits_ok(
                spec_zero_tables(module.tables@),
                module.elem_initializers@,
            ),
            r matches Ok(inst) ==> {
                &&& inst.wf()
                &&& inst.module == module
                &&& inst.cells@ =~= Seq::new(FIELD_COUNT as nat, |i: int| 0u64)
                &&& inst.spec_mem_datas() =~= spec_apply_data_inits(
                    spec_zero_memories(module.memories@),
                    module.data_initializers@,
                    0,
                )
                &&& inst.spec_table_datas() =~= spec_apply_elem_inits(
                    spec_zero_tables(module.tables@),
                    module.elem_initializers@,
                    0,
                )
                &&& inst.globals@ == module.globals@
            },
    {
        let mut memories: Vec<LinearMemory> = Vec::new();
        let mut i: usize = 0;
        while i < module.memories.len()
            invariant
                module.wf(),
                i <= module.memories@.len(),
                memories@.len() == i,
                forall|j: int|
                    0 <= j < i ==> (#[trigger] memories@[j]).wf()
                        && memories@[j].spec_descriptor() == module.memories@[j]
                        && memories@[j].data@ == spec_zero_memory(module.memories@[j]),
            decreases module.memories@.len() - i,
        {
            let descriptor = module.memories[i];
            memories.push(LinearMemory::with_descriptor(descriptor));
            i = i + 1;
        }
        let mut tables: Vec<Vec<u32>> = Vec::new();
        let mut i: usize = 0;
        while i < module.tables.len()
            invariant
                i <= module.tables@.len(),
                tables@.len() == i,
                forall|j: int|
                    0 <= j < i ==> (#[trigger] tables@[j])@ == Seq::new(
                        module.tables@[j].minimum as nat,
                        |e: int| 0u32,
                    ),
            decreases module.tables@.len() - i,
        {
            let t = zero_words(module.tables[i].minimum as usize);
            tables.push(t);
            i = i + 1;
        }
        let cells = zero_cells();
        let mut globals: Vec<u64> = Vec::new();
        let mut i: usize = 0;
        while i < module.globals.len()
            invariant
                i <= module.globals@.len(),
                globals@ == module.globals@.subrange(0, i as int),
            decreases module.globals@.len() - i,
        {
            let g = module.globals[i];
            globals.push(g);
            proof {
                assert(globals@ =~= module.globals@.subrange(0, i as int + 1));
            }
            i = i + 1;
        }
        proof {
            assert(module.globals@.subrange(0, module.globals@.len() as int) =~= module.globals@);
            assert(spec_datas_of(memories@) =~= spec_zero_memories(module.memories@));
            assert(spec_tables_of(tables@) =~= spec_zero_tables(module.tables@));
        }
        let ghost mems_before = memories@;
        match initialize_memories(&mut memories, &module.data_initializers) {
            Ok(_) => {},
            Err(e) => {
                return Err(e);
            },
        }
        match initialize_tables(&mut tables, &module.elem_initializers) {
            Ok(_) => {},
            Err(e) => {
                return Err(e);
            },
        }
        proof {
            assert(forall|j: int|
                0 <= j < memories@.len() ==> (#[trigger] memories@[j]).wf()
                    && memories@[j].spec_descriptor() == module.memories@[j]) by {
                assert(spec_mem_shapes_eq(memories@, mems_before));
            }
        }
        let inst = Instance { module, cells, memories, tables, globals };
        proof {
            assert(inst.spec_mem_datas() =~= spec_datas_of(inst.memories@));
            assert(inst.spec_table_datas() =~= spec_tables_of(inst.tables@));
        }
        Ok(inst)
    }
}

/// A zeroed cell array covering every internal field.
pub fn zero_cells() -> (r: Vec<u64>)
    ensures
        r@ =~= Seq::new(FIELD_COUNT as nat, |i: int| 0u64),
{
    let mut v: Vec<u64> = Vec::new();
    let mut i: usize = 0;
    while i < FIELD_COUNT
        invariant
            i <= FIELD_COUNT,
            v@.len() == i,
            forall|j: int| 0 <= j < i ==> v@[j] == 0,
        decreases FIELD_COUNT - i,
    {
        v.push(0);
        i = i + 1;
    }
    proof {
        assert(v@ =~= Seq::new(FIELD_COUNT as nat, |i: int| 0u64));
    }
    v
}

/// The bytes of every memory in the vector.
pub open spec fn spec_datas_of(memories: Seq<LinearMemory>) -> Seq<Seq<u8>> {
    Seq::new(memories.len(), |i: int| memories[i].data@)
}

/// Same count, bounds and lengths, memory by memory.
pub open spec fn spec_mem_shapes_eq(a: Seq<LinearMemory>, b: Seq<LinearMemory>) -> bool {
    &&& a.len() == b.len()
    &&& forall|i: int|
        0 <= i < a.len() ==> (#[trigger] a[i]).minimum == b[i].minimum && a[i].maximum
            == b[i].maximum && a[i].data@.len() == b[i].data@.len()
}

/// Same count and lengths, table by table.
pub open spec fn spec_table_shapes_eq(a: Seq<Vec<u32>>, b: Seq<Vec<u32>>) -> bool {
    &&& a.len() == b.len()
    &&& forall|i: int| 0 <= i < a.len() ==> (#[trigger] a[i])@.len() == b[i]@.len()
}

/// Apply the data segments to the memories, in order, failing on the first
/// segment that does not fit; on failure the memories are left as they
/// were, as nothing had been written before the bounds check.
pub fn initialize_memories(
    memories: &mut Vec<LinearMemory>,
    inits: &Vec<DataInitializer>,
) -> (r: Result<(), String>)
    ensures
        r is Ok <==> spec_data_inits_ok(spec_datas_of(old(memories)@), inits@),
        r is Ok ==> spec_datas_of(final(memories)@) =~= spec_apply_data_inits(
            spec_datas_of(old(memories)@),
            inits@,
            0,
        ),
        final(memories)@.len() == old(memories)@.len(),
        spec_mem_shapes_eq(final(memories)@, old(memories)@),
        r is Err ==> spec_datas_of(final(memories)@) =~= spec_datas_of(old(memories)@),
{
    let ghost mems0 = spec_datas_of(memories@);
    // The bounds of every segment are checked against the current shapes
    // before anything is written, so a failure changes nothing.
    let mut k: usize = 0;
    while k < inits.len()
        invariant
            k <= inits@.len(),
            memories@.len() == old(memories)@.len(),
            spec_mem_shapes_eq(memories@, old(memories)@),
            spec_datas_of(memories@) =~= spec_datas_of(old(memories)@),
            mems0 == spec_datas_of(old(memories)@),
            forall|j: int| 0 <= j < k ==> spec_data_init_ok(mems0, #[trigger] inits@[j]),
        decreases inits@.len() - k,
    {
        let init = &inits[k];
        let idx = init.memory_index as usize;
        if idx >= memories.len() {
            return Err("data segment names a missing memory".to_owned());
        }
        let mem_len = memories[idx].data.len();
        if init.offset as usize > mem_len || init.data.len() > mem_len - init.offset as usize {
            return Err("data segment does not fit its memory".to_owned());
        }
        proof {
            assert(mems0[idx as int] == memories@[idx as int].data@);
            assert(mems0[idx as int].len() == mem_len);
            assert(spec_data_init_ok(mems0, inits@[k as int]));
        }
        k = k + 1;
    }
    // Every segment fits; apply them in order.
    let mut k: usize = 0;
    while k < inits.len()
        invariant
            k <= inits@.len(),
            spec_data_inits_ok(mems0, inits@),
            mems0 == spec_datas_of(old(memories)@),
            memories@.len() == old(memories)@.len(),
            spec_mem_shapes_eq(memories@, old(memories)@),
            spec_apply_data_inits(mems0, inits@, 0) == spec_apply_data_inits(
                spec_datas_of(memories@),
                inits@,
                k as int,
            ),
        decreases inits@.len() - k,
    {
        let init = &inits[k];
        let idx = init.memory_index as usize;
        proof {
            lemma_apply_data_inits_shape(mems0, inits@, 0);
            assert(spec_data_init_ok(mems0, inits@[k as int]));
            assert(mems0[init.memory_index as int] == old(memories)@[init.memory_index as int].data@);
        }
        let ghost before = spec_datas_of(memories@);
        let minimum = memories[idx].minimum;
        let maximum = memories[idx].maximum;
        let mut data_copy = vstd::slice::slice_to_vec(memories[idx].data.as_slice());
        let mut replacement = LinearMemory { data: data_copy, minimum, maximum };
        match replacement.write(init.offset, init.data.as_slice()) {
            Ok(_) => {},
            Err(_) => {
                proof {
                    assert(false);
                }
            },
        }
        memories.set(idx, replacement);
        proof {
            assert(spec_datas_of(memories@) =~~= spec_apply_data_init(before, inits@[k as int]));
        }
        k = k + 1;
    }
    Ok(())
}

/// Apply the element segments to the tables, in order, failing on the
/// first segment that does not fit.
pub fn initialize_tables(tables: &mut Vec<Vec<u32>>, inits: &Vec<ElemInitializer>) -> (r: Result<
    (),
    String,
>)
    ensures
        r is Ok <==> spec_elem_inits_ok(spec_tables_of(old(tables)@), inits@),
        r is Ok ==> spec_tables_of(final(tables)@) =~= spec_apply_elem_inits(
            spec_tables_of(old(tables)@),
            inits@,
            0,
        ),
        final(tables)@.len() == old(tables)@.len(),
        spec_table_shapes_eq(final(tables)@, old(tables)@),
        r is Err ==> spec_tables_of(final(tables)@) =~= spec_tables_of(old(tables)@),
{
    let ghost tabs0 = spec_tables_of(tables@);
    let mut k: usize = 0;
    while k < inits.len()
        invariant
            k <= inits@.len(),
            tables@.len() == old(tables)@.len(),
            spec_table_shapes_eq(tables@, old(tables)@),
            spec_tables_of(tables@) =~= spec_tables_of(old(tables)@),
            tabs0 == spec_tables_of(old(tables)@),
            forall|j: int| 0 <= j < k ==> spec_elem_init_ok(tabs0, #[trigger] inits@[j]),
        decreases inits@.len() - k,
    {
        let init = &inits[k];
        let idx = init.table_index as usize;
        if idx >= tables.len() {
            return Err("element segment names a missing table".to_owned());
        }
        let table_len = tables[idx].len();
        if init.offset as usize > table_len || init.elems.len() > table_len
            - init.offset as usize {
            return Err("element segment does not fit its table".to_owned());
        }
        proof {
            assert(tabs0[idx as int] == tables@[idx as int]@);
            assert(tabs0[idx as int].len() == table_len);
            assert(spec_elem_init_ok(tabs0, inits@[k as int]));
        }
        k = k + 1;
    }
    let mut k: usize = 0;
    while k < inits.len()
        invariant
            k <= inits@.len(),
            spec_elem_inits_ok(tabs0, inits@),
            tabs0 == spec_tables_of(old(tables)@),
            tables@.len() == old(tables)@.len(),
            spec_table_shapes_eq(tables@, old(tables)@),
            spec_apply_elem_inits(tabs0, inits@, 0) == spec_apply_elem_inits(
                spec_tables_of(tables@),
                inits@,
                k as int,
            ),
        decreases inits@.len() - k,
    {
        let init = &inits[k];
        let idx = init.table_index as usize;
        proof {
            lemma_apply_elem_inits_shape(tabs0, inits@, 0);
            assert(spec_elem_init_ok(tabs0, inits@[k as int]));
            assert(tabs0[init.table_index as int] == old(tables)@[init.table_index as int]@);
        }
        let ghost before = spec_tables_of(tables@);
        let mut table_copy: Vec<u32> = vstd::slice::slice_to_vec(tables[idx].as_slice());
        let copy_len = table_copy.len();
        let mut e: usize = 0;
        while e < init.elems.len()
            invariant
                e <= init.elems@.len(),
                init.offset + init.elems@.len() <= copy_len,
                table_copy@.len() == copy_len,
                table_copy@.len() == before[init.table_index as int].len(),
                forall|j: int|
                    0 <= j < table_copy@.len() ==> table_copy@[j] == if init.offset <= j
                        < init.offset + e {
                        init.elems@[j - init.offset]
                    } else {
                        before[init.table_index as int][j]
                    },
            decreases init.elems@.len() - e,
        {
            let v = init.elems[e];
            table_copy.set(init.offset as usize + e, v);
            e = e + 1;
        }
        tables.set(idx, table_copy);
        proof {
            assert(spec_tables_of(tables@) =~~= spec_apply_elem_init(before, inits@[k as int]));
        }
        k = k + 1;
    }
    Ok(())
}

/// The elements of every table in the vector.
pub open spec fn spec_tables_of(tables: Seq<Vec<u32>>) -> Seq<Seq<u32>> {
    Seq::new(tables.len(), |i: int| tables[i]@)
}

} // verus!
