//! The static description of a compiled module: the declarations and
//! initializers that instantiation and reset consume, and that the artifact
//! cache serializes.

use vstd::prelude::*;

verus! {

/// Bytes per WebAssembly linear-memory page.
pub const PAGE_BYTES: u32 = 65536;

/// The largest number of pages a linear memory may declare.
pub const MAX_PAGES: u32 = 65535;

/// A linear memory declaration, in pages.
#[derive(Clone, Copy, PartialEq, Eq, Structural, Debug)]
pub struct MemoryDescriptor {
    /// Pages the memory starts with, and shrinks back to on reset.
    pub minimum: u32,
    /// Pages the memory may grow to, if bounded.
    pub maximum: Option<u32>,
}

impl MemoryDescriptor {
    /// The declared minimum lies within the page space and below any
    /// declared maximum.
    pub open spec fn wf(self) -> bool {
        &&& self.minimum <= MAX_PAGES
        &&& self.maximum matches Some(max) ==> self.minimum <= max <= MAX_PAGES
    }
}

/// A table declaration, in elements.
#[derive(Clone, Copy, PartialEq, Eq, Structural, Debug)]
pub struct TableDescriptor {
    /// Elements the table starts with.
    pub minimum: u32,
}

/// One data segment: bytes copied into a linear memory at instantiation,
/// and again on reset.
#[derive(Clone, PartialEq, Eq, Debug)]
pub struct DataInitializer {
    /// Which linear memory the segment writes.
    pub memory_index: u32,
    /// Byte offset the segment starts at.
    pub offset: u32,
    /// The bytes written.
    pub data: Vec<u8>,
}

/// One element segment: function indices copied into a table at
/// instantiation; resetting re-arms passive segments consumed by
/// `table.init`.
#[derive(Clone, PartialEq, Eq, Debug)]
pub struct ElemInitializer {
    /// Which table the segment writes.
    pub table_index: u32,
    /// Element offset the segment starts at.
    pub offset: u32,
    /// The function indices written.
    pub elems: Vec<u32>,
}

/// One exported item: a name bound to an index in the module's index space.
#[derive(Clone, PartialEq, Eq, Debug)]
pub struct ExportEntry {
    /// The export's name, as UTF-8 bytes.
    pub name: Vec<u8>,
    /// The exported index.
    pub index: u32,
}

/// The full static description of a module, as far as the core reads it:
/// the declarations and initializers that instantiation and reset consume
/// and that the cache serializes. Signatures, imports and debug information
/// are interpreted only by the generating backend and ride in the
/// artifact's backend metadata.
#[derive(Clone, PartialEq, Eq, Debug)]
pub struct ModuleInfo {
    /// Linear memory declarations.
    pub memories: Vec<MemoryDescriptor>,
    /// Table declarations.
    pub tables: Vec<TableDescriptor>,
    /// Global initializer values, one per global.
    pub globals: Vec<u64>,
    /// Data segments.
    pub data_initializers: Vec<DataInitializer>,
    /// Element segments.
    pub elem_initializers: Vec<ElemInitializer>,
    /// Exports, in insertion order, with pairwise distinct names.
    pub exports: Vec<ExportEntry>,
    /// The start function, if the module declares one.
    pub start_func: Option<u32>,
}

impl ModuleInfo {
    /// Export names are pairwise distinct; the order of insertion is kept.
    pub open spec fn exports_wf(self) -> bool {
        forall|i: int, j: int|
            0 <= i < j < self.exports@.len() ==> (#[trigger] self.exports@[i]).name@ != (
            #[trigger] self.exports@[j]).name@
    }

    /// Every declared memory is well formed.
    pub open spec fn memories_wf(self) -> bool {
        forall|i: int|
            0 <= i < self.memories@.len() ==> (#[trigger] self.memories@[i]).wf()
    }

    /// A well-formed module description.
    pub open spec fn wf(self) -> bool {
        self.exports_wf() && self.memories_wf()
    }

    /// Decide well-formedness at run time, as on untrusted decoded input.
    pub fn check_wf(&self) -> (r: bool)
        ensures
            r == self.wf(),
    {
        let mut i: usize = 0;
        while i < self.memories.len()
            invariant
                i <= self.memories@.len(),
                forall|j: int| 0 <= j < i ==> (#[trigger] self.memories@[j]).wf(),
            decreases self.memories@.len() - i,
        {
            let d = self.memories[i];
            if d.minimum > MAX_PAGES {
                return false;
            }
            match d.maximum {
                Some(max) => {
                    if d.minimum > max || max > MAX_PAGES {
                        return false;
                    }
                },
                _ => {},
            }
            i = i + 1;
        }
        let mut i: usize = 0;
        while i < self.exports.len()
            invariant
                i <= self.exports@.len(),
                forall|x: int, y: int|
                    0 <= x < y < self.exports@.len() && x < i ==> (
                    #[trigger] self.exports@[x]).name@ != (#[trigger] self.exports@[y]).name@,
            decreases self.exports@.len() - i,
        {
            let mut j: usize = i + 1;
            while j < self.exports.len()
                invariant
                    i < self.exports@.len(),
                    i < j,
                    forall|y: int|
                        i < y < j ==> (#[trigger] self.exports@[y]).name@
                            != self.exports@[i as int].name@,
                decreases self.exports@.len() - j,
            {
                if compare_bytes(self.exports[i].name.as_slice(), self.exports[j].name.as_slice())
                {
                    return false;
                }
                j = j + 1;
            }
            i = i + 1;
        }
        true
    }

    /// A module with no declarations.
    pub fn empty() -> (r: ModuleInfo)
        ensures
            r.wf(),
            r.memories@.len() == 0,
            r.tables@.len() == 0,
            r.globals@.len() == 0,
            r.data_initializers@.len() == 0,
            r.elem_initializers@.len() == 0,
            r.exports@.len() == 0,
            r.start_func is None,
    {
        ModuleInfo {
            memories: Vec::new(),
            tables: Vec::new(),
            globals: Vec::new(),
            data_initializers: Vec::new(),
            elem_initializers: Vec::new(),
            exports: Vec::new(),
            start_func: None,
        }
    }

    /// Look an export up by name; the unique match, if any.
    pub fn get_export(&self, name: &[u8]) -> (r: Option<u32>)
        ensures
            r matches Some(index) ==> exists|i: int|
                0 <= i < self.exports@.len() && (#[trigger] self.exports@[i]).name@ == name@
                    && self.exports@[i].index == index,
            r is None ==> forall|i: int|
                0 <= i < self.exports@.len() ==> (#[trigger] self.exports@[i]).name@ != name@,
    {
        let mut i: usize = 0;
        while i < self.exports.len()
            invariant
                i <= self.exports@.len(),
                forall|j: int|
                    0 <= j < i ==> (#[trigger] self.exports@[j]).name@ != name@,
            decreases self.exports@.len() - i,
        {
            if compare_bytes(self.exports[i].name.as_slice(), name) {
                return Some(self.exports[i].index);
            }
            i = i + 1;
        }
        None
    }

    /// Add an export; refused when the name is already bound, so that names
    /// stay unique and insertion order is kept.
    pub fn insert_export(&mut self, name: Vec<u8>, index: u32) -> (r: Result<(), String>)
        requires
            old(self).exports_wf(),
        ensures
            final(self).exports_wf(),
            r is Ok ==> final(self).exports@ == old(self).exports@.push(
                ExportEntry { name, index },
            ),
            r is Err ==> *final(self) == *old(self),
            r is Ok <==> forall|i: int|
                0 <= i < old(self).exports@.len() ==> (#[trigger] old(self).exports@[i]).name@
                    != name@,
            final(self).memories@ == old(self).memories@,
            final(self).tables@ == old(self).tables@,
            final(self).globals@ == old(self).globals@,
            final(self).data_initializers@ == old(self).data_initializers@,
            final(self).elem_initializers@ == old(self).elem_initializers@,
            final(self).start_func == old(self).start_func,
    {
        match self.get_export(name.as_slice()) {
            Some(_) => Err("duplicate export name".to_owned()),
            _ => {
                self.exports.push(ExportEntry { name, index });
                Ok(())
            },
        }
    }
}

/// Whether two byte slices hold the same bytes.
pub fn compare_bytes(a: &[u8], b: &[u8]) -> (r: bool)
    ensures
        r <==> a@ == b@,
{
    if a.len() != b.len() {
        return false;
    }
    let mut i: usize = 0;
    while i < a.len()
        invariant
            a@.len() == b@.len(),
            i <= a@.len(),
            forall|j: int| 0 <= j < i ==> a@[j] == b@[j],
        decreases a@.len() - i,
    {
        if a[i] != b[i] {
            return false;
        }
        i = i + 1;
    }
    proof {
        assert(a@ =~= b@);
    }
    true
}

} // verus!
