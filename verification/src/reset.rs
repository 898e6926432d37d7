//! Instance reset: restore an instance to its post-instantiation state in
//! place, without rebuilding machine code or import bindings.
//!
//! In order: the passive element segments are re-armed, the globals are
//! re-evaluated, and each linear memory is zeroed with the guest's own fill
//! primitive, shrunk back to its declared minimum, and re-initialized from
//! the data segments exactly as during instantiation.

use vstd::prelude::*;
use crate::instance::{
    Instance,
    LinearMemory,
    initialize_memories,
    initialize_tables,
    spec_datas_of,
    spec_tables_of,
    spec_zero_memories,
    spec_zero_tables,
    spec_apply_data_inits,
    spec_apply_elem_inits,
    spec_data_inits_ok,
    spec_elem_inits_ok,
    spec_mem_shapes_eq,
    zero_words,
};
use crate::module_info::{DataInitializer, PAGE_BYTES};

verus! {

/// Re-arm the passive element segments: every table is rebuilt from its
/// declared shape and the module's element segments.
pub fn reset_passive_elements(instance: &mut Instance) -> (r: Result<(), String>)
    requires
        old(instance).wf(),
    ensures
        final(instance).wf(),
        final(instance).module == old(instance).module,
        final(instance).cells@ == old(instance).cells@,
        final(instance).memories@ == old(instance).memories@,
        final(instance).globals@ == old(instance).globals@,
        r is Ok <==> spec_elem_inits_ok(
            spec_zero_tables(old(instance).module.tables@),
            old(instance).module.elem_initializers@,
        ),
        r is Ok ==> final(instance).spec_table_datas() =~= spec_apply_elem_inits(
            spec_zero_tables(old(instance).module.tables@),
            old(instance).module.elem_initializers@,
            0,
        ),
{
    let mut fresh: Vec<Vec<u32>> = Vec::new();
    let mut i: usize = 0;
    while i < instance.module.tables.len()
        invariant
            i <= instance.module.tables@.len(),
            fresh@.len() == i,
            *instance == *old(instance),
            forall|j: int|
                0 <= j < i ==> (#[trigger] fresh@[j])@ == Seq::new(
                    instance.module.tables@[j].minimum as nat,
                    |e: int| 0u32,
                ),
        decreases instance.module.tables@.len() - i,
    {
        let t = zero_words(instance.module.tables[i].minimum as usize);
        fresh.push(t);
        i = i + 1;
    }
    proof {
        assert(spec_tables_of(fresh@) =~= spec_zero_tables(instance.module.tables@));
    }
    match initialize_tables(&mut fresh, &instance.module.elem_initializers) {
        Ok(_) => {},
        Err(e) => {
            return Err(e);
        },
    }
    instance.tables = fresh;
    proof {
        assert(instance.spec_table_datas() =~= spec_tables_of(instance.tables@));
    }
    Ok(())
}

/// Re-evaluate each global's initializer and store the result.
pub fn reset_globals(instance: &mut Instance)
    requires
        old(instance).wf(),
    ensures
        final(instance).wf(),
        final(instance).module == old(instance).module,
        final(instance).cells@ == old(instance).cells@,
        final(instance).memories@ == old(instance).memories@,
        final(instance).tables@ == old(instance).tables@,
        final(instance).globals@ == old(instance).module.globals@,
{
    let mut fresh: Vec<u64> = Vec::new();
    let mut i: usize = 0;
    while i < instance.module.globals.len()
        invariant
            i <= instance.module.globals@.len(),
            *instance == *old(instance),
            fresh@ == instance.module.globals@.subrange(0, i as int),
        decreases instance.module.globals@.len() - i,
    {
        let g = instance.module.globals[i];
        fresh.push(g);
        proof {
            assert(fresh@ =~= instance.module.globals@.subrange(0, i as int + 1));
        }
        i = i + 1;
    }
    proof {
        assert(instance.module.globals@.subrange(0, instance.module.globals@.len() as int)
            =~= instance.module.globals@);
    }
    instance.globals = fresh;
}

/// Fill every linear memory with zero over its whole current length, with
/// the primitive guest `memory.fill` uses; the full range is always in
/// bounds, so no trap can surface.
pub fn zero_memories(instance: &mut Instance) -> (r: Result<(), String>)
    requires
        old(instance).wf(),
    ensures
        final(instance).wf(),
        final(instance).module == old(instance).module,
        final(instance).cells@ == old(instance).cells@,
        final(instance).tables@ == old(instance).tables@,
        final(instance).globals@ == old(instance).globals@,
        spec_mem_shapes_eq(final(instance).memories@, old(instance).memories@),
        r is Ok,
        forall|i: int, b: int|
            0 <= i < final(instance).memories@.len() && 0 <= b
                < final(instance).memories@[i].data@.len()
                ==> #[trigger] final(instance).memories@[i].data@[b] == 0,
{
    let n = instance.memories.len();
    let mut i: usize = 0;
    while i < n
        invariant
            i <= n,
            n == instance.memories@.len(),
            instance.wf(),
            instance.module == old(instance).module,
            instance.cells@ == old(instance).cells@,
            instance.tables@ == old(instance).tables@,
            instance.globals@ == old(instance).globals@,
            spec_mem_shapes_eq(instance.memories@, old(instance).memories@),
            forall|j: int, b: int|
                0 <= j < i && 0 <= b < instance.memories@[j].data@.len()
                    ==> #[trigger] instance.memories@[j].data@[b] == 0,
        decreases n - i,
    {
        let len = instance.memories[i].data.len();
        let minimum = instance.memories[i].minimum;
        let maximum = instance.memories[i].maximum;
        let mut taken = LinearMemory {
            data: vstd::slice::slice_to_vec(instance.memories[i].data.as_slice()),
            minimum,
            maximum,
        };
        match taken.memory_fill(0, 0, len as u32) {
            Ok(_) => {},
            Err(_) => {
                proof {
                    assert(false);
                }
            },
        }
        instance.memories.set(i, taken);
        i = i + 1;
    }
    Ok(())
}

/// Shrink every linear memory back to its declared minimum page count.
pub fn shrink_memories(instance: &mut Instance) -> (r: Result<(), String>)
    requires
        old(instance).wf(),
    ensures
        final(instance).wf(),
        final(instance).module == old(instance).module,
        final(instance).cells@ == old(instance).cells@,
        final(instance).tables@ == old(instance).tables@,
        final(instance).globals@ == old(instance).globals@,
        r is Ok,
        final(instance).memories@.len() == old(instance).memories@.len(),
        forall|i: int|
            0 <= i < final(instance).memories@.len() ==> {
                let m = #[trigger] final(instance).memories@[i];
                &&& m.minimum == old(instance).memories@[i].minimum
                &&& m.maximum == old(instance).memories@[i].maximum
                &&& m.data@ == old(instance).memories@[i].data@.subrange(
                    0,
                    m.minimum * PAGE_BYTES,
                )
            },
{
    let n = instance.memories.len();
    let mut i: usize = 0;
    while i < n
        invariant
            i <= n,
            n == instance.memories@.len(),
            instance.wf(),
            instance.module == old(instance).module,
            instance.cells@ == old(instance).cells@,
            instance.tables@ == old(instance).tables@,
            instance.globals@ == old(instance).globals@,
            instance.memories@.len() == old(instance).memories@.len(),
            forall|j: int|
                i <= j < n ==> #[trigger] instance.memories@[j] == old(instance).memories@[j],
            forall|j: int|
                0 <= j < i ==> {
                    let m = #[trigger] instance.memories@[j];
                    &&& m.wf()
                    &&& m.spec_descriptor() == old(instance).memories@[j].spec_descriptor()
                    &&& m.minimum == old(instance).memories@[j].minimum
                    &&& m.maximum == old(instance).memories@[j].maximum
                    &&& m.data@ == old(instance).memories@[j].data@.subrange(
                        0,
                        m.minimum * PAGE_BYTES,
                    )
                },
        decreases n - i,
    {
        let minimum = instance.memories[i].minimum;
        let maximum = instance.memories[i].maximum;
        let mut taken = LinearMemory {
            data: vstd::slice::slice_to_vec(instance.memories[i].data.as_slice()),
            minimum,
            maximum,
        };
        match taken.shrink_to_minimum() {
            Ok(_) => {},
            Err(_) => {
                proof {
                    assert(false);
                }
            },
        }
        instance.memories.set(i, taken);
        i = i + 1;
    }
    Ok(())
}

/// Re-run data-segment initialization exactly as during instantiation.
pub fn reinitialize_memories(
    instance: &mut Instance,
    data_initializers: &Vec<DataInitializer>,
) -> (r: Result<(), String>)
    requires
        old(instance).wf(),
    ensures
        final(instance).wf(),
        final(instance).module == old(instance).module,
        final(instance).cells@ == old(instance).cells@,
        final(instance).tables@ == old(instance).tables@,
        final(instance).globals@ == old(instance).globals@,
        spec_mem_shapes_eq(final(instance).memories@, old(instance).memories@),
        r is Ok <==> spec_data_inits_ok(
            spec_datas_of(old(instance).memories@),
            data_initializers@,
        ),
        r is Ok ==> final(instance).spec_mem_datas() =~= spec_apply_data_inits(
            spec_datas_of(old(instance).memories@),
            data_initializers@,
            0,
        ),
{
    let r = initialize_memories(&mut instance.memories, data_initializers);
    proof {
        assert(instance.spec_mem_datas() =~= spec_datas_of(instance.memories@));
    }
    match r {
        Ok(_) => Ok(()),
        Err(e) => Err(e),
    }
}

/// Reset the memories: zero them, shrink them to their declared minimum,
/// and re-run data-segment initialization.
pub fn reset_memories(
    instance: &mut Instance,
    data_initializers: &Vec<DataInitializer>,
) -> (r: Result<(), String>)
    requires
        old(instance).wf(),
    ensures
        final(instance).wf(),
        final(instance).module == old(instance).module,
        final(instance).cells@ == old(instance).cells@,
        final(instance).tables@ == old(instance).tables@,
        final(instance).globals@ == old(instance).globals@,
        r is Ok <==> spec_data_inits_ok(
            spec_zero_memories(old(instance).module.memories@),
            data_initializers@,
        ),
        r is Ok ==> final(instance).spec_mem_datas() =~= spec_apply_data_inits(
            spec_zero_memories(old(instance).module.memories@),
            data_initializers@,
            0,
        ),
{
    match zero_memories(instance) {
        Ok(_) => {},
        Err(e) => {
            return Err(e);
        },
    }
    match shrink_memories(instance) {
        Ok(_) => {},
        Err(e) => {
            return Err(e);
        },
    }
    proof {
        assert(spec_datas_of(instance.memories@) =~~= spec_zero_memories(
            instance.module.memories@,
        ));
    }
    reinitialize_memories(instance, data_initializers)
}

/// Reset the instance to its post-instantiation state: re-arm the passive
/// element segments, re-evaluate the globals, and rebuild the memories.
/// The internal-field cells are left alone. On failure the instance is in
/// an undefined intermediate state and must be discarded.
pub fn reset(instance: &mut Instance, data_initializers: &Vec<DataInitializer>) -> (r: Result<
    (),
    String,
>)
    requires
        old(instance).wf(),
    ensures
        final(instance).wf(),
        final(instance).module == old(instance).module,
        final(instance).cells@ == old(instance).cells@,
        r is Ok <==> spec_elem_inits_ok(
            spec_zero_tables(old(instance).module.tables@),
            old(instance).module.elem_initializers@,
        ) && spec_data_inits_ok(
            spec_zero_memories(old(instance).module.memories@),
            data_initializers@,
        ),
        r is Ok ==> {
            &&& final(instance).spec_table_datas() =~= spec_apply_elem_inits(
                spec_zero_tables(old(instance).module.tables@),
                old(instance).module.elem_initializers@,
                0,
            )
            &&& final(instance).globals@ == old(instance).module.globals@
            &&& final(instance).spec_mem_datas() =~= spec_apply_data_inits(
                spec_zero_memories(old(instance).module.memories@),
                data_initializers@,
                0,
            )
        },
{
    match reset_passive_elements(instance) {
        Ok(_) => {},
        Err(e) => {
            return Err(e);
        },
    }
    reset_globals(instance);
    reset_memories(instance, data_initializers)
}

/// Reset restores exactly the state instantiation produces: an instance
/// whose non-cell state equals the fresh state of its module, when reset
/// with the module's own data segments, is left with that same fresh state.
/// Together with the machine's determinism, a run after such a reset
/// behaves as a run on the freshly instantiated instance.
pub proof fn lemma_reset_restores_fresh(fresh: Instance, after: Instance)
    requires
        fresh.wf(),
        fresh.spec_mem_datas() == spec_apply_data_inits(
            spec_zero_memories(fresh.module.memories@),
            fresh.module.data_initializers@,
            0,
        ),
        fresh.spec_table_datas() == spec_apply_elem_inits(
            spec_zero_tables(fresh.module.tables@),
            fresh.module.elem_initializers@,
            0,
        ),
        fresh.globals@ == fresh.module.globals@,
        after.module == fresh.module,
        after.spec_mem_datas() == spec_apply_data_inits(
            spec_zero_memories(fresh.module.memories@),
            fresh.module.data_initializers@,
            0,
        ),
        after.spec_table_datas() == spec_apply_elem_inits(
            spec_zero_tables(fresh.module.tables@),
            fresh.module.elem_initializers@,
            0,
        ),
        after.globals@ == fresh.module.globals@,
    ensures
        after.spec_mem_datas() == fresh.spec_mem_datas(),
        after.spec_table_datas() == fresh.spec_table_datas(),
        after.globals@ == fresh.globals@,
{
}

} // verus!
