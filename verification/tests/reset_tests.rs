use wasm_sandbox::instance::Instance;
use wasm_sandbox::metering::{get_points_used, set_points_limit, set_points_used};
use wasm_sandbox::module_info::{
    DataInitializer, ElemInitializer, ExportEntry, MemoryDescriptor, ModuleInfo, TableDescriptor,
    PAGE_BYTES,
};
use wasm_sandbox::opcode_trace::{
    get_opcodetracer_last_location, reset_opcodetracer_last_location,
};
use wasm_sandbox::reset::reset;
use wasm_sandbox::runtime_breakpoints::{
    get_runtime_breakpoint_value, set_runtime_breakpoint_value,
};
use wasm_sandbox::vbus::{CallDescriptor, SpawnOptionsConfig, VirtualBusError};

fn small_module() -> ModuleInfo {
    ModuleInfo {
        memories: vec![MemoryDescriptor {
            minimum: 1,
            maximum: Some(64),
        }],
        tables: vec![TableDescriptor { minimum: 3 }],
        globals: vec![11, 22],
        data_initializers: vec![DataInitializer {
            memory_index: 0,
            offset: 4,
            data: vec![0xaa, 0xbb],
        }],
        elem_initializers: vec![ElemInitializer {
            table_index: 0,
            offset: 1,
            elems: vec![5, 6],
        }],
        exports: vec![ExportEntry {
            name: b"run".to_vec(),
            index: 0,
        }],
        start_func: None,
    }
}

#[test]
fn reset_rewinds_a_grown_and_dirtied_memory() {
    // Grow the memory by ten pages, write non-zero data, reset, and expect
    // the memory back at its declared minimum with the data segments
    // re-applied and everything else zero.
    let module = small_module();
    let data_inits = module.data_initializers.clone();
    let mut instance = Instance::instantiate(module).unwrap();

    instance.memories[0].grow(10).unwrap();
    assert_eq!(instance.memories[0].current_length(), 11 * PAGE_BYTES as usize);
    instance.memories[0].write(70_000, &[1, 2, 3, 4]).unwrap();
    instance.memories[0].write(0, &[9; 64]).unwrap();
    instance.globals[0] = 999;
    instance.tables[0][0] = 42;

    reset(&mut instance, &data_inits).unwrap();

    assert_eq!(instance.memories[0].current_length(), PAGE_BYTES as usize);
    let data = &instance.memories[0].data;
    for (i, b) in data.iter().enumerate() {
        if i == 4 {
            assert_eq!(*b, 0xaa);
        } else if i == 5 {
            assert_eq!(*b, 0xbb);
        } else {
            assert_eq!(*b, 0, "byte {} not zeroed", i);
        }
    }
    assert_eq!(instance.globals, vec![11, 22]);
    assert_eq!(instance.tables[0], vec![0, 5, 6]);
}

#[test]
fn reset_preserves_the_internal_field_cells() {
    let module = small_module();
    let data_inits = module.data_initializers.clone();
    let mut instance = Instance::instantiate(module).unwrap();
    set_points_used(&mut instance, 123);
    set_points_limit(&mut instance, 456);
    reset(&mut instance, &data_inits).unwrap();
    assert_eq!(get_points_used(&instance), 123);
}

#[test]
fn a_fresh_instance_resets_to_itself() {
    // Reset idempotence on a just-created instance: the observable state
    // after a reset equals the freshly instantiated state.
    let module = small_module();
    let data_inits = module.data_initializers.clone();
    let fresh = Instance::instantiate(small_module()).unwrap();
    let mut twice = Instance::instantiate(module).unwrap();
    reset(&mut twice, &data_inits).unwrap();
    assert_eq!(fresh.memories[0].data, twice.memories[0].data);
    assert_eq!(fresh.tables, twice.tables);
    assert_eq!(fresh.globals, twice.globals);
    assert_eq!(fresh.cells, twice.cells);
}

#[test]
fn instantiation_rejects_segments_that_do_not_fit() {
    let mut module = small_module();
    module.data_initializers[0].offset = PAGE_BYTES - 1;
    assert!(Instance::instantiate(module).is_err());

    let mut module = small_module();
    module.elem_initializers[0].offset = 2;
    assert!(Instance::instantiate(module).is_err());
}

#[test]
fn instantiation_applies_initializers() {
    let instance = Instance::instantiate(small_module()).unwrap();
    assert_eq!(instance.memories[0].data[4], 0xaa);
    assert_eq!(instance.memories[0].data[5], 0xbb);
    assert_eq!(instance.tables[0], vec![0, 5, 6]);
    assert_eq!(instance.globals, vec![11, 22]);
    assert!(instance.cells.iter().all(|c| *c == 0));
}

#[test]
fn memory_grow_respects_its_maximum() {
    let module = ModuleInfo {
        memories: vec![MemoryDescriptor {
            minimum: 1,
            maximum: Some(2),
        }],
        tables: Vec::new(),
        globals: Vec::new(),
        data_initializers: Vec::new(),
        elem_initializers: Vec::new(),
        exports: Vec::new(),
        start_func: None,
    };
    let mut instance = Instance::instantiate(module).unwrap();
    assert_eq!(instance.memories[0].grow(1).unwrap(), 1);
    assert!(instance.memories[0].grow(1).is_err());
}

#[test]
fn memory_fill_traps_out_of_bounds() {
    let module = small_module();
    let mut instance = Instance::instantiate(module).unwrap();
    assert!(instance.memories[0].memory_fill(0, 7, PAGE_BYTES).is_ok());
    assert!(instance.memories[0]
        .memory_fill(PAGE_BYTES - 1, 7, 2)
        .is_err());
    assert_eq!(instance.memories[0].read_byte(0).unwrap(), 7);
}

#[test]
fn exports_are_unique_and_looked_up_by_name() {
    let mut module = small_module();
    assert_eq!(module.get_export(b"run"), Some(0));
    assert_eq!(module.get_export(b"missing"), None);
    assert!(module.insert_export(b"other".to_vec(), 4).is_ok());
    assert_eq!(module.get_export(b"other"), Some(4));
    assert!(module.insert_export(b"run".to_vec(), 9).is_err());
    assert_eq!(module.get_export(b"run"), Some(0));
}

#[test]
fn breakpoint_value_and_last_location_accessors() {
    let module = small_module();
    let mut instance = Instance::instantiate(module).unwrap();
    assert_eq!(get_runtime_breakpoint_value(&mut instance), 0);
    set_runtime_breakpoint_value(&mut instance, 4);
    assert_eq!(get_runtime_breakpoint_value(&mut instance), 4);
    assert_eq!(get_opcodetracer_last_location(&mut instance), 0);
    reset_opcodetracer_last_location(&mut instance);
    assert_eq!(get_opcodetracer_last_location(&mut instance), 0);
}

#[test]
fn bus_value_types_round_trip() {
    let descriptor = CallDescriptor::from(17u32);
    assert_eq!(descriptor.raw(), 17);
    let mut config = SpawnOptionsConfig {
        reuse: true,
        env: 5u32,
        remote_instance: Some("host-a".to_string()),
        access_token: None,
    };
    assert!(config.reuse());
    assert_eq!(*config.env(), 5);
    *config.env_mut() = 6;
    assert_eq!(*config.env(), 6);
    assert_eq!(config.remote_instance().map(|s| s.as_str()), Some("host-a"));
    assert!(config.access_token().is_none());
    assert_ne!(VirtualBusError::Unsupported, VirtualBusError::NotFound);
}
