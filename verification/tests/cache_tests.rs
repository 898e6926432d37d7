use wasm_sandbox::cache::{
    deserialize_artifact, serialize_artifact, Artifact, ArtifactHeader, CompactMemory, Error,
    InvalidFileType, SerializationScheme, WasmHash,
};
use wasm_sandbox::memory::{round_down_to_page_size, round_up_to_page_size, Memory, Protect};
use wasm_sandbox::module_info::{
    DataInitializer, ExportEntry, MemoryDescriptor, ModuleInfo, TableDescriptor,
};

fn make_test_bytes() -> Vec<u8> {
    let page_size = page_size::get();
    let mut bytes = b"abcdefghijkl".to_vec();
    let padding_zeros = [0u8; 1].repeat(page_size - bytes.len());
    bytes.extend(padding_zeros);
    bytes
}

fn make_test_memory(bytes: &Vec<u8>) -> Memory {
    let mut memory =
        Memory::with_size_protect(1000, Protect::ReadWrite).expect("Could not create memory");
    assert_eq!(memory.size(), bytes.len());
    memory.set_bytes(&bytes[..]);
    memory
}

fn make_empty_module_info() -> ModuleInfo {
    ModuleInfo {
        memories: Vec::new(),
        globals: Vec::new(),
        tables: Vec::new(),
        exports: Vec::new(),
        data_initializers: Vec::new(),
        elem_initializers: Vec::new(),
        start_func: None,
    }
}

fn make_populated_module_info() -> ModuleInfo {
    ModuleInfo {
        memories: vec![MemoryDescriptor {
            minimum: 1,
            maximum: Some(16),
        }],
        tables: vec![TableDescriptor { minimum: 4 }],
        globals: vec![7, 0xdead_beef],
        data_initializers: vec![DataInitializer {
            memory_index: 0,
            offset: 16,
            data: vec![1, 2, 3],
        }],
        elem_initializers: Vec::new(),
        exports: vec![ExportEntry {
            name: b"main".to_vec(),
            index: 0,
        }],
        start_func: Some(2),
    }
}

#[test]
fn test_rkyv_artifact() {
    let bytes = make_test_bytes();
    let memory = make_test_memory(&bytes);

    let module_info = make_empty_module_info();
    let artifact = Artifact::from_parts(module_info, b"test_backend".to_vec(), memory);

    let serialized = serialize_artifact(&artifact, SerializationScheme::Archival).unwrap();
    assert!(serialized.len() > 0);

    let deserialized_artifact =
        deserialize_artifact(&serialized[..], SerializationScheme::Archival).unwrap();
    let (_, _, original_code) = artifact.consume();
    let (_, _, restored_code) = deserialized_artifact.consume();
    assert_eq!(restored_code.as_slice(), original_code.as_slice());
    assert_eq!(restored_code.protection(), original_code.protection());
}

#[test]
fn test_rkyv_artifact_inner() {
    let bytes = make_test_bytes();
    let memory = make_test_memory(&bytes);

    let module_info = make_empty_module_info();
    let artifact = Artifact::from_parts(module_info, b"test_backend".to_vec(), memory);

    let serialized = serialize_artifact(&artifact, SerializationScheme::Archival).unwrap();
    assert!(serialized.len() > 0);

    let restored = deserialize_artifact(&serialized[..], SerializationScheme::Archival).unwrap();
    let (info_a, meta_a, code_a) = artifact.consume();
    let (info_b, meta_b, code_b) = restored.consume();
    assert_eq!(info_a, info_b);
    assert_eq!(meta_a, meta_b);
    assert_eq!(code_a.as_slice(), code_b.as_slice());
    assert_eq!(code_a.protection(), code_b.protection());
}

#[test]
fn test_rkyv_compact_memory() {
    let bytes = make_test_bytes();
    let memory = make_test_memory(&bytes);

    let compact_memory = CompactMemory::from_memory(&memory);
    assert_eq!(compact_memory.contents, bytes);

    let deserialized_memory = compact_memory.into_memory().unwrap();
    assert_eq!(deserialized_memory.protection(), memory.protection());
    assert_eq!(deserialized_memory.as_slice(), memory.as_slice());
}

#[test]
fn test_new_memory() {
    let bytes = make_test_bytes();
    let memory = make_test_memory(&bytes);
    assert_eq!(memory.as_slice(), &bytes[..]);
}

#[test]
fn compact_round_trip_preserves_the_artifact() {
    // Serialize a populated artifact, read it back, and compare every part.
    let bytes = make_test_bytes();
    let memory = make_test_memory(&bytes);
    let mut memory = memory;
    memory.set_content_size(12);
    let artifact = Artifact::from_parts(make_populated_module_info(), vec![9, 8, 7], memory);

    let serialized = serialize_artifact(&artifact, SerializationScheme::Compact).unwrap();
    let restored = deserialize_artifact(&serialized[..], SerializationScheme::Compact).unwrap();

    let (info_a, meta_a, code_a) = artifact.consume();
    let (info_b, meta_b, code_b) = restored.consume();
    assert_eq!(info_a, info_b);
    assert_eq!(meta_a, meta_b);
    assert_eq!(code_a.content_size(), code_b.content_size());
    assert_eq!(
        &code_a.as_slice()[..code_a.content_size() as usize],
        &code_b.as_slice()[..code_b.content_size() as usize]
    );
    assert_eq!(code_a.protection(), code_b.protection());
}

#[test]
fn corrupted_magic_and_version_are_told_apart() {
    // Mutating a byte within the magic yields InvalidMagic; mutating the
    // version field instead yields InvalidatedCache.
    let bytes = make_test_bytes();
    let memory = make_test_memory(&bytes);
    let artifact = Artifact::from_parts(make_empty_module_info(), b"x".to_vec(), memory);
    let serialized = serialize_artifact(&artifact, SerializationScheme::Compact).unwrap();

    let mut bad_magic = serialized.clone();
    bad_magic[3] ^= 0xff;
    match deserialize_artifact(&bad_magic[..], SerializationScheme::Compact) {
        Err(Error::InvalidFile(InvalidFileType::InvalidMagic)) => {}
        other => panic!("expected InvalidMagic, got {:?}", other.map(|_| ())),
    }

    let mut bad_version = serialized.clone();
    bad_version[8] ^= 0xff;
    match deserialize_artifact(&bad_version[..], SerializationScheme::Compact) {
        Err(Error::InvalidatedCache) => {}
        other => panic!("expected InvalidatedCache, got {:?}", other.map(|_| ())),
    }
}

#[test]
fn malformed_memory_declarations_are_rejected_on_decode() {
    // A module whose memory declares minimum above maximum serializes (the
    // encoding only needs the length prefixes to fit), but decoding rejects
    // the declaration.
    let bytes = make_test_bytes();
    let memory = make_test_memory(&bytes);
    let mut info = make_empty_module_info();
    info.memories.push(MemoryDescriptor {
        minimum: 9,
        maximum: Some(2),
    });
    let artifact = Artifact::from_parts(info, Vec::new(), memory);
    let serialized = serialize_artifact(&artifact, SerializationScheme::Compact).unwrap();
    match deserialize_artifact(&serialized[..], SerializationScheme::Compact) {
        Err(Error::DeserializeError(_)) => {}
        other => panic!("expected DeserializeError, got {:?}", other.map(|_| ())),
    }
}

#[test]
fn undersized_buffers_are_rejected() {
    match deserialize_artifact(&[1, 2, 3], SerializationScheme::Compact) {
        Err(Error::InvalidFile(InvalidFileType::InvalidSize)) => {}
        other => panic!("expected InvalidSize, got {:?}", other.map(|_| ())),
    }
}

#[test]
fn header_layout_is_magic_version_length() {
    let header = ArtifactHeader {
        version: 0,
        data_len: 0x0102_0304,
    };
    let encoded = header.as_bytes();
    assert_eq!(&encoded[..8], &[0x57, 0x41, 0x53, 0x4D, 0x45, 0x52, 0x00, 0x00]);
    assert_eq!(&encoded[8..16], &[0; 8]);
    assert_eq!(&encoded[16..24], &[0x04, 0x03, 0x02, 0x01, 0, 0, 0, 0]);
}

#[test]
fn hash_of_empty_input_matches_the_reference_digest() {
    let hash = WasmHash::generate(b"");
    assert_eq!(
        hash.encode(),
        "af1349b9f5f9a1a6a0404dea36dcc9499bcb25c9adc112b7cc9a93cae41f3262"
    );
}

#[test]
fn hash_decode_inverts_encode() {
    let hash = WasmHash::generate(b"some wasm module bytes");
    let text = hash.encode();
    let recovered = WasmHash::decode(&text).unwrap();
    assert_eq!(recovered, hash);
}

#[test]
fn hash_decode_rejects_bad_input() {
    assert!(WasmHash::decode("abc").is_err());
    assert!(WasmHash::decode("zz").is_err());
    assert!(WasmHash::decode("abcd").is_err());
    let long = "ab".repeat(33);
    assert!(WasmHash::decode(&long).is_err());
    let exact = "ab".repeat(32);
    assert!(WasmHash::decode(&exact).is_ok());
}

#[test]
fn protection_constants_match_the_os_encoding() {
    assert_eq!(Protect::NoAccess.to_protect_const(), 0);
    assert_eq!(Protect::Read.to_protect_const(), 1);
    assert_eq!(Protect::ReadWrite.to_protect_const(), 3);
    assert_eq!(Protect::ReadExec.to_protect_const(), 5);
    assert_eq!(Protect::ReadWriteExec.to_protect_const(), 7);
    assert!(!Protect::NoAccess.is_readable());
    assert!(Protect::ReadExec.is_readable());
    assert!(!Protect::ReadExec.is_writable());
    assert!(Protect::ReadWriteExec.is_writable());
}

#[test]
fn memory_split_and_protect() {
    let page = page_size::get();
    let mut memory = Memory::with_size_protect(2 * page, Protect::ReadWrite).unwrap();
    assert_eq!(memory.size(), 2 * page);
    let second = memory.split_at(page);
    assert_eq!(memory.size(), page);
    assert_eq!(second.size(), page);
    assert_eq!(second.protection(), Protect::ReadWrite);
    let end = memory.size();
    memory.protect(0, end, Protect::ReadExec).unwrap();
    assert_eq!(memory.protection(), Protect::ReadExec);
}

#[test]
fn cloning_a_memory_copies_bytes_but_not_content_size() {
    let bytes = make_test_bytes();
    let mut memory = make_test_memory(&bytes);
    memory.set_content_size(12);
    let copy = memory.clone();
    assert_eq!(copy.as_slice(), memory.as_slice());
    assert_eq!(copy.protection(), memory.protection());
    // A clone is a fresh mapping; the content size is not carried over.
    assert_eq!(copy.content_size(), 0);
    assert_eq!(copy.page_size(), memory.page_size());
}

#[test]
fn sizes_round_up_to_whole_pages() {
    assert_eq!(round_up_to_page_size(0, 4096), 0);
    assert_eq!(round_up_to_page_size(1, 4096), 4096);
    assert_eq!(round_up_to_page_size(4096, 4096), 4096);
    assert_eq!(round_up_to_page_size(4097, 4096), 8192);
    assert_eq!(round_down_to_page_size(4097, 4096), 4096);
    assert_eq!(round_down_to_page_size(4095, 4096), 0);
}

#[test]
fn zero_sized_memory_is_an_empty_placeholder() {
    let memory = Memory::with_size(0).unwrap();
    assert_eq!(memory.size(), 0);
    assert_eq!(memory.content_size(), 0);
    assert_eq!(memory.protection(), Protect::NoAccess);
}

#[test]
fn content_size_bounds_the_contents_slice() {
    let mut memory = Memory::with_content_size_protect(100, Protect::ReadWrite).unwrap();
    assert_eq!(memory.content_size(), 100);
    assert!(memory.size() >= 100);
    assert_eq!(memory.as_slice_contents().len(), 100);
    memory.set_content_size(10);
    assert_eq!(memory.as_slice_contents().len(), 10);
}
