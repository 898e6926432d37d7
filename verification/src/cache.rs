//! The artifact cache: serializing a compiled module — its metadata, its
//! backend bytes and its executable memory region — to a self-describing
//! byte buffer, and reconstructing it in another process.
//!
//! Two interchangeable body encodings exist behind a caller-supplied
//! scheme: the compact scheme prefixes the body with a magic-and-version
//! header; the archival scheme stores the bare body. Produced and consumed
//! caches must use the same scheme.

use vstd::prelude::*;
use crate::memory::{Memory, Protect};
use crate::module_info::{
    ModuleInfo,
    MemoryDescriptor,
    TableDescriptor,
    DataInitializer,
    ElemInitializer,
    ExportEntry,
};

verus! {

/// Indicates the invalid type of an invalid cache file.
#[derive(Clone, Copy, PartialEq, Eq, Structural, Debug)]
pub enum InvalidFileType {
    /// The buffer is shorter than a cache header.
    InvalidSize,
    /// The buffer does not start with the expected magic bytes.
    InvalidMagic,
}

/// Kinds of caching errors.
#[derive(Clone, PartialEq, Eq, Debug)]
pub enum Error {
    /// An error while reading or writing a cache binary.
    IoError(String),
    /// An error deserializing bytes into a cache data structure.
    DeserializeError(String),
    /// An error serializing bytes from a cache data structure.
    SerializeError(String),
    /// An undefined caching error with a message.
    Unknown(String),
    /// An invalid cache binary was given.
    InvalidFile(InvalidFileType),
    /// The cached binary has been invalidated by a version change.
    InvalidatedCache,
    /// The current backend does not support caching.
    UnsupportedBackend(String),
}

/// The version written into every cache header.
pub const CURRENT_CACHE_VERSION: u64 = 0;

/// The magic bytes opening every cache header.
pub open spec fn spec_cache_magic() -> Seq<u8> {
    seq![0x57u8, 0x41u8, 0x53u8, 0x4Du8, 0x45u8, 0x52u8, 0u8, 0u8]
}

/// The magic bytes, as a vector.
pub fn cache_magic() -> (r: Vec<u8>)
    ensures
        r@ =~= spec_cache_magic(),
{
    let mut v: Vec<u8> = Vec::new();
    v.push(0x57);
    v.push(0x41);
    v.push(0x53);
    v.push(0x4D);
    v.push(0x45);
    v.push(0x52);
    v.push(0);
    v.push(0);
    v
}

/// The lowercase hexadecimal digit for a value below sixteen.
pub open spec fn spec_hex_digit(n: u8) -> char
    recommends
        n < 16,
{
    if n == 0 {
        '0'
    } else if n == 1 {
        '1'
    } else if n == 2 {
        '2'
    } else if n == 3 {
        '3'
    } else if n == 4 {
        '4'
    } else if n == 5 {
        '5'
    } else if n == 6 {
        '6'
    } else if n == 7 {
        '7'
    } else if n == 8 {
        '8'
    } else if n == 9 {
        '9'
    } else if n == 10 {
        'a'
    } else if n == 11 {
        'b'
    } else if n == 12 {
        'c'
    } else if n == 13 {
        'd'
    } else if n == 14 {
        'e'
    } else {
        'f'
    }
}

/// The lowercase hexadecimal form of a byte string: two digits per byte,
/// high nibble first.
pub open spec fn spec_hex_of(s: Seq<u8>) -> Seq<char> {
    Seq::new(
        s.len() * 2,
        |i: int|
            if i % 2 == 0 {
                spec_hex_digit(s[i / 2] >> 4)
            } else {
                spec_hex_digit(s[i / 2] & 15)
            },
    )
}

/// Whether a character belongs to the hexadecimal alphabet, either case.
pub open spec fn spec_is_hex_char(c: char) -> bool {
    ('0' <= c && c <= '9') || ('a' <= c && c <= 'f') || ('A' <= c && c <= 'F')
}

/// The value of one hexadecimal character.
pub open spec fn spec_hex_val(c: char) -> u8
    recommends
        spec_is_hex_char(c),
{
    if '0' <= c && c <= '9' {
        (c as u32 - '0' as u32) as u8
    } else if 'a' <= c && c <= 'f' {
        (c as u32 - 'a' as u32 + 10) as u8
    } else {
        (c as u32 - 'A' as u32 + 10) as u8
    }
}

/// The bytes of an even-length hexadecimal character string.
pub open spec fn spec_hex_decode(s: Seq<char>) -> Seq<u8> {
    Seq::new(
        s.len() / 2,
        |i: int| (spec_hex_val(s[2 * i]) * 16 + spec_hex_val(s[2 * i + 1])) as u8,
    )
}

/// A nibble's digit is a hexadecimal character whose value is the nibble.
proof fn lemma_hex_digit_val(n: u8)
    requires
        n < 16,
    ensures
        spec_is_hex_char(spec_hex_digit(n)),
        spec_hex_val(spec_hex_digit(n)) == n,
{
}

/// Hexadecimal decoding inverts encoding: the encoded form of any byte
/// string is valid hexadecimal of twice the length and decodes back to the
/// bytes. With the digest length exposed by `WasmHash::generate`, this is
/// what makes `WasmHash::decode` invert `WasmHash::encode`.
pub proof fn lemma_hex_round_trip(s: Seq<u8>)
    ensures
        spec_valid_hex(spec_hex_of(s)),
        spec_hex_of(s).len() == s.len() * 2,
        spec_hex_decode(spec_hex_of(s)) == s,
{
    let h = spec_hex_of(s);
    assert forall|i: int| 0 <= i < h.len() implies spec_is_hex_char(#[trigger] h[i]) by {
        let b = s[i / 2];
        assert(b >> 4 < 16 && (b & 15) < 16) by (bit_vector);
        lemma_hex_digit_val(b >> 4);
        lemma_hex_digit_val(b & 15);
    }
    assert forall|i: int| 0 <= i < s.len() implies spec_hex_decode(h)[i] == s[i] by {
        let b = s[i];
        assert(h[2 * i] == spec_hex_digit(b >> 4));
        assert(h[2 * i + 1] == spec_hex_digit(b & 15));
        assert(b >> 4 < 16 && (b & 15) < 16) by (bit_vector);
        lemma_hex_digit_val(b >> 4);
        lemma_hex_digit_val(b & 15);
        assert(((b >> 4) * 16 + (b & 15)) as u8 == b) by (bit_vector);
    }
    assert(spec_hex_decode(h) =~= s);
}

/// Relies on hex::encode: the lowercase hexadecimal form of the bytes, two
/// digits per byte, high nibble first.
#[verifier::external_body]
fn hex_encode_bytes(bytes: &[u8]) -> (r: String)
    ensures
        r@ == spec_hex_of(bytes@),
{
    hex::encode(bytes)
}

/// A hexadecimal string: even length, every character in the alphabet.
pub open spec fn spec_valid_hex(s: Seq<char>) -> bool {
    s.len() % 2 == 0 && (forall|i: int| 0 <= i < s.len() ==> spec_is_hex_char(#[trigger] s[i]))
}

/// Relies on hex::decode: accepts upper and lower case digits and rejects
/// exactly the strings of odd length or with a character outside the
/// hexadecimal alphabet.
#[verifier::external_body]
fn hex_decode_str(s: &str) -> (r: Result<Vec<u8>, String>)
    ensures
        r is Ok <==> spec_valid_hex(s@),
        r matches Ok(v) ==> v@ == spec_hex_decode(s@),
{
    match hex::decode(s) {
        Ok(v) => Ok(v),
        Err(e) => Err(e.to_string()),
    }
}

/// The digest an input hashes to; it depends on the input bytes alone.
pub uninterp spec fn blake3_of(data: Seq<u8>) -> Seq<u8>;

/// Relies on blake3::hash: the 32-byte digest of the input.
#[verifier::external_body]
fn blake3_hash(data: &[u8]) -> (r: [u8; 32])
    ensures
        r@ == blake3_of(data@),
{
    blake3::hash(data).into()
}

/// The hash of a wasm module, used as a key when loading and storing
/// modules in a cache.
#[derive(Copy, Clone, PartialEq, Eq, Hash, Debug)]
pub struct WasmHash([u8; 32]);

impl WasmHash {
    /// The 32 bytes of the digest.
    pub closed spec fn spec_digest(self) -> Seq<u8> {
        self.0@
    }

    /// Hash a wasm module. No check is made that the supplied bytes are,
    /// in fact, a wasm module.
    pub fn generate(wasm: &[u8]) -> (r: WasmHash)
        ensures
            r.spec_digest() == blake3_of(wasm@),
            r.spec_digest().len() == 32,
    {
        WasmHash(blake3_hash(wasm))
    }

    /// The hexadecimal representation of the stored hash.
    pub fn encode(self) -> (r: String)
        ensures
            r@ == spec_hex_of(self.spec_digest()),
    {
        let arr = self.into_array();
        hex_encode_bytes(arr.as_slice())
    }

    /// Recover a hash from its hexadecimal representation; fails exactly
    /// on input that is not 64 hexadecimal characters.
    pub fn decode(hex_str: &str) -> (r: Result<WasmHash, Error>)
        ensures
            r is Ok <==> spec_valid_hex(hex_str@) && hex_str@.len() == 64,
            r matches Ok(h) ==> h.spec_digest() == spec_hex_decode(hex_str@)
                && h.spec_digest().len() == 32,
            r is Err ==> r matches Err(Error::DeserializeError(_)),
    {
        let bytes = match hex_decode_str(hex_str) {
            Ok(v) => v,
            Err(_) => {
                return Err(
                    Error::DeserializeError(
                        "could not decode the prehashed key as hexadecimal".to_owned(),
                    ),
                );
            },
        };
        if bytes.len() != 32 {
            return Err(
                Error::DeserializeError(
                    "prehashed keys must deserialize into exactly 32 bytes".to_owned(),
                ),
            );
        }
        let mut total = [0u8; 32];
        let mut i: usize = 0;
        while i < 32
            invariant
                i <= 32,
                bytes@.len() == 32,
                forall|j: int| 0 <= j < i ==> total@[j] == bytes@[j],
            decreases 32 - i,
        {
            total[i] = bytes[i];
            i = i + 1;
        }
        proof {
            assert(total@ =~= bytes@);
        }
        Ok(WasmHash(total))
    }

    /// The digest as a byte array.
    pub fn into_array(self) -> (r: [u8; 32])
        ensures
            r@ == self.spec_digest(),
            r@.len() == 32,
    {
        self.0
    }
}

/// A 32-bit value in little-endian bytes.
pub open spec fn spec_enc_u32(v: u32) -> Seq<u8> {
    seq![
        (v & 0xff) as u8,
        ((v >> 8) & 0xff) as u8,
        ((v >> 16) & 0xff) as u8,
        ((v >> 24) & 0xff) as u8,
    ]
}

/// A 64-bit value in little-endian bytes.
pub open spec fn spec_enc_u64(v: u64) -> Seq<u8> {
    seq![
        (v & 0xff) as u8,
        ((v >> 8) & 0xff) as u8,
        ((v >> 16) & 0xff) as u8,
        ((v >> 24) & 0xff) as u8,
        ((v >> 32) & 0xff) as u8,
        ((v >> 40) & 0xff) as u8,
        ((v >> 48) & 0xff) as u8,
        ((v >> 56) & 0xff) as u8,
    ]
}

/// A byte string, length-prefixed.
pub open spec fn spec_enc_bytes(s: Seq<u8>) -> Seq<u8> {
    spec_enc_u32(s.len() as u32) + s
}

/// The items of a list of 32-bit values, each in little-endian bytes.
pub open spec fn spec_enc_u32_items(s: Seq<u32>, i: int) -> Seq<u8>
    decreases s.len() - i,
    when 0 <= i <= s.len()
{
    if i >= s.len() {
        Seq::empty()
    } else {
        spec_enc_u32(s[i]) + spec_enc_u32_items(s, i + 1)
    }
}

/// The items of a list of 64-bit values.
pub open spec fn spec_enc_u64_items(s: Seq<u64>, i: int) -> Seq<u8>
    decreases s.len() - i,
    when 0 <= i <= s.len()
{
    if i >= s.len() {
        Seq::empty()
    } else {
        spec_enc_u64(s[i]) + spec_enc_u64_items(s, i + 1)
    }
}

/// The declared maximum of a memory, with the all-ones sentinel for an
/// unbounded one; declared maxima never reach the sentinel.
pub open spec fn spec_enc_maximum(maximum: Option<u32>) -> u32 {
    match maximum {
        Some(m) => m,
        _ => 0xffff_ffffu32,
    }
}

/// The items of the memory declarations: minimum, then maximum.
pub open spec fn spec_enc_memories(s: Seq<MemoryDescriptor>, i: int) -> Seq<u8>
    decreases s.len() - i,
    when 0 <= i <= s.len()
{
    if i >= s.len() {
        Seq::empty()
    } else {
        spec_enc_u32(s[i].minimum) + (spec_enc_u32(spec_enc_maximum(s[i].maximum))
            + spec_enc_memories(s, i + 1))
    }
}

/// The items of the table declarations.
pub open spec fn spec_enc_tables(s: Seq<TableDescriptor>, i: int) -> Seq<u8>
    decreases s.len() - i,
    when 0 <= i <= s.len()
{
    if i >= s.len() {
        Seq::empty()
    } else {
        spec_enc_u32(s[i].minimum) + spec_enc_tables(s, i + 1)
    }
}

/// The items of the data segments: memory index, offset, bytes.
pub open spec fn spec_enc_data_inits(s: Seq<DataInitializer>, i: int) -> Seq<u8>
    decreases s.len() - i,
    when 0 <= i <= s.len()
{
    if i >= s.len() {
        Seq::empty()
    } else {
        spec_enc_u32(s[i].memory_index) + (spec_enc_u32(s[i].offset) + (spec_enc_bytes(s[i].data@)
            + spec_enc_data_inits(s, i + 1)))
    }
}

/// The items of the element segments: table index, offset, elements.
pub open spec fn spec_enc_elem_inits(s: Seq<ElemInitializer>, i: int) -> Seq<u8>
    decreases s.len() - i,
    when 0 <= i <= s.len()
{
    if i >= s.len() {
        Seq::empty()
    } else {
        spec_enc_u32(s[i].table_index) + (spec_enc_u32(s[i].offset) + (spec_enc_u32(
            s[i].elems@.len() as u32,
        ) + (spec_enc_u32_items(s[i].elems@, 0) + spec_enc_elem_inits(s, i + 1))))
    }
}

/// The items of the exports: name bytes, then index.
pub open spec fn spec_enc_exports(s: Seq<ExportEntry>, i: int) -> Seq<u8>
    decreases s.len() - i,
    when 0 <= i <= s.len()
{
    if i >= s.len() {
        Seq::empty()
    } else {
        spec_enc_bytes(s[i].name@) + (spec_enc_u32(s[i].index) + spec_enc_exports(s, i + 1))
    }
}

/// The module description as bytes: each field in declaration order, every
/// list prefixed with its count.
pub open spec fn spec_enc_module_info(info: ModuleInfo) -> Seq<u8> {
    spec_enc_u32(info.memories@.len() as u32) + (spec_enc_memories(info.memories@, 0) + (
    spec_enc_u32(info.tables@.len() as u32) + (spec_enc_tables(info.tables@, 0) + (spec_enc_u32(
        info.globals@.len() as u32,
    ) + (spec_enc_u64_items(info.globals@, 0) + (spec_enc_u32(
        info.data_initializers@.len() as u32,
    ) + (spec_enc_data_inits(info.data_initializers@, 0) + (spec_enc_u32(
        info.elem_initializers@.len() as u32,
    ) + (spec_enc_elem_inits(info.elem_initializers@, 0) + (spec_enc_u32(
        info.exports@.len() as u32,
    ) + (spec_enc_exports(info.exports@, 0) + (spec_enc_u32(
        match info.start_func {
            Some(_) => 1u32,
            _ => 0u32,
        },
    ) + spec_enc_u32(
        match info.start_func {
            Some(f) => f,
            _ => 0u32,
        },
    )))))))))))))
}

/// The body of a cache: module description, backend metadata, and the
/// executable region's bytes, content size and protection.
pub open spec fn spec_enc_body(info: ModuleInfo, metadata: Seq<u8>, code: Memory) -> Seq<u8> {
    spec_enc_module_info(info) + (spec_enc_bytes(metadata) + (spec_enc_bytes(code.spec_bytes())
        + (spec_enc_u32(code.spec_content_size()) + spec_enc_u32(
        code.spec_protection().spec_to_protect_const(),
    ))))
}

/// The header of a cache file: magic, version, body length, all packed.
pub open spec fn spec_enc_header(version: u64, data_len: u64) -> Seq<u8> {
    spec_cache_magic() + spec_enc_u64(version) + spec_enc_u64(data_len)
}

/// Append a 32-bit value.
pub fn push_u32(out: &mut Vec<u8>, v: u32)
    ensures
        final(out)@ =~= old(out)@ + spec_enc_u32(v),
{
    out.push((v & 0xff) as u8);
    out.push(((v >> 8) & 0xff) as u8);
    out.push(((v >> 16) & 0xff) as u8);
    out.push(((v >> 24) & 0xff) as u8);
}

/// Append a 64-bit value.
pub fn push_u64(out: &mut Vec<u8>, v: u64)
    ensures
        final(out)@ =~= old(out)@ + spec_enc_u64(v),
{
    out.push((v & 0xff) as u8);
    out.push(((v >> 8) & 0xff) as u8);
    out.push(((v >> 16) & 0xff) as u8);
    out.push(((v >> 24) & 0xff) as u8);
    out.push(((v >> 32) & 0xff) as u8);
    out.push(((v >> 40) & 0xff) as u8);
    out.push(((v >> 48) & 0xff) as u8);
    out.push(((v >> 56) & 0xff) as u8);
}

/// Append a length-prefixed byte string.
pub fn push_bytes(out: &mut Vec<u8>, s: &[u8])
    requires
        s@.len() <= u32::MAX,
    ensures
        final(out)@ =~= old(out)@ + spec_enc_bytes(s@),
{
    push_u32(out, s.len() as u32);
    let mut i: usize = 0;
    while i < s.len()
        invariant
            i <= s@.len(),
            out@ =~= old(out)@ + spec_enc_u32(s@.len() as u32) + s@.subrange(0, i as int),
        decreases s@.len() - i,
    {
        let b = s[i];
        out.push(b);
        proof {
            assert(out@ =~= old(out)@ + spec_enc_u32(s@.len() as u32) + s@.subrange(
                0,
                i as int + 1,
            ));
        }
        i = i + 1;
    }
    proof {
        assert(s@.subrange(0, s@.len() as int) =~= s@);
    }
}

/// Append the items of a list of 32-bit values.
pub fn push_u32_items(out: &mut Vec<u8>, s: &Vec<u32>)
    ensures
        final(out)@ =~= old(out)@ + spec_enc_u32_items(s@, 0),
{
    let mut i: usize = 0;
    while i < s.len()
        invariant
            i <= s@.len(),
            out@ + spec_enc_u32_items(s@, i as int) =~= old(out)@ + spec_enc_u32_items(s@, 0),
        decreases s@.len() - i,
    {
        let v = s[i];
        push_u32(out, v);
        i = i + 1;
    }
}

/// Append the items of a list of 64-bit values.
pub fn push_u64_items(out: &mut Vec<u8>, s: &Vec<u64>)
    ensures
        final(out)@ =~= old(out)@ + spec_enc_u64_items(s@, 0),
{
    let mut i: usize = 0;
    while i < s.len()
        invariant
            i <= s@.len(),
            out@ + spec_enc_u64_items(s@, i as int) =~= old(out)@ + spec_enc_u64_items(s@, 0),
        decreases s@.len() - i,
    {
        let v = s[i];
        push_u64(out, v);
        i = i + 1;
    }
}

/// Append the items of the memory declarations.
fn push_memories(out: &mut Vec<u8>, s: &Vec<MemoryDescriptor>)
    ensures
        final(out)@ =~= old(out)@ + spec_enc_memories(s@, 0),
{
    let mut i: usize = 0;
    while i < s.len()
        invariant
            i <= s@.len(),
            out@ + spec_enc_memories(s@, i as int) =~= old(out)@ + spec_enc_memories(s@, 0),
        decreases s@.len() - i,
    {
        let d = s[i];
        push_u32(out, d.minimum);
        match d.maximum {
            Some(m) => push_u32(out, m),
            _ => push_u32(out, 0xffff_ffff),
        }
        i = i + 1;
    }
}

/// Append the items of the table declarations.
fn push_tables(out: &mut Vec<u8>, s: &Vec<TableDescriptor>)
    ensures
        final(out)@ =~= old(out)@ + spec_enc_tables(s@, 0),
{
    let mut i: usize = 0;
    while i < s.len()
        invariant
            i <= s@.len(),
            out@ + spec_enc_tables(s@, i as int) =~= old(out)@ + spec_enc_tables(s@, 0),
        decreases s@.len() - i,
    {
        let d = s[i];
        push_u32(out, d.minimum);
        i = i + 1;
    }
}

/// Append the items of the data segments.
fn push_data_inits(out: &mut Vec<u8>, s: &Vec<DataInitializer>)
    requires
        forall|j: int| 0 <= j < s@.len() ==> (#[trigger] s@[j]).data@.len() <= u32::MAX,
    ensures
        final(out)@ =~= old(out)@ + spec_enc_data_inits(s@, 0),
{
    let mut i: usize = 0;
    while i < s.len()
        invariant
            i <= s@.len(),
            forall|j: int| 0 <= j < s@.len() ==> (#[trigger] s@[j]).data@.len() <= u32::MAX,
            out@ + spec_enc_data_inits(s@, i as int) =~= old(out)@ + spec_enc_data_inits(s@, 0),
        decreases s@.len() - i,
    {
        push_u32(out, s[i].memory_index);
        push_u32(out, s[i].offset);
        push_bytes(out, s[i].data.as_slice());
        i = i + 1;
    }
}

/// Append the items of the element segments.
fn push_elem_inits(out: &mut Vec<u8>, s: &Vec<ElemInitializer>)
    requires
        forall|j: int| 0 <= j < s@.len() ==> (#[trigger] s@[j]).elems@.len() <= u32::MAX,
    ensures
        final(out)@ =~= old(out)@ + spec_enc_elem_inits(s@, 0),
{
    let mut i: usize = 0;
    while i < s.len()
        invariant
            i <= s@.len(),
            forall|j: int| 0 <= j < s@.len() ==> (#[trigger] s@[j]).elems@.len() <= u32::MAX,
            out@ + spec_enc_elem_inits(s@, i as int) =~= old(out)@ + spec_enc_elem_inits(s@, 0),
        decreases s@.len() - i,
    {
        push_u32(out, s[i].table_index);
        push_u32(out, s[i].offset);
        push_u32(out, s[i].elems.len() as u32);
        push_u32_items(out, &s[i].elems);
        i = i + 1;
    }
}

/// Append the items of the exports.
fn push_exports(out: &mut Vec<u8>, s: &Vec<ExportEntry>)
    requires
        forall|j: int| 0 <= j < s@.len() ==> (#[trigger] s@[j]).name@.len() <= u32::MAX,
    ensures
        final(out)@ =~= old(out)@ + spec_enc_exports(s@, 0),
{
    let mut i: usize = 0;
    while i < s.len()
        invariant
            i <= s@.len(),
            forall|j: int| 0 <= j < s@.len() ==> (#[trigger] s@[j]).name@.len() <= u32::MAX,
            out@ + spec_enc_exports(s@, i as int) =~= old(out)@ + spec_enc_exports(s@, 0),
        decreases s@.len() - i,
    {
        push_bytes(out, s[i].name.as_slice());
        push_u32(out, s[i].index);
        i = i + 1;
    }
}

/// Whether every count and length of the artifact fits the length prefixes
/// of the encoding.
pub open spec fn spec_encodable_info(info: ModuleInfo) -> bool {
    &&& info.memories@.len() <= u32::MAX
    &&& info.tables@.len() <= u32::MAX
    &&& info.globals@.len() <= u32::MAX
    &&& info.data_initializers@.len() <= u32::MAX
    &&& forall|j: int|
        0 <= j < info.data_initializers@.len() ==> (#[trigger] info.data_initializers@[
        j]).data@.len() <= u32::MAX
    &&& info.elem_initializers@.len() <= u32::MAX
    &&& forall|j: int|
        0 <= j < info.elem_initializers@.len() ==> (#[trigger] info.elem_initializers@[
        j]).elems@.len() <= u32::MAX
    &&& info.exports@.len() <= u32::MAX
    &&& forall|j: int|
        0 <= j < info.exports@.len() ==> (#[trigger] info.exports@[j]).name@.len() <= u32::MAX
}

/// Append the module description.
#[verifier::rlimit(100)]
fn push_module_info(out: &mut Vec<u8>, info: &ModuleInfo)
    requires
        spec_encodable_info(*info),
    ensures
        final(out)@ =~= old(out)@ + spec_enc_module_info(*info),
{
    push_u32(out, info.memories.len() as u32);
    push_memories(out, &info.memories);
    push_u32(out, info.tables.len() as u32);
    push_tables(out, &info.tables);
    push_u32(out, info.globals.len() as u32);
    push_u64_items(out, &info.globals);
    push_u32(out, info.data_initializers.len() as u32);
    push_data_inits(out, &info.data_initializers);
    push_u32(out, info.elem_initializers.len() as u32);
    push_elem_inits(out, &info.elem_initializers);
    push_u32(out, info.exports.len() as u32);
    push_exports(out, &info.exports);
    match info.start_func {
        Some(f) => {
            push_u32(out, 1);
            push_u32(out, f);
        },
        _ => {
            push_u32(out, 0);
            push_u32(out, 0);
        },
    }
    proof {
        // Re-associate the left-built buffer to the right-nested encoding,
        // one component at a time.
        let base = old(out)@;
        let sf: u32 = match info.start_func {
            Some(_) => 1u32,
            _ => 0u32,
        };
        let sv: u32 = match info.start_func {
            Some(f) => f,
            _ => 0u32,
        };
        let c1 = spec_enc_u32(info.memories@.len() as u32);
        let c2 = spec_enc_memories(info.memories@, 0);
        let c3 = spec_enc_u32(info.tables@.len() as u32);
        let c4 = spec_enc_tables(info.tables@, 0);
        let c5 = spec_enc_u32(info.globals@.len() as u32);
        let c6 = spec_enc_u64_items(info.globals@, 0);
        let c7 = spec_enc_u32(info.data_initializers@.len() as u32);
        let c8 = spec_enc_data_inits(info.data_initializers@, 0);
        let c9 = spec_enc_u32(info.elem_initializers@.len() as u32);
        let c10 = spec_enc_elem_inits(info.elem_initializers@, 0);
        let c11 = spec_enc_u32(info.exports@.len() as u32);
        let c12 = spec_enc_exports(info.exports@, 0);
        let c13 = spec_enc_u32(sf);
        let c14 = spec_enc_u32(sv);
        let u14 = c14;
        let u13 = c13 + u14;
        let u12 = c12 + u13;
        let u11 = c11 + u12;
        let u10 = c10 + u11;
        let u9 = c9 + u10;
        let u8x = c8 + u9;
        let u7 = c7 + u8x;
        let u6 = c6 + u7;
        let u5 = c5 + u6;
        let u4 = c4 + u5;
        let u3 = c3 + u4;
        let u2 = c2 + u3;
        assert(spec_enc_module_info(*info) == c1 + u2);
        lemma_add_assoc(base, c1, u2);
        lemma_add_assoc(base + c1, c2, u3);
        lemma_add_assoc(base + c1 + c2, c3, u4);
        lemma_add_assoc(base + c1 + c2 + c3, c4, u5);
        lemma_add_assoc(base + c1 + c2 + c3 + c4, c5, u6);
        lemma_add_assoc(base + c1 + c2 + c3 + c4 + c5, c6, u7);
        lemma_add_assoc(base + c1 + c2 + c3 + c4 + c5 + c6, c7, u8x);
        lemma_add_assoc(base + c1 + c2 + c3 + c4 + c5 + c6 + c7, c8, u9);
        lemma_add_assoc(base + c1 + c2 + c3 + c4 + c5 + c6 + c7 + c8, c9, u10);
        lemma_add_assoc(base + c1 + c2 + c3 + c4 + c5 + c6 + c7 + c8 + c9, c10, u11);
        lemma_add_assoc(base + c1 + c2 + c3 + c4 + c5 + c6 + c7 + c8 + c9 + c10, c11, u12);
        lemma_add_assoc(base + c1 + c2 + c3 + c4 + c5 + c6 + c7 + c8 + c9 + c10 + c11, c12, u13);
        lemma_add_assoc(
            base + c1 + c2 + c3 + c4 + c5 + c6 + c7 + c8 + c9 + c10 + c11 + c12,
            c13,
            u14,
        );
        assert(out@ =~= base + c1 + c2 + c3 + c4 + c5 + c6 + c7 + c8 + c9 + c10 + c11 + c12 + c13
            + c14);
    }
}

/// A 32-bit value read back from four little-endian bytes.
pub open spec fn spec_dec_u32(s: Seq<u8>) -> u32 {
    (s[0] + s[1] * 0x100 + s[2] * 0x1_0000 + s[3] * 0x100_0000) as u32
}

/// A 64-bit value read back from eight little-endian bytes.
pub open spec fn spec_dec_u64(s: Seq<u8>) -> u64 {
    (s[0] + s[1] * 0x100 + s[2] * 0x1_0000 + s[3] * 0x100_0000 + s[4] * 0x1_0000_0000 + s[5]
        * 0x100_0000_0000 + s[6] * 0x1_0000_0000_0000 + s[7] * 0x100_0000_0000_0000) as u64
}

/// Reading four encoded bytes yields the encoded value.
pub proof fn lemma_dec_enc_u32(v: u32)
    ensures
        spec_dec_u32(spec_enc_u32(v)) == v,
{
    assert((((v & 0xff) as u8) + (((v >> 8) & 0xff) as u8) * 0x100 + (((v >> 16) & 0xff) as u8)
        * 0x1_0000 + (((v >> 24) & 0xff) as u8) * 0x100_0000) as u32 == v) by (bit_vector);
}

/// Reading eight encoded bytes yields the encoded value.
pub proof fn lemma_dec_enc_u64(v: u64)
    ensures
        spec_dec_u64(spec_enc_u64(v)) == v,
{
    assert((((v & 0xff) as u8) + (((v >> 8) & 0xff) as u8) * 0x100 + (((v >> 16) & 0xff) as u8)
        * 0x1_0000 + (((v >> 24) & 0xff) as u8) * 0x100_0000 + (((v >> 32) & 0xff) as u8)
        * 0x1_0000_0000 + (((v >> 40) & 0xff) as u8) * 0x100_0000_0000 + (((v >> 48)
        & 0xff) as u8) * 0x1_0000_0000_0000 + (((v >> 56) & 0xff) as u8)
        * 0x100_0000_0000_0000) as u64 == v) by (bit_vector);
}

/// Read a 32-bit value.
pub fn read_u32(buf: &[u8], pos: usize) -> (r: Option<(u32, usize)>)
    ensures
        r matches Some((v, p2)) ==> {
            &&& pos + 4 <= buf@.len()
            &&& p2 == pos + 4
            &&& v == spec_dec_u32(buf@.subrange(pos as int, pos + 4))
        },
        r is Some <==> pos + 4 <= buf@.len(),
{
    if buf.len() < 4 || pos > buf.len() - 4 {
        return Option::None;
    }
    let b0 = buf[pos] as u32;
    let b1 = buf[pos + 1] as u32;
    let b2 = buf[pos + 2] as u32;
    let b3 = buf[pos + 3] as u32;
    let v = b0 | (b1 << 8) | (b2 << 16) | (b3 << 24);
    proof {
        let s = buf@.subrange(pos as int, pos + 4);
        let x0 = s[0];
        let x1 = s[1];
        let x2 = s[2];
        let x3 = s[3];
        assert((x0 as u32) | ((x1 as u32) << 8) | ((x2 as u32) << 16) | ((x3 as u32) << 24) == (
        x0 + x1 * 0x100 + x2 * 0x1_0000 + x3 * 0x100_0000) as u32) by (bit_vector);
    }
    Some((v, pos + 4))
}

/// Read a 64-bit value.
pub fn read_u64(buf: &[u8], pos: usize) -> (r: Option<(u64, usize)>)
    ensures
        r matches Some((v, p2)) ==> {
            &&& pos + 8 <= buf@.len()
            &&& p2 == pos + 8
            &&& v == spec_dec_u64(buf@.subrange(pos as int, pos + 8))
        },
        r is Some <==> pos + 8 <= buf@.len(),
{
    if buf.len() < 8 || pos > buf.len() - 8 {
        return Option::None;
    }
    let b0 = buf[pos] as u64;
    let b1 = buf[pos + 1] as u64;
    let b2 = buf[pos + 2] as u64;
    let b3 = buf[pos + 3] as u64;
    let b4 = buf[pos + 4] as u64;
    let b5 = buf[pos + 5] as u64;
    let b6 = buf[pos + 6] as u64;
    let b7 = buf[pos + 7] as u64;
    let v = b0 | (b1 << 8) | (b2 << 16) | (b3 << 24) | (b4 << 32) | (b5 << 40) | (b6 << 48) | (
    b7 << 56);
    proof {
        let s = buf@.subrange(pos as int, pos + 8);
        let x0 = s[0];
        let x1 = s[1];
        let x2 = s[2];
        let x3 = s[3];
        let x4 = s[4];
        let x5 = s[5];
        let x6 = s[6];
        let x7 = s[7];
        assert((x0 as u64) | ((x1 as u64) << 8) | ((x2 as u64) << 16) | ((x3 as u64) << 24) | ((
        x4 as u64) << 32) | ((x5 as u64) << 40) | ((x6 as u64) << 48) | ((x7 as u64) << 56) == (
        x0 + x1 * 0x100 + x2 * 0x1_0000 + x3 * 0x100_0000 + x4 * 0x1_0000_0000 + x5
            * 0x100_0000_0000 + x6 * 0x1_0000_0000_0000 + x7 * 0x100_0000_0000_0000) as u64)
            by (bit_vector);
    }
    Some((v, pos + 8))
}

/// The header of a cache file: the version and the body length that follow
/// the magic bytes.
#[derive(Clone, Copy, PartialEq, Eq, Structural, Debug)]
pub struct ArtifactHeader {
    /// The cache format version.
    pub version: u64,
    /// The length of the body that follows the header.
    pub data_len: u64,
}

/// The byte length of an encoded header.
pub const HEADER_LEN: usize = 24;

impl ArtifactHeader {
    /// The packed bytes of this header.
    pub fn as_bytes(&self) -> (r: Vec<u8>)
        ensures
            r@ =~= spec_enc_header(self.version, self.data_len),
    {
        let mut out = cache_magic();
        push_u64(&mut out, self.version);
        push_u64(&mut out, self.data_len);
        out
    }

    /// Validate a buffer's header: its size, its magic bytes, and its
    /// version, in that order, each failure with its own error. On success,
    /// the header and the offset where the body starts.
    pub fn read_from_slice(buffer: &[u8]) -> (r: Result<(ArtifactHeader, usize), Error>)
        ensures
            buffer@.len() < HEADER_LEN <==> r == Err::<(ArtifactHeader, usize), Error>(
                Error::InvalidFile(InvalidFileType::InvalidSize),
            ),
            buffer@.len() >= HEADER_LEN && buffer@.subrange(0, 8) != spec_cache_magic() <==> r
                == Err::<(ArtifactHeader, usize), Error>(
                Error::InvalidFile(InvalidFileType::InvalidMagic),
            ),
            buffer@.len() >= HEADER_LEN && buffer@.subrange(0, 8) == spec_cache_magic()
                && spec_dec_u64(buffer@.subrange(8, 16)) != CURRENT_CACHE_VERSION <==> r
                == Err::<(ArtifactHeader, usize), Error>(Error::InvalidatedCache),
            buffer@.len() >= HEADER_LEN && buffer@.subrange(0, 8) == spec_cache_magic()
                && spec_dec_u64(buffer@.subrange(8, 16)) == CURRENT_CACHE_VERSION ==> r is Ok,
            r matches Ok((header, body_start)) ==> {
                &&& buffer@.len() >= HEADER_LEN
                &&& buffer@.subrange(0, 8) == spec_cache_magic()
                &&& header.version == spec_dec_u64(buffer@.subrange(8, 16))
                &&& header.version == CURRENT_CACHE_VERSION
                &&& header.data_len == spec_dec_u64(buffer@.subrange(16, 24))
                &&& body_start == HEADER_LEN
            },
    {
        if buffer.len() < HEADER_LEN {
            return Err(Error::InvalidFile(InvalidFileType::InvalidSize));
        }
        let magic = cache_magic();
        let mut i: usize = 0;
        while i < 8
            invariant
                i <= 8,
                buffer@.len() >= HEADER_LEN,
                magic@ =~= spec_cache_magic(),
                buffer@.subrange(0, i as int) =~= spec_cache_magic().subrange(0, i as int),
            decreases 8 - i,
        {
            if buffer[i] != magic[i] {
                proof {
                    assert(buffer@.subrange(0, 8)[i as int] != spec_cache_magic()[i as int]);
                }
                return Err(Error::InvalidFile(InvalidFileType::InvalidMagic));
            }
            proof {
                assert(buffer@.subrange(0, i as int + 1) =~= spec_cache_magic().subrange(
                    0,
                    i as int + 1,
                ));
            }
            i = i + 1;
        }
        proof {
            assert(buffer@.subrange(0, 8) =~= spec_cache_magic());
        }
        let version = match read_u64(buffer, 8) {
            Some((v, _)) => v,
            Option::None => {
                return Err(Error::InvalidFile(InvalidFileType::InvalidSize));
            },
        };
        if version != CURRENT_CACHE_VERSION {
            return Err(Error::InvalidatedCache);
        }
        let data_len = match read_u64(buffer, 16) {
            Some((v, _)) => v,
            Option::None => {
                return Err(Error::InvalidFile(InvalidFileType::InvalidSize));
            },
        };
        Ok((ArtifactHeader { version, data_len }, HEADER_LEN))
    }
}

/// Inner information of an artifact: the module description, the backend's
/// opaque bytes, and the executable region, produced together and always
/// serialized together.
pub struct ArtifactInner {
    /// The full static description of the module.
    pub info: ModuleInfo,
    /// An opaque blob interpreted only by the generating backend.
    pub backend_metadata: Vec<u8>,
    /// The compiled machine code.
    pub compiled_code: Memory,
}

/// Artifacts are produced by compilation, are serialized and deserialized
/// as cache binaries, and contain module info, backend metadata, and
/// compiled code.
pub struct Artifact {
    inner: ArtifactInner,
}

/// Whether the whole artifact fits the encoding's length prefixes.
pub open spec fn spec_encodable(info: ModuleInfo, metadata: Seq<u8>, code: Memory) -> bool {
    &&& spec_encodable_info(info)
    &&& metadata.len() <= u32::MAX
    &&& code.spec_size() <= u32::MAX
}

impl Artifact {
    /// Assemble an artifact from its parts.
    pub fn from_parts(info: ModuleInfo, backend_metadata: Vec<u8>, compiled_code: Memory) -> (r:
        Artifact)
        ensures
            r.spec_info() == info,
            r.spec_metadata() == backend_metadata@,
            r.spec_code() == compiled_code,
    {
        Artifact { inner: ArtifactInner { info, backend_metadata, compiled_code } }
    }

    /// The stored module description.
    pub closed spec fn spec_info(self) -> ModuleInfo {
        self.inner.info
    }

    /// The stored backend metadata.
    pub closed spec fn spec_metadata(self) -> Seq<u8> {
        self.inner.backend_metadata@
    }

    /// The stored executable region.
    pub closed spec fn spec_code(self) -> Memory {
        self.inner.compiled_code
    }

    /// A reference to the artifact's stored module description.
    pub fn info(&self) -> (r: &ModuleInfo)
        ensures
            *r == self.spec_info(),
    {
        &self.inner.info
    }

    /// Take the artifact apart.
    pub fn consume(self) -> (r: (ModuleInfo, Vec<u8>, Memory))
        ensures
            r.0 == self.spec_info(),
            r.1@ == self.spec_metadata(),
            r.2 == self.spec_code(),
    {
        (self.inner.info, self.inner.backend_metadata, self.inner.compiled_code)
    }

    /// The exact bytes of this artifact under the compact scheme: the
    /// header, with the body length filled in, followed by the body.
    pub open spec fn spec_cached_bytes(self) -> Seq<u8> {
        spec_enc_header(
            CURRENT_CACHE_VERSION as u64,
            spec_enc_body(self.spec_info(), self.spec_metadata(), self.spec_code()).len() as u64,
        ) + spec_enc_body(self.spec_info(), self.spec_metadata(), self.spec_code())
    }

    /// The exact bytes of this artifact's bare body, the archival scheme.
    pub open spec fn spec_body_bytes(self) -> Seq<u8> {
        spec_enc_body(self.spec_info(), self.spec_metadata(), self.spec_code())
    }

    /// Serialize the bare body.
    pub fn serialize_body(&self) -> (r: Result<Vec<u8>, Error>)
        ensures
            r is Ok <==> spec_encodable(self.spec_info(), self.spec_metadata(), self.spec_code()),
            r matches Ok(v) ==> v@ == self.spec_body_bytes(),
            r is Err ==> r matches Err(Error::SerializeError(_)),
    {
        if !self.encodable() {
            return Err(
                Error::SerializeError("artifact does not fit the cache encoding".to_owned()),
            );
        }
        let mut out: Vec<u8> = Vec::new();
        push_module_info(&mut out, &self.inner.info);
        push_bytes(&mut out, self.inner.backend_metadata.as_slice());
        push_bytes(&mut out, self.inner.compiled_code.as_slice());
        push_u32(&mut out, self.inner.compiled_code.content_size());
        push_u32(&mut out, self.inner.compiled_code.protection().to_protect_const());
        Ok(out)
    }

    /// Serialize the artifact into a vector of bytes under the compact
    /// scheme: the header, then the body.
    pub fn serialize(&self) -> (r: Result<Vec<u8>, Error>)
        ensures
            r is Ok <==> spec_encodable(self.spec_info(), self.spec_metadata(), self.spec_code()),
            r matches Ok(v) ==> v@ == self.spec_cached_bytes(),
            r is Err ==> r matches Err(Error::SerializeError(_)),
    {
        let body = match self.serialize_body() {
            Ok(b) => b,
            Err(e) => {
                return Err(e);
            },
        };
        let header = ArtifactHeader {
            version: CURRENT_CACHE_VERSION,
            data_len: body.len() as u64,
        };
        let mut out = header.as_bytes();
        let mut i: usize = 0;
        while i < body.len()
            invariant
                i <= body@.len(),
                out@ =~= spec_enc_header(CURRENT_CACHE_VERSION as u64, body@.len() as u64)
                    + body@.subrange(0, i as int),
            decreases body@.len() - i,
        {
            let b = body[i];
            out.push(b);
            proof {
                assert(out@ =~= spec_enc_header(CURRENT_CACHE_VERSION as u64, body@.len() as u64)
                    + body@.subrange(0, i as int + 1));
            }
            i = i + 1;
        }
        proof {
            assert(body@.subrange(0, body@.len() as int) =~= body@);
        }
        Ok(out)
    }

    /// Whether every count and length fits the encoding.
    #[verifier::loop_isolation(false)]
    fn encodable(&self) -> (r: bool)
        ensures
            r == spec_encodable(self.spec_info(), self.spec_metadata(), self.spec_code()),
    {
        let info = &self.inner.info;
        if info.memories.len() as u64 > u32::MAX as u64
            || info.tables.len() as u64 > u32::MAX as u64
            || info.globals.len() as u64 > u32::MAX as u64
            || info.data_initializers.len() as u64 > u32::MAX as u64
            || info.elem_initializers.len() as u64 > u32::MAX as u64
            || info.exports.len() as u64 > u32::MAX as u64
            || self.inner.backend_metadata.len() as u64 > u32::MAX as u64
            || self.inner.compiled_code.size() as u64 > u32::MAX as u64 {
            return false;
        }
        let mut i: usize = 0;
        while i < info.data_initializers.len()
            invariant
                i <= info.data_initializers@.len(),
                forall|j: int|
                    0 <= j < i ==> (#[trigger] info.data_initializers@[j]).data@.len()
                        <= u32::MAX,
            decreases info.data_initializers@.len() - i,
        {
            if info.data_initializers[i].data.len() as u64 > u32::MAX as u64 {
                return false;
            }
            i = i + 1;
        }
        let mut i: usize = 0;
        while i < info.elem_initializers.len()
            invariant
                i <= info.elem_initializers@.len(),
                forall|j: int|
                    0 <= j < i ==> (#[trigger] info.elem_initializers@[j]).elems@.len()
                        <= u32::MAX,
            decreases info.elem_initializers@.len() - i,
        {
            if info.elem_initializers[i].elems.len() as u64 > u32::MAX as u64 {
                return false;
            }
            i = i + 1;
        }
        let mut i: usize = 0;
        while i < info.exports.len()
            invariant
                i <= info.exports@.len(),
                forall|j: int|
                    0 <= j < i ==> (#[trigger] info.exports@[j]).name@.len() <= u32::MAX,
            decreases info.exports@.len() - i,
        {
            if info.exports[i].name.len() as u64 > u32::MAX as u64 {
                return false;
            }
            i = i + 1;
        }
        true
    }
}

/// Read a length-prefixed byte string.
pub fn read_bytes(buf: &[u8], pos: usize) -> (r: Option<(Vec<u8>, usize)>)
    ensures
        r matches Some((v, p2)) ==> pos <= p2 <= buf@.len(),
{
    let (n, pos) = match read_u32(buf, pos) {
        Some(x) => x,
        Option::None => {
            return Option::None;
        },
    };
    if n as usize > buf.len() - pos {
        return Option::None;
    }
    let v = vstd::slice::slice_to_vec(vstd::slice::slice_subrange(buf, pos, pos + n as usize));
    Some((v, pos + n as usize))
}

/// Read a count-prefixed list of 32-bit values.
fn read_u32_list(buf: &[u8], pos: usize) -> (r: Option<(Vec<u32>, usize)>)
    ensures
        r matches Some((v, p2)) ==> p2 <= buf@.len(),
{
    let (n, mut pos) = match read_u32(buf, pos) {
        Some(x) => x,
        Option::None => {
            return Option::None;
        },
    };
    let mut v: Vec<u32> = Vec::new();
    let mut i: u32 = 0;
    while i < n
        invariant
            pos <= buf@.len(),
        decreases n - i,
    {
        match read_u32(buf, pos) {
            Some((x, p2)) => {
                v.push(x);
                pos = p2;
            },
            Option::None => {
                return Option::None;
            },
        }
        i = i + 1;
    }
    Some((v, pos))
}

/// The protection named by an encoded constant, the exact inverse of
/// [`Protect::to_protect_const`].
pub fn protect_from_const(c: u32) -> (r: Option<Protect>)
    ensures
        r matches Some(p) ==> p.spec_to_protect_const() == c,
        r is Some <==> (c == 0 || c == 1 || c == 3 || c == 5 || c == 7),
{
    if c == 0 {
        Some(Protect::NoAccess)
    } else if c == 1 {
        Some(Protect::Read)
    } else if c == 3 {
        Some(Protect::ReadWrite)
    } else if c == 5 {
        Some(Protect::ReadExec)
    } else if c == 7 {
        Some(Protect::ReadWriteExec)
    } else {
        Option::None
    }
}

/// Parse a module description. Memory declarations are checked for
/// well-formedness here; everything else is validated by re-encoding.
fn parse_module_info(buf: &[u8], pos: usize) -> (r: Option<(ModuleInfo, usize)>)
    ensures
        r matches Some((v, p2)) ==> p2 <= buf@.len() && v.memories_wf(),
{
    let (n_mem, mut pos) = match read_u32(buf, pos) {
        Some(x) => x,
        Option::None => {
            return Option::None;
        },
    };
    let mut memories: Vec<MemoryDescriptor> = Vec::new();
    let mut i: u32 = 0;
    while i < n_mem
        invariant
            pos <= buf@.len(),
            forall|j: int| 0 <= j < memories@.len() ==> (#[trigger] memories@[j]).wf(),
        decreases n_mem - i,
    {
        let (minimum, p1) = match read_u32(buf, pos) {
            Some(x) => x,
            Option::None => {
                return Option::None;
            },
        };
        let (maximum_raw, p2) = match read_u32(buf, p1) {
            Some(x) => x,
            Option::None => {
                return Option::None;
            },
        };
        if minimum > crate::module_info::MAX_PAGES {
            return Option::None;
        }
        let maximum = if maximum_raw == 0xffff_ffff {
            Option::None
        } else {
            if maximum_raw > crate::module_info::MAX_PAGES || minimum > maximum_raw {
                return Option::None;
            }
            Some(maximum_raw)
        };
        memories.push(MemoryDescriptor { minimum, maximum });
        pos = p2;
        i = i + 1;
    }
    let (n_tbl, mut pos) = match read_u32(buf, pos) {
        Some(x) => x,
        Option::None => {
            return Option::None;
        },
    };
    let mut tables: Vec<TableDescriptor> = Vec::new();
    let mut i: u32 = 0;
    while i < n_tbl
        invariant
            pos <= buf@.len(),
        decreases n_tbl - i,
    {
        let (minimum, p1) = match read_u32(buf, pos) {
            Some(x) => x,
            Option::None => {
                return Option::None;
            },
        };
        tables.push(TableDescriptor { minimum });
        pos = p1;
        i = i + 1;
    }
    let (n_glob, mut pos) = match read_u32(buf, pos) {
        Some(x) => x,
        Option::None => {
            return Option::None;
        },
    };
    let mut globals: Vec<u64> = Vec::new();
    let mut i: u32 = 0;
    while i < n_glob
        invariant
            pos <= buf@.len(),
        decreases n_glob - i,
    {
        let (g, p1) = match read_u64(buf, pos) {
            Some(x) => x,
            Option::None => {
                return Option::None;
            },
        };
        globals.push(g);
        pos = p1;
        i = i + 1;
    }
    let (n_di, mut pos) = match read_u32(buf, pos) {
        Some(x) => x,
        Option::None => {
            return Option::None;
        },
    };
    let mut data_initializers: Vec<DataInitializer> = Vec::new();
    let mut i: u32 = 0;
    while i < n_di
        invariant
            pos <= buf@.len(),
        decreases n_di - i,
    {
        let (memory_index, p1) = match read_u32(buf, pos) {
            Some(x) => x,
            Option::None => {
                return Option::None;
            },
        };
        let (offset, p2) = match read_u32(buf, p1) {
            Some(x) => x,
            Option::None => {
                return Option::None;
            },
        };
        let (data, p3) = match read_bytes(buf, p2) {
            Some(x) => x,
            Option::None => {
                return Option::None;
            },
        };
        data_initializers.push(DataInitializer { memory_index, offset, data });
        pos = p3;
        i = i + 1;
    }
    let (n_ei, mut pos) = match read_u32(buf, pos) {
        Some(x) => x,
        Option::None => {
            return Option::None;
        },
    };
    let mut elem_initializers: Vec<ElemInitializer> = Vec::new();
    let mut i: u32 = 0;
    while i < n_ei
        invariant
            pos <= buf@.len(),
        decreases n_ei - i,
    {
        let (table_index, p1) = match read_u32(buf, pos) {
            Some(x) => x,
            Option::None => {
                return Option::None;
            },
        };
        let (offset, p2) = match read_u32(buf, p1) {
            Some(x) => x,
            Option::None => {
                return Option::None;
            },
        };
        let (elems, p3) = match read_u32_list(buf, p2) {
            Some(x) => x,
            Option::None => {
                return Option::None;
            },
        };
        elem_initializers.push(ElemInitializer { table_index, offset, elems });
        pos = p3;
        i = i + 1;
    }
    let (n_ex, mut pos) = match read_u32(buf, pos) {
        Some(x) => x,
        Option::None => {
            return Option::None;
        },
    };
    let mut exports: Vec<ExportEntry> = Vec::new();
    let mut i: u32 = 0;
    while i < n_ex
        invariant
            pos <= buf@.len(),
        decreases n_ex - i,
    {
        let (name, p1) = match read_bytes(buf, pos) {
            Some(x) => x,
            Option::None => {
                return Option::None;
            },
        };
        let (index, p2) = match read_u32(buf, p1) {
            Some(x) => x,
            Option::None => {
                return Option::None;
            },
        };
        exports.push(ExportEntry { name, index });
        pos = p2;
        i = i + 1;
    }
    let (start_flag, pos) = match read_u32(buf, pos) {
        Some(x) => x,
        Option::None => {
            return Option::None;
        },
    };
    let (start_val, pos) = match read_u32(buf, pos) {
        Some(x) => x,
        Option::None => {
            return Option::None;
        },
    };
    let start_func = if start_flag == 1 {
        Some(start_val)
    } else {
        Option::None
    };
    Some(
        (
            ModuleInfo {
                memories,
                tables,
                globals,
                data_initializers,
                elem_initializers,
                exports,
                start_func,
            },
            pos,
        ),
    )
}

/// The archived contents of a memory: its bytes, its content size and its
/// protection, the triple the cache stores and restores.
pub struct CompactMemory {
    /// The full bytes of the region.
    pub contents: Vec<u8>,
    /// The logically meaningful prefix length.
    pub content_size: u32,
    /// The protection to restore.
    pub protection: Protect,
}

impl CompactMemory {
    /// Capture a memory's observable state.
    pub fn from_memory(memory: &Memory) -> (r: CompactMemory)
        ensures
            r.contents@ == memory.spec_bytes(),
            r.content_size == memory.spec_content_size(),
            r.protection == memory.spec_protection(),
    {
        CompactMemory {
            contents: vstd::slice::slice_to_vec(memory.as_slice()),
            content_size: memory.content_size(),
            protection: memory.protection(),
        }
    }

    /// Rebuild a memory: allocate a fresh writable region, copy the bytes,
    /// then restore the captured protection and content size. A content
    /// size beyond the captured bytes is rejected outright; beyond that the
    /// rebuild fails only when the captured size does not fit this
    /// machine's page granularity.
    pub fn into_memory(&self) -> (r: Result<Memory, String>)
        ensures
            r matches Ok(m) ==> {
                &&& m.wf()
                &&& m.spec_bytes() == self.contents@
                &&& m.spec_content_size() == self.content_size
                &&& m.spec_protection() == self.protection
            },
            self.content_size > self.contents@.len() ==> (r matches Err(m) && m@
                == "content size exceeds the captured region"@),
    {
        if (self.content_size as usize) > self.contents.len() {
            return Err("content size exceeds the captured region".to_owned());
        }
        let mut memory = match Memory::with_size_protect(self.contents.len(), Protect::ReadWrite) {
            Ok(m) => m,
            Err(e) => {
                return Err(e);
            },
        };
        if memory.size() != self.contents.len() {
            return Err("captured region does not fit this page granularity".to_owned());
        }
        memory.set_bytes(self.contents.as_slice());
        let size = memory.size();
        proof {
            crate::memory::lemma_round_up(size as int, memory.spec_page_size());
        }
        match memory.protect(0, size, self.protection) {
            Ok(_) => {},
            Err(e) => {
                return Err(e);
            },
        }
        memory.set_content_size(self.content_size);
        Ok(memory)
    }
}

impl Artifact {
    /// Deserialize an artifact from the compact scheme: validate the
    /// header — size, magic, version, in that order — then decode the body
    /// and check that it is the exact encoding of the decoded artifact.
    pub fn deserialize(bytes: &[u8]) -> (r: Result<Artifact, Error>)
        ensures
            bytes@.len() < HEADER_LEN <==> r == Err::<Artifact, Error>(
                Error::InvalidFile(InvalidFileType::InvalidSize),
            ),
            bytes@.len() >= HEADER_LEN && bytes@.subrange(0, 8) != spec_cache_magic() <==> r
                == Err::<Artifact, Error>(Error::InvalidFile(InvalidFileType::InvalidMagic)),
            bytes@.len() >= HEADER_LEN && bytes@.subrange(0, 8) == spec_cache_magic()
                && spec_dec_u64(bytes@.subrange(8, 16)) != CURRENT_CACHE_VERSION <==> r
                == Err::<Artifact, Error>(Error::InvalidatedCache),
            bytes@.len() >= HEADER_LEN && bytes@.subrange(0, 8) == spec_cache_magic()
                && spec_dec_u64(bytes@.subrange(8, 16)) == CURRENT_CACHE_VERSION ==> (r is Ok
                || r matches Err(Error::DeserializeError(_)) || r matches Err(Error::Unknown(_))),
            r matches Ok(b) ==> {
                &&& bytes@ == b.spec_cached_bytes()
                &&& spec_encodable(b.spec_info(), b.spec_metadata(), b.spec_code())
                &&& b.spec_info().memories_wf()
            },
    {
        let body_start = match ArtifactHeader::read_from_slice(bytes) {
            Ok((_, body_start)) => body_start,
            Err(e) => {
                return Err(e);
            },
        };
        let artifact = match Artifact::decode_body(bytes, body_start) {
            Ok(a) => a,
            Err(e) => {
                return Err(e);
            },
        };
        let reencoded = match artifact.serialize() {
            Ok(v) => v,
            Err(_) => {
                return Err(
                    Error::DeserializeError("decoded artifact does not re-encode".to_owned()),
                );
            },
        };
        if !crate::module_info::compare_bytes(reencoded.as_slice(), bytes) {
            return Err(
                Error::DeserializeError(
                    "cache body is not a canonical artifact encoding".to_owned(),
                ),
            );
        }
        Ok(artifact)
    }

    /// Deserialize an artifact from the archival scheme: the bare body,
    /// checked to be the exact encoding of the decoded artifact.
    pub fn deserialize_archival(bytes: &[u8]) -> (r: Result<Artifact, Error>)
        ensures
            r matches Ok(b) ==> {
                &&& bytes@ == b.spec_body_bytes()
                &&& spec_encodable(b.spec_info(), b.spec_metadata(), b.spec_code())
                &&& b.spec_info().memories_wf()
            },
            r is Err ==> r matches Err(Error::DeserializeError(_)) || r matches Err(
                Error::Unknown(_),
            ),
    {
        let artifact = match Artifact::decode_body(bytes, 0) {
            Ok(a) => a,
            Err(e) => {
                return Err(e);
            },
        };
        let reencoded = match artifact.serialize_body() {
            Ok(v) => v,
            Err(_) => {
                return Err(
                    Error::DeserializeError("decoded artifact does not re-encode".to_owned()),
                );
            },
        };
        if !crate::module_info::compare_bytes(reencoded.as_slice(), bytes) {
            return Err(
                Error::DeserializeError(
                    "cache body is not a canonical artifact encoding".to_owned(),
                ),
            );
        }
        Ok(artifact)
    }

    /// Decode a body without validating canonicity; the callers re-encode
    /// and compare. Malformed bodies fail with `DeserializeError`; a body
    /// whose captured region does not fit this machine's page granularity
    /// fails with `Unknown`.
    fn decode_body(bytes: &[u8], pos: usize) -> (r: Result<Artifact, Error>)
        ensures
            r is Err ==> r matches Err(Error::DeserializeError(_)) || r matches Err(
                Error::Unknown(_),
            ),
            r matches Ok(a) ==> a.spec_info().memories_wf(),
    {
        let (info, pos) = match parse_module_info(bytes, pos) {
            Some(x) => x,
            Option::None => {
                return Err(Error::DeserializeError("truncated module description".to_owned()));
            },
        };
        let (metadata, pos) = match read_bytes(bytes, pos) {
            Some(x) => x,
            Option::None => {
                return Err(Error::DeserializeError("truncated backend metadata".to_owned()));
            },
        };
        let (contents, pos) = match read_bytes(bytes, pos) {
            Some(x) => x,
            Option::None => {
                return Err(Error::DeserializeError("truncated code contents".to_owned()));
            },
        };
        let (content_size, pos) = match read_u32(bytes, pos) {
            Some(x) => x,
            Option::None => {
                return Err(Error::DeserializeError("truncated content size".to_owned()));
            },
        };
        let (prot_const, pos) = match read_u32(bytes, pos) {
            Some(x) => x,
            Option::None => {
                return Err(Error::DeserializeError("truncated protection".to_owned()));
            },
        };
        if pos != bytes.len() {
            return Err(Error::DeserializeError("trailing bytes after the body".to_owned()));
        }
        let protection = match protect_from_const(prot_const) {
            Some(p) => p,
            Option::None => {
                return Err(Error::DeserializeError("unknown protection".to_owned()));
            },
        };
        if content_size as usize > contents.len() {
            return Err(
                Error::DeserializeError("content size exceeds the captured region".to_owned()),
            );
        }
        let compact = CompactMemory { contents, content_size, protection };
        let compiled_code = match compact.into_memory() {
            Ok(m) => m,
            Err(e) => {
                // The body itself was readable; only this machine's page
                // granularity refused the captured region.
                return Err(Error::Unknown(e));
            },
        };
        Ok(Artifact::from_parts(info, metadata, compiled_code))
    }
}

/// The two interchangeable cache encodings.
#[derive(Clone, Copy, PartialEq, Eq, Structural, Debug)]
pub enum SerializationScheme {
    /// Header plus sequential body.
    Compact,
    /// The bare body, whose layout equals the captured state.
    Archival,
}

/// Serialize an artifact under the chosen scheme.
pub fn serialize_artifact(artifact: &Artifact, scheme: SerializationScheme) -> (r: Result<
    Vec<u8>,
    Error,
>)
    ensures
        r is Ok <==> spec_encodable(
            artifact.spec_info(),
            artifact.spec_metadata(),
            artifact.spec_code(),
        ),
        r matches Ok(v) ==> v@ == (match scheme {
            SerializationScheme::Compact => artifact.spec_cached_bytes(),
            SerializationScheme::Archival => artifact.spec_body_bytes(),
        }),
        r is Err ==> r matches Err(Error::SerializeError(_)),
{
    match scheme {
        SerializationScheme::Compact => artifact.serialize(),
        SerializationScheme::Archival => artifact.serialize_body(),
    }
}

/// Deserialize an artifact under the chosen scheme.
pub fn deserialize_artifact(bytes: &[u8], scheme: SerializationScheme) -> (r: Result<
    Artifact,
    Error,
>)
    ensures
        scheme == SerializationScheme::Compact ==> (bytes@.len() < HEADER_LEN <==> r
            == Err::<Artifact, Error>(Error::InvalidFile(InvalidFileType::InvalidSize))),
        scheme == SerializationScheme::Compact ==> (bytes@.len() >= HEADER_LEN
            && bytes@.subrange(0, 8) != spec_cache_magic() <==> r == Err::<Artifact, Error>(
            Error::InvalidFile(InvalidFileType::InvalidMagic),
        )),
        scheme == SerializationScheme::Compact ==> (bytes@.len() >= HEADER_LEN
            && bytes@.subrange(0, 8) == spec_cache_magic() && spec_dec_u64(
            bytes@.subrange(8, 16),
        ) != CURRENT_CACHE_VERSION <==> r == Err::<Artifact, Error>(Error::InvalidatedCache)),
        scheme == SerializationScheme::Compact && bytes@.len() >= HEADER_LEN && bytes@.subrange(
            0,
            8,
        ) == spec_cache_magic() && spec_dec_u64(bytes@.subrange(8, 16))
            == CURRENT_CACHE_VERSION ==> (r is Ok || r matches Err(Error::DeserializeError(_))
            || r matches Err(Error::Unknown(_))),
        scheme == SerializationScheme::Archival && r is Err ==> r matches Err(
            Error::DeserializeError(_),
        ) || r matches Err(Error::Unknown(_)),
        r matches Ok(b) ==> {
            &&& bytes@ == (match scheme {
                SerializationScheme::Compact => b.spec_cached_bytes(),
                SerializationScheme::Archival => b.spec_body_bytes(),
            })
            &&& spec_encodable(b.spec_info(), b.spec_metadata(), b.spec_code())
            &&& b.spec_info().memories_wf()
        },
{
    match scheme {
        SerializationScheme::Compact => Artifact::deserialize(bytes),
        SerializationScheme::Archival => Artifact::deserialize_archival(bytes),
    }
}

/// Equal concatenations with equally long prefixes have equal parts.
proof fn lemma_append_cancel(p1: Seq<u8>, s1: Seq<u8>, p2: Seq<u8>, s2: Seq<u8>)
    requires
        p1 + s1 == p2 + s2,
        p1.len() == p2.len(),
    ensures
        p1 == p2,
        s1 == s2,
{
    assert forall|i: int| 0 <= i < p1.len() implies p1[i] == p2[i] by {
        assert((p1 + s1)[i] == p1[i]);
        assert((p2 + s2)[i] == p2[i]);
    }
    assert(p1 =~= p2);
    assert((p1 + s1).len() == p1.len() + s1.len());
    assert((p2 + s2).len() == p2.len() + s2.len());
    assert((p1 + s1).len() == (p2 + s2).len());
    assert(s1.len() == s2.len());
    assert forall|i: int| 0 <= i < s1.len() implies s1[i] == s2[i] by {
        assert((p1 + s1)[p1.len() + i] == s1[i]);
        assert((p2 + s2)[p2.len() + i] == s2[i]);
    }
    assert(s1 =~= s2);
}

/// A 32-bit field opening two equal byte streams is the same value, and
/// the remainders are equal.
proof fn lemma_enc_u32_cancel(a: u32, b: u32, r1: Seq<u8>, r2: Seq<u8>)
    requires
        spec_enc_u32(a) + r1 == spec_enc_u32(b) + r2,
    ensures
        a == b,
        r1 == r2,
{
    lemma_append_cancel(spec_enc_u32(a), r1, spec_enc_u32(b), r2);
    lemma_dec_enc_u32(a);
    lemma_dec_enc_u32(b);
}

/// The 64-bit analogue of [`lemma_enc_u32_cancel`].
proof fn lemma_enc_u64_cancel(a: u64, b: u64, r1: Seq<u8>, r2: Seq<u8>)
    requires
        spec_enc_u64(a) + r1 == spec_enc_u64(b) + r2,
    ensures
        a == b,
        r1 == r2,
{
    lemma_append_cancel(spec_enc_u64(a), r1, spec_enc_u64(b), r2);
    lemma_dec_enc_u64(a);
    lemma_dec_enc_u64(b);
}

/// A length-prefixed byte string opening two equal streams is the same
/// string, and the remainders are equal.
proof fn lemma_enc_bytes_cancel(x: Seq<u8>, y: Seq<u8>, r1: Seq<u8>, r2: Seq<u8>)
    requires
        x.len() <= u32::MAX,
        y.len() <= u32::MAX,
        spec_enc_bytes(x) + r1 == spec_enc_bytes(y) + r2,
    ensures
        x == y,
        r1 == r2,
{
    assert(spec_enc_bytes(x) + r1 =~= spec_enc_u32(x.len() as u32) + (x + r1));
    assert(spec_enc_bytes(y) + r2 =~= spec_enc_u32(y.len() as u32) + (y + r2));
    lemma_enc_u32_cancel(x.len() as u32, y.len() as u32, x + r1, y + r2);
    lemma_append_cancel(x, r1, y, r2);
}

/// Equal encodings of equally long memory-declaration lists carry equal
/// declarations, provided the declarations are well formed (so the
/// unbounded-maximum sentinel is never a declared maximum).
proof fn lemma_enc_memories_cancel(
    s1: Seq<MemoryDescriptor>,
    s2: Seq<MemoryDescriptor>,
    i: int,
    r1: Seq<u8>,
    r2: Seq<u8>,
)
    requires
        s1.len() == s2.len(),
        0 <= i <= s1.len(),
        forall|j: int| 0 <= j < s1.len() ==> (#[trigger] s1[j]).wf(),
        forall|j: int| 0 <= j < s2.len() ==> (#[trigger] s2[j]).wf(),
        spec_enc_memories(s1, i) + r1 == spec_enc_memories(s2, i) + r2,
    ensures
        forall|j: int| i <= j < s1.len() ==> s1[j] == s2[j],
        r1 == r2,
    decreases s1.len() - i,
{
    if i == s1.len() {
        assert(spec_enc_memories(s1, i) + r1 =~= r1);
        assert(spec_enc_memories(s2, i) + r2 =~= r2);
    } else {
        let rec1 = spec_enc_memories(s1, i + 1);
        let rec2 = spec_enc_memories(s2, i + 1);
        assert(spec_enc_memories(s1, i) + r1 =~= spec_enc_u32(s1[i].minimum) + (spec_enc_u32(
            spec_enc_maximum(s1[i].maximum),
        ) + (rec1 + r1)));
        assert(spec_enc_memories(s2, i) + r2 =~= spec_enc_u32(s2[i].minimum) + (spec_enc_u32(
            spec_enc_maximum(s2[i].maximum),
        ) + (rec2 + r2)));
        lemma_enc_u32_cancel(
            s1[i].minimum,
            s2[i].minimum,
            spec_enc_u32(spec_enc_maximum(s1[i].maximum)) + (rec1 + r1),
            spec_enc_u32(spec_enc_maximum(s2[i].maximum)) + (rec2 + r2),
        );
        lemma_enc_u32_cancel(
            spec_enc_maximum(s1[i].maximum),
            spec_enc_maximum(s2[i].maximum),
            rec1 + r1,
            rec2 + r2,
        );
        assert(s1[i].maximum == s2[i].maximum) by {
            assert(s1[i].wf() && s2[i].wf());
        }
        lemma_enc_memories_cancel(s1, s2, i + 1, r1, r2);
    }
}

/// Equal encodings of equally long table-declaration lists carry equal
/// declarations.
proof fn lemma_enc_tables_cancel(
    s1: Seq<TableDescriptor>,
    s2: Seq<TableDescriptor>,
    i: int,
    r1: Seq<u8>,
    r2: Seq<u8>,
)
    requires
        s1.len() == s2.len(),
        0 <= i <= s1.len(),
        spec_enc_tables(s1, i) + r1 == spec_enc_tables(s2, i) + r2,
    ensures
        forall|j: int| i <= j < s1.len() ==> s1[j] == s2[j],
        r1 == r2,
    decreases s1.len() - i,
{
    if i == s1.len() {
        assert(spec_enc_tables(s1, i) + r1 =~= r1);
        assert(spec_enc_tables(s2, i) + r2 =~= r2);
    } else {
        let rec1 = spec_enc_tables(s1, i + 1);
        let rec2 = spec_enc_tables(s2, i + 1);
        assert(spec_enc_tables(s1, i) + r1 =~= spec_enc_u32(s1[i].minimum) + (rec1 + r1));
        assert(spec_enc_tables(s2, i) + r2 =~= spec_enc_u32(s2[i].minimum) + (rec2 + r2));
        lemma_enc_u32_cancel(s1[i].minimum, s2[i].minimum, rec1 + r1, rec2 + r2);
        lemma_enc_tables_cancel(s1, s2, i + 1, r1, r2);
    }
}

/// Equal encodings of equally long value lists carry equal values.
proof fn lemma_enc_u64_items_cancel(s1: Seq<u64>, s2: Seq<u64>, i: int, r1: Seq<u8>, r2: Seq<u8>)
    requires
        s1.len() == s2.len(),
        0 <= i <= s1.len(),
        spec_enc_u64_items(s1, i) + r1 == spec_enc_u64_items(s2, i) + r2,
    ensures
        forall|j: int| i <= j < s1.len() ==> s1[j] == s2[j],
        r1 == r2,
    decreases s1.len() - i,
{
    if i == s1.len() {
        assert(spec_enc_u64_items(s1, i) + r1 =~= r1);
        assert(spec_enc_u64_items(s2, i) + r2 =~= r2);
    } else {
        let rec1 = spec_enc_u64_items(s1, i + 1);
        let rec2 = spec_enc_u64_items(s2, i + 1);
        assert(spec_enc_u64_items(s1, i) + r1 =~= spec_enc_u64(s1[i]) + (rec1 + r1));
        assert(spec_enc_u64_items(s2, i) + r2 =~= spec_enc_u64(s2[i]) + (rec2 + r2));
        lemma_enc_u64_cancel(s1[i], s2[i], rec1 + r1, rec2 + r2);
        lemma_enc_u64_items_cancel(s1, s2, i + 1, r1, r2);
    }
}

/// Equal encodings of equally long element lists carry equal elements.
proof fn lemma_enc_u32_items_cancel(s1: Seq<u32>, s2: Seq<u32>, i: int, r1: Seq<u8>, r2: Seq<u8>)
    requires
        s1.len() == s2.len(),
        0 <= i <= s1.len(),
        spec_enc_u32_items(s1, i) + r1 == spec_enc_u32_items(s2, i) + r2,
    ensures
        forall|j: int| i <= j < s1.len() ==> s1[j] == s2[j],
        r1 == r2,
    decreases s1.len() - i,
{
    if i == s1.len() {
        assert(spec_enc_u32_items(s1, i) + r1 =~= r1);
        assert(spec_enc_u32_items(s2, i) + r2 =~= r2);
    } else {
        let rec1 = spec_enc_u32_items(s1, i + 1);
        let rec2 = spec_enc_u32_items(s2, i + 1);
        assert(spec_enc_u32_items(s1, i) + r1 =~= spec_enc_u32(s1[i]) + (rec1 + r1));
        assert(spec_enc_u32_items(s2, i) + r2 =~= spec_enc_u32(s2[i]) + (rec2 + r2));
        lemma_enc_u32_cancel(s1[i], s2[i], rec1 + r1, rec2 + r2);
        lemma_enc_u32_items_cancel(s1, s2, i + 1, r1, r2);
    }
}

/// Equal encodings of equally long data-segment lists carry equal
/// segments, provided every payload fits the length prefix.
proof fn lemma_enc_data_inits_cancel(
    s1: Seq<DataInitializer>,
    s2: Seq<DataInitializer>,
    i: int,
    r1: Seq<u8>,
    r2: Seq<u8>,
)
    requires
        s1.len() == s2.len(),
        0 <= i <= s1.len(),
        forall|j: int| 0 <= j < s1.len() ==> (#[trigger] s1[j]).data@.len() <= u32::MAX,
        forall|j: int| 0 <= j < s2.len() ==> (#[trigger] s2[j]).data@.len() <= u32::MAX,
        spec_enc_data_inits(s1, i) + r1 == spec_enc_data_inits(s2, i) + r2,
    ensures
        forall|j: int|
            i <= j < s1.len() ==> s1[j].memory_index == s2[j].memory_index && s1[j].offset
                == s2[j].offset && s1[j].data@ == s2[j].data@,
        r1 == r2,
    decreases s1.len() - i,
{
    if i == s1.len() {
        assert(spec_enc_data_inits(s1, i) + r1 =~= r1);
        assert(spec_enc_data_inits(s2, i) + r2 =~= r2);
    } else {
        let rec1 = spec_enc_data_inits(s1, i + 1);
        let rec2 = spec_enc_data_inits(s2, i + 1);
        assert(spec_enc_data_inits(s1, i) + r1 =~= spec_enc_u32(s1[i].memory_index) + (
        spec_enc_u32(s1[i].offset) + (spec_enc_bytes(s1[i].data@) + (rec1 + r1))));
        assert(spec_enc_data_inits(s2, i) + r2 =~= spec_enc_u32(s2[i].memory_index) + (
        spec_enc_u32(s2[i].offset) + (spec_enc_bytes(s2[i].data@) + (rec2 + r2))));
        lemma_enc_u32_cancel(
            s1[i].memory_index,
            s2[i].memory_index,
            spec_enc_u32(s1[i].offset) + (spec_enc_bytes(s1[i].data@) + (rec1 + r1)),
            spec_enc_u32(s2[i].offset) + (spec_enc_bytes(s2[i].data@) + (rec2 + r2)),
        );
        lemma_enc_u32_cancel(
            s1[i].offset,
            s2[i].offset,
            spec_enc_bytes(s1[i].data@) + (rec1 + r1),
            spec_enc_bytes(s2[i].data@) + (rec2 + r2),
        );
        lemma_enc_bytes_cancel(s1[i].data@, s2[i].data@, rec1 + r1, rec2 + r2);
        lemma_enc_data_inits_cancel(s1, s2, i + 1, r1, r2);
    }
}

/// Equal encodings of equally long element-segment lists carry equal
/// segments, provided every element list fits the count prefix.
proof fn lemma_enc_elem_inits_cancel(
    s1: Seq<ElemInitializer>,
    s2: Seq<ElemInitializer>,
    i: int,
    r1: Seq<u8>,
    r2: Seq<u8>,
)
    requires
        s1.len() == s2.len(),
        0 <= i <= s1.len(),
        forall|j: int| 0 <= j < s1.len() ==> (#[trigger] s1[j]).elems@.len() <= u32::MAX,
        forall|j: int| 0 <= j < s2.len() ==> (#[trigger] s2[j]).elems@.len() <= u32::MAX,
        spec_enc_elem_inits(s1, i) + r1 == spec_enc_elem_inits(s2, i) + r2,
    ensures
        forall|j: int|
            i <= j < s1.len() ==> s1[j].table_index == s2[j].table_index && s1[j].offset
                == s2[j].offset && s1[j].elems@ == s2[j].elems@,
        r1 == r2,
    decreases s1.len() - i,
{
    if i == s1.len() {
        assert(spec_enc_elem_inits(s1, i) + r1 =~= r1);
        assert(spec_enc_elem_inits(s2, i) + r2 =~= r2);
    } else {
        let rec1 = spec_enc_elem_inits(s1, i + 1);
        let rec2 = spec_enc_elem_inits(s2, i + 1);
        let e1 = s1[i].elems@;
        let e2 = s2[i].elems@;
        assert(spec_enc_elem_inits(s1, i) + r1 =~= spec_enc_u32(s1[i].table_index) + (
        spec_enc_u32(s1[i].offset) + (spec_enc_u32(e1.len() as u32) + (spec_enc_u32_items(e1, 0)
            + (rec1 + r1)))));
        assert(spec_enc_elem_inits(s2, i) + r2 =~= spec_enc_u32(s2[i].table_index) + (
        spec_enc_u32(s2[i].offset) + (spec_enc_u32(e2.len() as u32) + (spec_enc_u32_items(e2, 0)
            + (rec2 + r2)))));
        lemma_enc_u32_cancel(
            s1[i].table_index,
            s2[i].table_index,
            spec_enc_u32(s1[i].offset) + (spec_enc_u32(e1.len() as u32) + (spec_enc_u32_items(
                e1,
                0,
            ) + (rec1 + r1))),
            spec_enc_u32(s2[i].offset) + (spec_enc_u32(e2.len() as u32) + (spec_enc_u32_items(
                e2,
                0,
            ) + (rec2 + r2))),
        );
        lemma_enc_u32_cancel(
            s1[i].offset,
            s2[i].offset,
            spec_enc_u32(e1.len() as u32) + (spec_enc_u32_items(e1, 0) + (rec1 + r1)),
            spec_enc_u32(e2.len() as u32) + (spec_enc_u32_items(e2, 0) + (rec2 + r2)),
        );
        lemma_enc_u32_cancel(
            e1.len() as u32,
            e2.len() as u32,
            spec_enc_u32_items(e1, 0) + (rec1 + r1),
            spec_enc_u32_items(e2, 0) + (rec2 + r2),
        );
        lemma_enc_u32_items_cancel(e1, e2, 0, rec1 + r1, rec2 + r2);
        assert(e1 =~= e2);
        lemma_enc_elem_inits_cancel(s1, s2, i + 1, r1, r2);
    }
}

/// Equal encodings of equally long export lists carry equal exports,
/// provided every name fits the length prefix.
proof fn lemma_enc_exports_cancel(
    s1: Seq<ExportEntry>,
    s2: Seq<ExportEntry>,
    i: int,
    r1: Seq<u8>,
    r2: Seq<u8>,
)
    requires
        s1.len() == s2.len(),
        0 <= i <= s1.len(),
        forall|j: int| 0 <= j < s1.len() ==> (#[trigger] s1[j]).name@.len() <= u32::MAX,
        forall|j: int| 0 <= j < s2.len() ==> (#[trigger] s2[j]).name@.len() <= u32::MAX,
        spec_enc_exports(s1, i) + r1 == spec_enc_exports(s2, i) + r2,
    ensures
        forall|j: int|
            i <= j < s1.len() ==> s1[j].name@ == s2[j].name@ && s1[j].index == s2[j].index,
        r1 == r2,
    decreases s1.len() - i,
{
    if i == s1.len() {
        assert(spec_enc_exports(s1, i) + r1 =~= r1);
        assert(spec_enc_exports(s2, i) + r2 =~= r2);
    } else {
        let rec1 = spec_enc_exports(s1, i + 1);
        let rec2 = spec_enc_exports(s2, i + 1);
        assert(spec_enc_exports(s1, i) + r1 =~= spec_enc_bytes(s1[i].name@) + (spec_enc_u32(
            s1[i].index,
        ) + (rec1 + r1)));
        assert(spec_enc_exports(s2, i) + r2 =~= spec_enc_bytes(s2[i].name@) + (spec_enc_u32(
            s2[i].index,
        ) + (rec2 + r2)));
        lemma_enc_bytes_cancel(
            s1[i].name@,
            s2[i].name@,
            spec_enc_u32(s1[i].index) + (rec1 + r1),
            spec_enc_u32(s2[i].index) + (rec2 + r2),
        );
        lemma_enc_u32_cancel(s1[i].index, s2[i].index, rec1 + r1, rec2 + r2);
        lemma_enc_exports_cancel(s1, s2, i + 1, r1, r2);
    }
}

/// Concatenation of byte sequences is associative.
proof fn lemma_add_assoc(x: Seq<u8>, y: Seq<u8>, z: Seq<u8>)
    ensures
        (x + y) + z == x + (y + z),
{
    assert((x + y) + z =~= x + (y + z));
}

/// Equal encodings of two encodable, well-formed module descriptions open
/// equal streams only when the descriptions agree on every field.
#[verifier::rlimit(100)]
proof fn lemma_enc_module_info_cancel(a: ModuleInfo, b: ModuleInfo, r1: Seq<u8>, r2: Seq<u8>)
    requires
        spec_encodable_info(a),
        spec_encodable_info(b),
        a.memories_wf(),
        b.memories_wf(),
        spec_enc_module_info(a) + r1 == spec_enc_module_info(b) + r2,
    ensures
        a.memories@ == b.memories@,
        a.tables@ == b.tables@,
        a.globals@ == b.globals@,
        a.data_initializers@.len() == b.data_initializers@.len(),
        forall|j: int|
            0 <= j < a.data_initializers@.len() ==> {
                &&& (#[trigger] a.data_initializers@[j]).memory_index == b.data_initializers@[
                j].memory_index
                &&& a.data_initializers@[j].offset == b.data_initializers@[j].offset
                &&& a.data_initializers@[j].data@ == b.data_initializers@[j].data@
            },
        a.elem_initializers@.len() == b.elem_initializers@.len(),
        forall|j: int|
            0 <= j < a.elem_initializers@.len() ==> {
                &&& (#[trigger] a.elem_initializers@[j]).table_index == b.elem_initializers@[
                j].table_index
                &&& a.elem_initializers@[j].offset == b.elem_initializers@[j].offset
                &&& a.elem_initializers@[j].elems@ == b.elem_initializers@[j].elems@
            },
        a.exports@.len() == b.exports@.len(),
        forall|j: int|
            0 <= j < a.exports@.len() ==> (#[trigger] a.exports@[j]).name@ == b.exports@[j].name@
                && a.exports@[j].index == b.exports@[j].index,
        a.start_func == b.start_func,
        r1 == r2,
{
    let sfa: u32 = match a.start_func {
        Some(_) => 1u32,
        _ => 0u32,
    };
    let sva: u32 = match a.start_func {
        Some(f) => f,
        _ => 0u32,
    };
    let sfb: u32 = match b.start_func {
        Some(_) => 1u32,
        _ => 0u32,
    };
    let svb: u32 = match b.start_func {
        Some(f) => f,
        _ => 0u32,
    };
    // Name the right-nested tails of both encodings, then push the
    // remainders inside one associativity step at a time.
    let u14a = spec_enc_u32(sva);
    let u13a = spec_enc_u32(sfa) + u14a;
    let u12a = spec_enc_exports(a.exports@, 0) + u13a;
    let u11a = spec_enc_u32(a.exports@.len() as u32) + u12a;
    let u10a = spec_enc_elem_inits(a.elem_initializers@, 0) + u11a;
    let u9a = spec_enc_u32(a.elem_initializers@.len() as u32) + u10a;
    let u8a = spec_enc_data_inits(a.data_initializers@, 0) + u9a;
    let u7a = spec_enc_u32(a.data_initializers@.len() as u32) + u8a;
    let u6a = spec_enc_u64_items(a.globals@, 0) + u7a;
    let u5a = spec_enc_u32(a.globals@.len() as u32) + u6a;
    let u4a = spec_enc_tables(a.tables@, 0) + u5a;
    let u3a = spec_enc_u32(a.tables@.len() as u32) + u4a;
    let u2a = spec_enc_memories(a.memories@, 0) + u3a;
    assert(spec_enc_module_info(a) == spec_enc_u32(a.memories@.len() as u32) + u2a);
    let t14a = u14a + r1;
    let t13a = u13a + r1;
    let t12a = u12a + r1;
    let t11a = u11a + r1;
    let t10a = u10a + r1;
    let t9a = u9a + r1;
    let t8a = u8a + r1;
    let t7a = u7a + r1;
    let t6a = u6a + r1;
    let t5a = u5a + r1;
    let t4a = u4a + r1;
    let t3a = u3a + r1;
    let t2a = u2a + r1;
    lemma_add_assoc(spec_enc_u32(a.memories@.len() as u32), u2a, r1);
    lemma_add_assoc(spec_enc_memories(a.memories@, 0), u3a, r1);
    lemma_add_assoc(spec_enc_u32(a.tables@.len() as u32), u4a, r1);
    lemma_add_assoc(spec_enc_tables(a.tables@, 0), u5a, r1);
    lemma_add_assoc(spec_enc_u32(a.globals@.len() as u32), u6a, r1);
    lemma_add_assoc(spec_enc_u64_items(a.globals@, 0), u7a, r1);
    lemma_add_assoc(spec_enc_u32(a.data_initializers@.len() as u32), u8a, r1);
    lemma_add_assoc(spec_enc_data_inits(a.data_initializers@, 0), u9a, r1);
    lemma_add_assoc(spec_enc_u32(a.elem_initializers@.len() as u32), u10a, r1);
    lemma_add_assoc(spec_enc_elem_inits(a.elem_initializers@, 0), u11a, r1);
    lemma_add_assoc(spec_enc_u32(a.exports@.len() as u32), u12a, r1);
    lemma_add_assoc(spec_enc_exports(a.exports@, 0), u13a, r1);
    lemma_add_assoc(spec_enc_u32(sfa), u14a, r1);
    assert(spec_enc_module_info(a) + r1 == spec_enc_u32(a.memories@.len() as u32) + t2a);
    assert(t2a == spec_enc_memories(a.memories@, 0) + t3a);
    assert(t3a == spec_enc_u32(a.tables@.len() as u32) + t4a);
    assert(t4a == spec_enc_tables(a.tables@, 0) + t5a);
    assert(t5a == spec_enc_u32(a.globals@.len() as u32) + t6a);
    assert(t6a == spec_enc_u64_items(a.globals@, 0) + t7a);
    assert(t7a == spec_enc_u32(a.data_initializers@.len() as u32) + t8a);
    assert(t8a == spec_enc_data_inits(a.data_initializers@, 0) + t9a);
    assert(t9a == spec_enc_u32(a.elem_initializers@.len() as u32) + t10a);
    assert(t10a == spec_enc_elem_inits(a.elem_initializers@, 0) + t11a);
    assert(t11a == spec_enc_u32(a.exports@.len() as u32) + t12a);
    assert(t12a == spec_enc_exports(a.exports@, 0) + t13a);
    assert(t13a == spec_enc_u32(sfa) + t14a);
    let u14b = spec_enc_u32(svb);
    let u13b = spec_enc_u32(sfb) + u14b;
    let u12b = spec_enc_exports(b.exports@, 0) + u13b;
    let u11b = spec_enc_u32(b.exports@.len() as u32) + u12b;
    let u10b = spec_enc_elem_inits(b.elem_initializers@, 0) + u11b;
    let u9b = spec_enc_u32(b.elem_initializers@.len() as u32) + u10b;
    let u8b = spec_enc_data_inits(b.data_initializers@, 0) + u9b;
    let u7b = spec_enc_u32(b.data_initializers@.len() as u32) + u8b;
    let u6b = spec_enc_u64_items(b.globals@, 0) + u7b;
    let u5b = spec_enc_u32(b.globals@.len() as u32) + u6b;
    let u4b = spec_enc_tables(b.tables@, 0) + u5b;
    let u3b = spec_enc_u32(b.tables@.len() as u32) + u4b;
    let u2b = spec_enc_memories(b.memories@, 0) + u3b;
    assert(spec_enc_module_info(b) == spec_enc_u32(b.memories@.len() as u32) + u2b);
    let t14b = u14b + r2;
    let t13b = u13b + r2;
    let t12b = u12b + r2;
    let t11b = u11b + r2;
    let t10b = u10b + r2;
    let t9b = u9b + r2;
    let t8b = u8b + r2;
    let t7b = u7b + r2;
    let t6b = u6b + r2;
    let t5b = u5b + r2;
    let t4b = u4b + r2;
    let t3b = u3b + r2;
    let t2b = u2b + r2;
    lemma_add_assoc(spec_enc_u32(b.memories@.len() as u32), u2b, r2);
    lemma_add_assoc(spec_enc_memories(b.memories@, 0), u3b, r2);
    lemma_add_assoc(spec_enc_u32(b.tables@.len() as u32), u4b, r2);
    lemma_add_assoc(spec_enc_tables(b.tables@, 0), u5b, r2);
    lemma_add_assoc(spec_enc_u32(b.globals@.len() as u32), u6b, r2);
    lemma_add_assoc(spec_enc_u64_items(b.globals@, 0), u7b, r2);
    lemma_add_assoc(spec_enc_u32(b.data_initializers@.len() as u32), u8b, r2);
    lemma_add_assoc(spec_enc_data_inits(b.data_initializers@, 0), u9b, r2);
    lemma_add_assoc(spec_enc_u32(b.elem_initializers@.len() as u32), u10b, r2);
    lemma_add_assoc(spec_enc_elem_inits(b.elem_initializers@, 0), u11b, r2);
    lemma_add_assoc(spec_enc_u32(b.exports@.len() as u32), u12b, r2);
    lemma_add_assoc(spec_enc_exports(b.exports@, 0), u13b, r2);
    lemma_add_assoc(spec_enc_u32(sfb), u14b, r2);
    assert(spec_enc_module_info(b) + r2 == spec_enc_u32(b.memories@.len() as u32) + t2b);
    assert(t2b == spec_enc_memories(b.memories@, 0) + t3b);
    assert(t3b == spec_enc_u32(b.tables@.len() as u32) + t4b);
    assert(t4b == spec_enc_tables(b.tables@, 0) + t5b);
    assert(t5b == spec_enc_u32(b.globals@.len() as u32) + t6b);
    assert(t6b == spec_enc_u64_items(b.globals@, 0) + t7b);
    assert(t7b == spec_enc_u32(b.data_initializers@.len() as u32) + t8b);
    assert(t8b == spec_enc_data_inits(b.data_initializers@, 0) + t9b);
    assert(t9b == spec_enc_u32(b.elem_initializers@.len() as u32) + t10b);
    assert(t10b == spec_enc_elem_inits(b.elem_initializers@, 0) + t11b);
    assert(t11b == spec_enc_u32(b.exports@.len() as u32) + t12b);
    assert(t12b == spec_enc_exports(b.exports@, 0) + t13b);
    assert(t13b == spec_enc_u32(sfb) + t14b);
    lemma_enc_u32_cancel(a.memories@.len() as u32, b.memories@.len() as u32, t2a, t2b);

    assert(a.memories@.len() == b.memories@.len());
    lemma_enc_memories_cancel(a.memories@, b.memories@, 0, t3a, t3b);
    assert(a.memories@ =~= b.memories@);
    lemma_enc_u32_cancel(a.tables@.len() as u32, b.tables@.len() as u32, t4a, t4b);
    assert(a.tables@.len() == b.tables@.len());
    lemma_enc_tables_cancel(a.tables@, b.tables@, 0, t5a, t5b);
    assert(a.tables@ =~= b.tables@);
    lemma_enc_u32_cancel(a.globals@.len() as u32, b.globals@.len() as u32, t6a, t6b);
    assert(a.globals@.len() == b.globals@.len());
    lemma_enc_u64_items_cancel(a.globals@, b.globals@, 0, t7a, t7b);
    assert(a.globals@ =~= b.globals@);
    lemma_enc_u32_cancel(
        a.data_initializers@.len() as u32,
        b.data_initializers@.len() as u32,
        t8a,
        t8b,
    );
    assert(a.data_initializers@.len() == b.data_initializers@.len());
    lemma_enc_data_inits_cancel(a.data_initializers@, b.data_initializers@, 0, t9a, t9b);
    lemma_enc_u32_cancel(
        a.elem_initializers@.len() as u32,
        b.elem_initializers@.len() as u32,
        t10a,
        t10b,
    );
    assert(a.elem_initializers@.len() == b.elem_initializers@.len());
    lemma_enc_elem_inits_cancel(a.elem_initializers@, b.elem_initializers@, 0, t11a, t11b);
    lemma_enc_u32_cancel(a.exports@.len() as u32, b.exports@.len() as u32, t12a, t12b);
    assert(a.exports@.len() == b.exports@.len());
    lemma_enc_exports_cancel(a.exports@, b.exports@, 0, t13a, t13b);
    lemma_enc_u32_cancel(sfa, sfb, t14a, t14b);
    assert(t14a == spec_enc_u32(sva) + r1);
    assert(t14b == spec_enc_u32(svb) + r2);
    lemma_enc_u32_cancel(sva, svb, r1, r2);
}

/// Two observably different protections never encode to the same constant.
proof fn lemma_protect_const_injective(p1: Protect, p2: Protect)
    requires
        p1.spec_to_protect_const() == p2.spec_to_protect_const(),
    ensures
        p1 == p2,
{
}

/// The cache body encoding is injective: two encodable, well-formed
/// artifacts with the same body bytes agree on the module description
/// (field by field), on the backend metadata bytewise, and on the
/// executable region's bytes, content size and protection. Together with
/// the contracts of `serialize_artifact` and `deserialize_artifact`, this
/// says that whenever deserializing a serialized well-formed artifact
/// succeeds, the result is equivalent to the artifact serialized:
/// deserialization returns only an encodable artifact with well-formed
/// memories whose exact encoding is the input, and only one such artifact
/// has that encoding. Success itself is not obliged by contract — the
/// rebuild depends on the machine's page granularity — and is exercised by
/// tests instead.
pub proof fn lemma_artifact_encoding_injective(a: Artifact, b: Artifact)
    requires
        spec_encodable(a.spec_info(), a.spec_metadata(), a.spec_code()),
        spec_encodable(b.spec_info(), b.spec_metadata(), b.spec_code()),
        a.spec_info().memories_wf(),
        b.spec_info().memories_wf(),
        a.spec_body_bytes() == b.spec_body_bytes(),
    ensures
        a.spec_info().memories@ == b.spec_info().memories@,
        a.spec_info().tables@ == b.spec_info().tables@,
        a.spec_info().globals@ == b.spec_info().globals@,
        a.spec_info().data_initializers@.len() == b.spec_info().data_initializers@.len(),
        forall|j: int|
            0 <= j < a.spec_info().data_initializers@.len() ==> {
                &&& (#[trigger] a.spec_info().data_initializers@[j]).memory_index
                    == b.spec_info().data_initializers@[j].memory_index
                &&& a.spec_info().data_initializers@[j].offset
                    == b.spec_info().data_initializers@[j].offset
                &&& a.spec_info().data_initializers@[j].data@
                    == b.spec_info().data_initializers@[j].data@
            },
        a.spec_info().elem_initializers@.len() == b.spec_info().elem_initializers@.len(),
        forall|j: int|
            0 <= j < a.spec_info().elem_initializers@.len() ==> {
                &&& (#[trigger] a.spec_info().elem_initializers@[j]).table_index
                    == b.spec_info().elem_initializers@[j].table_index
                &&& a.spec_info().elem_initializers@[j].offset
                    == b.spec_info().elem_initializers@[j].offset
                &&& a.spec_info().elem_initializers@[j].elems@
                    == b.spec_info().elem_initializers@[j].elems@
            },
        a.spec_info().exports@.len() == b.spec_info().exports@.len(),
        forall|j: int|
            0 <= j < a.spec_info().exports@.len() ==> (#[trigger] a.spec_info().exports@[
            j]).name@ == b.spec_info().exports@[j].name@ && a.spec_info().exports@[j].index
                == b.spec_info().exports@[j].index,
        a.spec_info().start_func == b.spec_info().start_func,
        a.spec_metadata() == b.spec_metadata(),
        a.spec_code().spec_bytes() == b.spec_code().spec_bytes(),
        a.spec_code().spec_content_size() == b.spec_code().spec_content_size(),
        a.spec_code().spec_protection() == b.spec_code().spec_protection(),
{
    let empty = Seq::<u8>::empty();
    let t5a = spec_enc_u32(a.spec_code().spec_protection().spec_to_protect_const()) + empty;
    let t4a = spec_enc_u32(a.spec_code().spec_content_size()) + t5a;
    let t3a = spec_enc_bytes(a.spec_code().spec_bytes()) + t4a;
    let t2a = spec_enc_bytes(a.spec_metadata()) + t3a;
    assert(a.spec_body_bytes() =~= spec_enc_module_info(a.spec_info()) + t2a);
    let t5b = spec_enc_u32(b.spec_code().spec_protection().spec_to_protect_const()) + empty;
    let t4b = spec_enc_u32(b.spec_code().spec_content_size()) + t5b;
    let t3b = spec_enc_bytes(b.spec_code().spec_bytes()) + t4b;
    let t2b = spec_enc_bytes(b.spec_metadata()) + t3b;
    assert(b.spec_body_bytes() =~= spec_enc_module_info(b.spec_info()) + t2b);
    lemma_enc_module_info_cancel(a.spec_info(), b.spec_info(), t2a, t2b);
    lemma_enc_bytes_cancel(a.spec_metadata(), b.spec_metadata(), t3a, t3b);
    lemma_enc_bytes_cancel(a.spec_code().spec_bytes(), b.spec_code().spec_bytes(), t4a, t4b);
    lemma_enc_u32_cancel(
        a.spec_code().spec_content_size(),
        b.spec_code().spec_content_size(),
        t5a,
        t5b,
    );
    lemma_enc_u32_cancel(
        a.spec_code().spec_protection().spec_to_protect_const(),
        b.spec_code().spec_protection().spec_to_protect_const(),
        empty,
        empty,
    );
    lemma_protect_const_injective(
        a.spec_code().spec_protection(),
        b.spec_code().spec_protection(),
    );
}

/// The compact scheme inherits the body's injectivity: equal header-framed
/// caches carry equal bodies.
pub proof fn lemma_cached_bytes_equal_bodies(a: Artifact, b: Artifact)
    requires
        a.spec_cached_bytes() == b.spec_cached_bytes(),
    ensures
        a.spec_body_bytes() == b.spec_body_bytes(),
{
    lemma_append_cancel(
        spec_enc_header(CURRENT_CACHE_VERSION as u64, a.spec_body_bytes().len() as u64),
        a.spec_body_bytes(),
        spec_enc_header(CURRENT_CACHE_VERSION as u64, b.spec_body_bytes().len() as u64),
        b.spec_body_bytes(),
    );
}

} // verus!
