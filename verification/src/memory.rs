//! The executable memory region: a sized, protected, page-aligned span of
//! bytes.
//!
//! The region's observable state is its bytes, its protection, the page
//! granularity it was allocated with, and the logically meaningful content
//! prefix. Sizes are always a multiple of the page granularity; a zero-sized
//! request yields an empty placeholder with no backing. The process that
//! carries such a region in address space obtains the granularity from the
//! operating system once, at construction.

use vstd::prelude::*;

verus! {

/// Kinds of memory protection.
#[derive(Clone, Copy, PartialEq, Eq, Structural, Debug)]
pub enum Protect {
    /// No access.
    NoAccess,
    /// Read only.
    Read,
    /// Read/write only.
    ReadWrite,
    /// Read/exec only.
    ReadExec,
    /// Read/write/exec.
    ReadWriteExec,
}

impl Protect {
    /// The protection constant handed to the operating system: the bitwise
    /// or of read (1), write (2) and exec (4).
    pub open spec fn spec_to_protect_const(self) -> u32 {
        match self {
            Protect::NoAccess => 0,
            Protect::Read => 1,
            Protect::ReadWrite => 3,
            Protect::ReadExec => 5,
            Protect::ReadWriteExec => 7,
        }
    }

    /// Executable twin of [`Self::spec_to_protect_const`].
    pub fn to_protect_const(self) -> (r: u32)
        ensures
            r == self.spec_to_protect_const(),
    {
        match self {
            Protect::NoAccess => 0,
            Protect::Read => 1,
            Protect::ReadWrite => 3,
            Protect::ReadExec => 5,
            Protect::ReadWriteExec => 7,
        }
    }

    /// Whether this protection permits reading.
    pub open spec fn spec_is_readable(self) -> bool {
        self != Protect::NoAccess
    }

    /// Returns true if this memory is readable.
    pub fn is_readable(self) -> (r: bool)
        ensures
            r == self.spec_is_readable(),
    {
        match self {
            Protect::Read | Protect::ReadWrite | Protect::ReadExec | Protect::ReadWriteExec => true,
            _ => false,
        }
    }

    /// Whether this protection permits writing.
    pub open spec fn spec_is_writable(self) -> bool {
        self == Protect::ReadWrite || self == Protect::ReadWriteExec
    }

    /// Returns true if this memory is writable.
    pub fn is_writable(self) -> (r: bool)
        ensures
            r == self.spec_is_writable(),
    {
        match self {
            Protect::ReadWrite | Protect::ReadWriteExec => true,
            _ => false,
        }
    }
}

/// An owned file descriptor backing a file mapping; the carrier of the
/// mapping closes it when the last region sharing it goes away.
#[derive(Clone, Copy, PartialEq, Eq, Structural, Debug)]
pub struct RawFd(pub i32);

/// `size` rounded up to the next multiple of `page_size`.
pub open spec fn spec_round_up(size: int, page_size: int) -> int {
    ((size + page_size - 1) / page_size) * page_size
}

/// `size` rounded down to a multiple of `page_size`.
pub open spec fn spec_round_down(size: int, page_size: int) -> int {
    (size / page_size) * page_size
}

/// How rounding up relates to division: with `s == q*p + rem`, the rounded
/// value is `q*p` when `rem` is zero and `(q+1)*p` otherwise.
pub proof fn lemma_round_up_decompose(s: int, p: int)
    requires
        s >= 0,
        p >= 1,
    ensures
        s % p == 0 ==> spec_round_up(s, p) == (s / p) * p == s,
        s % p != 0 ==> spec_round_up(s, p) == (s / p + 1) * p == s + p - s % p,
{
    let q = s / p;
    let rem = s % p;
    vstd::arithmetic::div_mod::lemma_fundamental_div_mod(s, p);
    vstd::arithmetic::div_mod::lemma_mod_bound(s, p);
    assert(s == q * p + rem) by (nonlinear_arith)
        requires
            s == p * q + rem,
    ;
    if rem == 0 {
        assert(s + p - 1 == q * p + (p - 1));
        vstd::arithmetic::div_mod::lemma_fundamental_div_mod_converse_div(
            s + p - 1,
            p,
            q,
            p - 1,
        );
        assert(spec_round_up(s, p) == q * p);
    } else {
        assert(s + p - 1 == (q + 1) * p + (rem - 1)) by (nonlinear_arith)
            requires
                s == q * p + rem,
        ;
        vstd::arithmetic::div_mod::lemma_fundamental_div_mod_converse_div(
            s + p - 1,
            p,
            q + 1,
            rem - 1,
        );
        assert(spec_round_up(s, p) == (q + 1) * p);
        assert((q + 1) * p == q * p + p) by (nonlinear_arith);
    }
}

/// Rounding up yields the least page multiple that is not below `size`.
pub proof fn lemma_round_up(size: int, page_size: int)
    requires
        size >= 0,
        page_size >= 1,
    ensures
        spec_round_up(size, page_size) >= size,
        spec_round_up(size, page_size) < size + page_size,
        spec_round_up(size, page_size) % page_size == 0,
        size % page_size == 0 ==> spec_round_up(size, page_size) == size,
{
    let p = page_size;
    let s = size;
    lemma_round_up_decompose(s, p);
    vstd::arithmetic::div_mod::lemma_mod_bound(s, p);
    if s % p == 0 {
        vstd::arithmetic::div_mod::lemma_mod_multiples_basic(s / p, p);
    } else {
        vstd::arithmetic::div_mod::lemma_mod_multiples_basic(s / p + 1, p);
    }
}

/// Round `size` up to the next page multiple.
pub fn round_up_to_page_size(size: usize, page_size: usize) -> (r: usize)
    requires
        page_size >= 1,
        spec_round_up(size as int, page_size as int) <= usize::MAX,
    ensures
        r == spec_round_up(size as int, page_size as int),
{
    proof {
        lemma_round_up_decompose(size as int, page_size as int);
    }
    let q = size / page_size;
    let rem = size % page_size;
    if rem == 0 {
        q * page_size
    } else {
        (q + 1) * page_size
    }
}

/// Round `size` down to a page multiple.
pub fn round_down_to_page_size(size: usize, page_size: usize) -> (r: usize)
    requires
        page_size >= 1,
    ensures
        r == spec_round_down(size as int, page_size as int),
        r <= size,
{
    proof {
        vstd::arithmetic::div_mod::lemma_fundamental_div_mod(size as int, page_size as int);
        vstd::arithmetic::div_mod::lemma_mod_bound(size as int, page_size as int);
        assert((size as int / page_size as int) * page_size as int <= size as int)
            by (nonlinear_arith)
            requires
                size as int == page_size as int * (size as int / page_size as int) + size as int
                    % page_size as int,
                size as int % page_size as int >= 0,
        ;
    }
    (size / page_size) * page_size
}

/// Relies on page_size::get: the operating system's memory page size in
/// bytes, used as the allocation granularity of every region.
#[verifier::external_body]
fn os_page_size() -> usize {
    page_size::get()
}

/// Data for a sized and protected region of memory.
pub struct Memory {
    contents: Vec<u8>,
    page_size: usize,
    protection: Protect,
    fd: Option<RawFd>,
    content_size: u32,
}

impl Memory {
    /// The bytes of the whole region.
    pub closed spec fn spec_bytes(self) -> Seq<u8> {
        self.contents@
    }

    /// The size of the region in bytes.
    pub open spec fn spec_size(self) -> int {
        self.spec_bytes().len() as int
    }

    /// The page granularity the region was allocated with.
    pub closed spec fn spec_page_size(self) -> int {
        self.page_size as int
    }

    /// The current protection.
    pub closed spec fn spec_protection(self) -> Protect {
        self.protection
    }

    /// The logically meaningful content prefix length.
    pub closed spec fn spec_content_size(self) -> u32 {
        self.content_size
    }

    /// The backing file descriptor, if the region maps a file.
    pub closed spec fn spec_fd(self) -> Option<RawFd> {
        self.fd
    }

    /// A region is well formed when its size is a multiple of a positive
    /// page granularity and the content prefix lies within it.
    pub open spec fn wf(self) -> bool {
        &&& self.spec_page_size() >= 1
        &&& self.spec_size() % self.spec_page_size() == 0
        &&& self.spec_content_size() <= self.spec_size()
    }

    /// Create an anonymous region of at least `size` bytes (rounded up to
    /// the page granularity), zero-filled, with the given protection. A
    /// zero-sized request yields an empty placeholder.
    pub fn with_size_protect_paged(size: usize, protection: Protect, page_size: usize) -> (r:
        Memory)
        requires
            page_size >= 1,
            spec_round_up(size as int, page_size as int) <= usize::MAX,
        ensures
            r.wf(),
            r.spec_page_size() == page_size,
            r.spec_protection() == protection,
            r.spec_content_size() == 0,
            r.spec_fd() is None,
            size == 0 ==> r.spec_size() == 0,
            size > 0 ==> r.spec_size() == spec_round_up(size as int, page_size as int),
            forall|i: int| 0 <= i < r.spec_size() ==> r.spec_bytes()[i] == 0,
    {
        if size == 0 {
            return Memory {
                contents: Vec::new(),
                page_size,
                protection,
                fd: None,
                content_size: 0,
            };
        }
        let rounded = round_up_to_page_size(size, page_size);
        let mut contents: Vec<u8> = Vec::new();
        let mut i: usize = 0;
        while i < rounded
            invariant
                i <= rounded,
                contents@.len() == i,
                forall|j: int| 0 <= j < i ==> contents@[j] == 0,
            decreases rounded - i,
        {
            contents.push(0);
            i = i + 1;
        }
        proof {
            lemma_round_up(size as int, page_size as int);
        }
        Memory { contents, page_size, protection, fd: None, content_size: 0 }
    }

    /// Create a new memory with the given size and protection, using the
    /// operating system's page granularity. Fails only when the system
    /// reports an unusable granularity or the rounded size does not fit.
    pub fn with_size_protect(size: usize, protection: Protect) -> (r: Result<Memory, String>)
        ensures
            r matches Ok(m) ==> {
                &&& m.wf()
                &&& m.spec_protection() == protection
                &&& m.spec_content_size() == 0
                &&& m.spec_fd() is None
                &&& m.spec_size() >= size
                &&& size == 0 ==> m.spec_size() == 0
                &&& size > 0 ==> m.spec_size() == spec_round_up(size as int, m.spec_page_size())
                &&& forall|i: int| 0 <= i < m.spec_size() ==> m.spec_bytes()[i] == 0
            },
    {
        let page_size = os_page_size();
        if page_size < 1 {
            return Err("virtual memory allocation failed".to_owned());
        }
        if size > usize::MAX - page_size {
            return Err("virtual memory allocation failed".to_owned());
        }
        proof {
            lemma_round_up(size as int, page_size as int);
        }
        Ok(Memory::with_size_protect_paged(size, protection, page_size))
    }

    /// Create a new memory with the given contents size and protection.
    /// Used when the size of the contents must be tracked, as when a cache
    /// body is being reconstructed.
    pub fn with_content_size_protect(content_size: u32, protection: Protect) -> (r: Result<
        Memory,
        String,
    >)
        ensures
            r matches Ok(m) ==> {
                &&& m.wf()
                &&& m.spec_protection() == protection
                &&& m.spec_content_size() == content_size
                &&& m.spec_size() >= content_size
                &&& content_size == 0 ==> m.spec_size() == 0
                &&& content_size > 0 ==> m.spec_size() == spec_round_up(
                    content_size as int,
                    m.spec_page_size(),
                )
                &&& forall|i: int| 0 <= i < m.spec_size() ==> m.spec_bytes()[i] == 0
            },
    {
        match Memory::with_size_protect(content_size as usize, protection) {
            Ok(mut memory) => {
                memory.set_content_size(content_size);
                Ok(memory)
            },
            Err(e) => Err(e),
        }
    }

    /// Create a new memory of the given size with no access allowed.
    pub fn with_size(size: usize) -> (r: Result<Memory, String>)
        ensures
            r matches Ok(m) ==> {
                &&& m.wf()
                &&& m.spec_protection() == Protect::NoAccess
                &&& m.spec_content_size() == 0
                &&& m.spec_size() >= size
                &&& size == 0 ==> m.spec_size() == 0
                &&& size > 0 ==> m.spec_size() == spec_round_up(size as int, m.spec_page_size())
                &&& forall|i: int| 0 <= i < m.spec_size() ==> m.spec_bytes()[i] == 0
            },
    {
        Memory::with_size_protect(size, Protect::NoAccess)
    }

    /// Change the protection of the byte range `start..end`; the range is
    /// rounded outward to page boundaries and must fit within the region.
    /// The region keeps one protection for the whole span, as its carrier
    /// applies the change to every page it covers.
    pub fn protect(&mut self, start: usize, end: usize, protection: Protect) -> (r: Result<
        (),
        String,
    >)
        requires
            old(self).wf(),
            start <= end <= old(self).spec_size(),
            spec_round_up(end - start, old(self).spec_page_size()) <= old(self).spec_size(),
        ensures
            r is Ok,
            final(self).wf(),
            final(self).spec_bytes() == old(self).spec_bytes(),
            final(self).spec_page_size() == old(self).spec_page_size(),
            final(self).spec_protection() == protection,
            final(self).spec_content_size() == old(self).spec_content_size(),
            final(self).spec_fd() == old(self).spec_fd(),
    {
        let page_size = self.page_size;
        let region_size = self.contents.len();
        let q = (end - start) / page_size;
        let rem = (end - start) % page_size;
        proof {
            lemma_round_up_decompose(end - start, page_size as int);
            if rem != 0 {
                let p = page_size as int;
                let s = end - start;
                assert((q as int + 1) * p == spec_round_up(s, p));
                assert(q as int + 1 <= (q as int + 1) * p) by (nonlinear_arith)
                    requires
                        p >= 1,
                        q as int + 1 >= 1,
                ;
            }
        }
        let rounded_size: usize = if rem == 0 {
            q * page_size
        } else {
            (q + 1) * page_size
        };
        assert(rounded_size <= region_size);
        self.protection = protection;
        Ok(())
    }

    /// Set the content size of this memory. Must be set by the caller, as
    /// what counts as content differs case by case.
    pub fn set_content_size(&mut self, size: u32)
        requires
            size <= old(self).spec_size(),
        ensures
            final(self).spec_bytes() == old(self).spec_bytes(),
            final(self).spec_page_size() == old(self).spec_page_size(),
            final(self).spec_protection() == old(self).spec_protection(),
            final(self).spec_content_size() == size,
            final(self).spec_fd() == old(self).spec_fd(),
    {
        self.content_size = size;
    }

    /// Split this memory at `offset`, a page multiple within the region:
    /// this region keeps the first part, the returned region owns the rest.
    /// A backing descriptor is shared, so the carrier closes it once.
    pub fn split_at(&mut self, offset: usize) -> (second: Memory)
        requires
            old(self).wf(),
            offset <= old(self).spec_size(),
            offset as int % old(self).spec_page_size() == 0,
            old(self).spec_content_size() <= offset,
        ensures
            final(self).wf(),
            second.wf(),
            final(self).spec_bytes() == old(self).spec_bytes().subrange(0, offset as int),
            second.spec_bytes() == old(self).spec_bytes().subrange(
                offset as int,
                old(self).spec_size(),
            ),
            final(self).spec_protection() == old(self).spec_protection(),
            second.spec_protection() == old(self).spec_protection(),
            final(self).spec_page_size() == old(self).spec_page_size(),
            second.spec_page_size() == old(self).spec_page_size(),
            final(self).spec_content_size() == old(self).spec_content_size(),
            second.spec_content_size() == 0,
            final(self).spec_fd() == old(self).spec_fd(),
            second.spec_fd() == old(self).spec_fd(),
    {
        let second_contents = self.contents.split_off(offset);
        proof {
            let p = old(self).spec_page_size();
            let sz = old(self).spec_size();
            vstd::arithmetic::div_mod::lemma_fundamental_div_mod(sz, p);
            vstd::arithmetic::div_mod::lemma_fundamental_div_mod(offset as int, p);
            let a = sz / p;
            let b = offset as int / p;
            assert((a - b) * p == a * p - b * p) by (nonlinear_arith);
            vstd::arithmetic::div_mod::lemma_mod_multiples_basic(a - b, p);
        }
        Memory {
            contents: second_contents,
            page_size: self.page_size,
            protection: self.protection,
            fd: self.fd,
            content_size: 0,
        }
    }

    /// Gets the size of this memory.
    pub fn size(&self) -> (r: usize)
        ensures
            r == self.spec_size(),
    {
        self.contents.len()
    }

    /// Gets the size of the actual contents of this memory.
    pub fn content_size(&self) -> (r: u32)
        ensures
            r == self.spec_content_size(),
    {
        self.content_size
    }

    /// Gets the page granularity of this memory.
    pub fn page_size(&self) -> (r: usize)
        ensures
            r == self.spec_page_size(),
    {
        self.page_size
    }

    /// Gets a slice for this memory.
    pub fn as_slice(&self) -> (r: &[u8])
        ensures
            r@ == self.spec_bytes(),
    {
        self.contents.as_slice()
    }

    /// Gets a slice for this memory, bounded by the content size.
    pub fn as_slice_contents(&self) -> (r: &[u8])
        requires
            self.wf(),
        ensures
            r@ == self.spec_bytes().subrange(0, self.spec_content_size() as int),
    {
        vstd::slice::slice_subrange(self.contents.as_slice(), 0, self.content_size as usize)
    }

    /// Overwrite the whole region with `bytes`, which must have exactly the
    /// region's size; this stands in for writing through a mutable view.
    pub fn set_bytes(&mut self, bytes: &[u8])
        requires
            bytes@.len() == old(self).spec_size(),
        ensures
            final(self).spec_bytes() == bytes@,
            final(self).spec_page_size() == old(self).spec_page_size(),
            final(self).spec_protection() == old(self).spec_protection(),
            final(self).spec_content_size() == old(self).spec_content_size(),
            final(self).spec_fd() == old(self).spec_fd(),
    {
        self.contents = vstd::slice::slice_to_vec(bytes);
    }

    /// Gets the protect kind of this memory.
    pub fn protection(&self) -> (r: Protect)
        ensures
            r == self.spec_protection(),
    {
        self.protection
    }
}

impl Clone for Memory {
    /// A fresh region with the same bytes and protection: the carrier
    /// allocates a new mapping, copies the bytes (widening protection while
    /// it does, if need be) and restores the protection. The copy owns no
    /// backing descriptor, and its content size starts at zero, as on any
    /// fresh mapping.
    fn clone(&self) -> (r: Self)
        ensures
            r.spec_bytes() == self.spec_bytes(),
            r.spec_page_size() == self.spec_page_size(),
            r.spec_protection() == self.spec_protection(),
            r.spec_content_size() == 0,
            r.spec_fd() is None,
    {
        Memory {
            contents: vstd::slice::slice_to_vec(self.contents.as_slice()),
            page_size: self.page_size,
            protection: self.protection,
            fd: None,
            content_size: 0,
        }
    }
}

} // verus!
