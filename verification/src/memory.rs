//! The regions of the backing memory.
//!
//! One linear memory is divided into regions that grow independently. A
//! region is named by a small number, which is part of the persisted layout:
//! the structure that a region was given to is found in it again when the
//! memory is opened anew.
//!
//! A region serves one structure. The library makes the backing memory
//! itself and keeps it, a manager hands each region out once, and a handle
//! cannot be copied: so the structure that a handle is given to is the only
//! one that writes to its region, and what a handle's region holds changes
//! only through that handle. On a canister the default memory is the
//! canister's one stable memory, which survives an upgrade: there a process
//! opens one manager.

use vstd::prelude::*;
use ic_stable_structures::memory_manager::{MemoryId, MemoryManager, VirtualMemory};
use ic_stable_structures::{DefaultMemoryImpl, Memory};
use crate::types::Error;

verus! {

/// The number of regions that a memory can be divided into.
pub const REGION_LIMIT: u8 = 255;

/// The number of bytes in a page, the unit in which a memory grows.
pub const PAGE_SIZE: u64 = 65536;

/// The backing memory: the default memory of the stable structures.
#[verifier::external_body]
pub struct Backing {
    inner: DefaultMemoryImpl,
}

/// A memory divided into regions: `MemoryManager` over the backing memory.
#[verifier::external_body]
pub struct ManagerHandle {
    inner: MemoryManager<DefaultMemoryImpl>,
}

/// A handle to one region: `VirtualMemory` over the backing memory.
#[verifier::external_body]
pub struct Region {
    pub(crate) inner: VirtualMemory<DefaultMemoryImpl>,
}

/// The bytes that a backing memory holds: whole pages.
pub uninterp spec fn backing_bytes(b: Backing) -> Seq<u8>;

/// The number of the region that a handle refers to.
pub uninterp spec fn region_id(r: Region) -> u8;

/// The bytes that a handle's region holds: whole pages.
pub uninterp spec fn region_bytes(r: Region) -> Seq<u8>;

/// The first bytes of a memory that is divided into regions: the letters
/// MGR and the version of the layout.
pub open spec fn manager_header() -> Seq<u8> {
    seq![0x4du8, 0x47u8, 0x52u8, 1u8]
}

/// Whether a memory holds the record of a division into regions, in the
/// layout that the manager reads.
pub open spec fn holds_manager(bytes: Seq<u8>) -> bool {
    bytes.len() >= PAGE_SIZE && bytes.subrange(0, 4) == manager_header()
}

/// Whether a memory can be divided into regions: it is empty or holds the
/// record of a division.
pub open spec fn takes_manager(bytes: Seq<u8>) -> bool {
    bytes.len() == 0 || holds_manager(bytes)
}

/// `DefaultMemoryImpl::default`: the default memory. Nothing is stated of
/// what it holds: off a canister it is a new, empty vector, on a canister
/// the stable memory with what was written to it before.
#[verifier::external_body]
fn backing_new() -> (r: Backing) {
    Backing { inner: DefaultMemoryImpl::default() }
}

/// `Memory::size`: the number of pages that the memory holds.
#[verifier::external_body]
fn backing_pages(b: &Backing) -> (n: u64)
    ensures
        n * PAGE_SIZE == backing_bytes(*b).len(),
{
    b.inner.size()
}

/// `Memory::read`: a copy of `len` bytes from `offset` on. The call panics
/// where they are not all in the memory, which `requires` leaves out.
#[verifier::external_body]
fn backing_read(b: &Backing, offset: u64, len: usize) -> (r: Vec<u8>)
    requires
        offset + len <= backing_bytes(*b).len(),
    ensures
        r@ == backing_bytes(*b).subrange(offset as int, offset + len),
{
    let mut out = vec![0u8; len];
    b.inner.read(offset, &mut out);
    out
}

/// `MemoryManager::init`: divides the memory into regions, as it was
/// divided before where it holds the record of a division. The call panics
/// on a record of another version, and writes a new record over whatever
/// else a memory holds: `requires` admits only an empty memory and one that
/// holds a record of this version.
#[verifier::external_body]
fn manager_init(backing: Backing) -> (r: ManagerHandle)
    requires
        takes_manager(backing_bytes(backing)),
{
    ManagerHandle { inner: MemoryManager::init(backing.inner) }
}

/// `MemoryManager::get` on `MemoryId::new(id)`: a handle to region `id`.
/// `MemoryId::new` panics on 255, which `requires` leaves out.
#[verifier::external_body]
fn manager_get(manager: &ManagerHandle, id: u8) -> (r: Region)
    requires
        id < REGION_LIMIT,
    ensures
        region_id(r) == id,
{
    Region { inner: manager.inner.get(MemoryId::new(id)) }
}

/// `Memory::size` of a region: the number of pages that it holds.
#[verifier::external_body]
fn region_pages(region: &Region) -> (n: u64)
    ensures
        n * PAGE_SIZE == region_bytes(*region).len(),
{
    region.inner.size()
}

/// `Memory::read` of a region: a copy of `len` bytes from `offset` on. The
/// call panics where they are not all in the region, which `requires`
/// leaves out.
#[verifier::external_body]
fn region_read(region: &Region, offset: u64, len: usize) -> (r: Vec<u8>)
    requires
        offset + len <= region_bytes(*region).len(),
    ensures
        r@ == region_bytes(*region).subrange(offset as int, offset + len),
{
    let mut out = vec![0u8; len];
    region.inner.read(offset, &mut out);
    out
}

/// Whether two byte strings are the same.
pub fn same_bytes(a: &[u8], b: &[u8]) -> (r: bool)
    ensures
        r == (a@ == b@),
{
    if a.len() != b.len() {
        return false;
    }
    let mut i: usize = 0;
    while i < a.len()
        invariant
            i <= a@.len(),
            a@.len() == b@.len(),
            forall|j: int| 0 <= j < i ==> a@[j] == b@[j],
        decreases a@.len() - i,
    {
        if a[i] != b[i] {
            assert(a@[i as int] != b@[i as int]);
            return false;
        }
        i += 1;
    }
    assert(a@ =~= b@);
    true
}

impl Region {
    /// Whether the region holds nothing yet: nothing was ever written to it.
    pub fn is_empty(&self) -> (r: bool)
        ensures
            r == (region_bytes(*self).len() == 0),
    {
        region_pages(self) == 0
    }

    /// The first `len` bytes of a region that holds something. A region
    /// holds whole pages, so every `len` up to a page can be read.
    pub fn head(&self, len: usize) -> (r: Option<Vec<u8>>)
        ensures
            match r {
                Some(bytes) => len <= PAGE_SIZE && region_bytes(*self).len() >= PAGE_SIZE && bytes@
                    == region_bytes(*self).subrange(0, len as int),
                None => len > PAGE_SIZE || region_bytes(*self).len() == 0,
            },
    {
        if len > 65536 {
            return None;
        }
        let pages = region_pages(self);
        if pages == 0 {
            return None;
        }
        assert(pages * PAGE_SIZE >= PAGE_SIZE) by (nonlinear_arith)
            requires
                pages >= 1,
        ;
        Some(region_read(self, 0, len))
    }
}

/// A memory divided into regions, and the regions that were handed out.
pub struct RegionManager {
    handle: ManagerHandle,
    taken: Vec<u8>,
}

impl RegionManager {
    /// Whether region `id` was handed out.
    pub closed spec fn is_taken(&self, id: u8) -> bool {
        self.taken@.contains(id)
    }

    /// Divides a memory into regions. An empty memory gets the record of a
    /// new division, and a memory that was divided before is divided in the
    /// same way again. A memory that holds anything else is refused with
    /// `DecodeCorruption`, and nothing is written to it. No region is handed
    /// out yet.
    pub fn over(backing: Backing) -> (r: Result<RegionManager, Error>)
        ensures
            r is Ok <==> takes_manager(backing_bytes(backing)),
            r matches Ok(manager) ==> forall|id: u8| !manager.is_taken(id),
            r matches Err(e) ==> e == Error::DecodeCorruption,
    {
        let pages = backing_pages(&backing);
        if pages != 0 {
            assert(pages * PAGE_SIZE >= PAGE_SIZE) by (nonlinear_arith)
                requires
                    pages >= 1,
            ;
            let head = backing_read(&backing, 0, 4);
            let expected: Vec<u8> = vec![0x4du8, 0x47u8, 0x52u8, 1u8];
            if !same_bytes(head.as_slice(), expected.as_slice()) {
                return Err(Error::DecodeCorruption);
            }
        }
        let handle = manager_init(backing);
        let manager = RegionManager { handle, taken: Vec::new() };
        Ok(manager)
    }

    /// Makes the backing memory and divides it into regions, as `over`
    /// does: what the memory holds decides whether it can be divided.
    pub fn open() -> (r: Result<RegionManager, Error>)
        ensures
            match r {
                Ok(manager) => forall|id: u8| !manager.is_taken(id),
                Err(e) => e == Error::DecodeCorruption,
            },
    {
        RegionManager::over(backing_new())
    }

    /// A handle to region `id`. A region takes no memory before it is
    /// written to. There are `REGION_LIMIT` regions, numbered from 0: a
    /// number beyond them is refused with `StoreFull`.
    ///
    /// The same number always stands for the same storage: the structure
    /// that was written to a region is found in it whenever the region is
    /// opened, by the handle that a structure gives back when it is closed
    /// and by every manager that is opened on the same memory later. But a
    /// manager hands a region out once: while one handle is about, a second
    /// one would let two structures write to one region, so a second
    /// request is refused with `RegionInUse`. A refusal changes nothing.
    pub fn open_region(&mut self, id: u8) -> (r: Result<Region, Error>)
        ensures
            match r {
                Ok(region) => {
                    &&& id < REGION_LIMIT
                    &&& !old(self).is_taken(id)
                    &&& region_id(region) == id
                    &&& forall|k: u8| final(self).is_taken(k) <==> (old(self).is_taken(k) || k == id)
                },
                Err(e) => {
                    &&& forall|k: u8| final(self).is_taken(k) <==> old(self).is_taken(k)
                    &&& e == if id >= REGION_LIMIT {
                        Error::StoreFull
                    } else {
                        Error::RegionInUse
                    }
                    &&& id < REGION_LIMIT ==> old(self).is_taken(id)
                },
            },
    {
        if id >= REGION_LIMIT {
            return Err(Error::StoreFull);
        }
        let mut i: usize = 0;
        while i < self.taken.len()
            invariant
                id < REGION_LIMIT,
                i <= self.taken@.len(),
                self.taken@ == old(self).taken@,
                forall|j: int| 0 <= j < i ==> self.taken@[j] != id,
            decreases self.taken@.len() - i,
        {
            if self.taken[i] == id {
                assert(self.taken@.contains(id));
                return Err(Error::RegionInUse);
            }
            i += 1;
        }
        let region = manager_get(&self.handle, id);
        self.taken.push(id);
        proof {
            let before = old(self).taken@;
            let after = self.taken@;
            assert(after == before.push(id));
            assert forall|k: u8| after.contains(k) <==> (before.contains(k) || k == id) by {
                if before.contains(k) {
                    let j = choose|j: int| 0 <= j < before.len() && before[j] == k;
                    assert(after[j] == k);
                }
                if k == id {
                    assert(after[before.len() as int] == id);
                }
                if after.contains(k) {
                    let j = choose|j: int| 0 <= j < after.len() && after[j] == k;
                    if j < before.len() {
                        assert(before[j] == k);
                    }
                }
            }
        }
        Ok(region)
    }
}

} // verus!
