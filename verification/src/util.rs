//! Page-map entries and the validation of a physically-contiguous
//! allocation.
//!
//! Code that is measured may need a scratch page whose physical address
//! is known. A mapping serves as one only if its pages lie one behind the
//! other in physical memory: [`RawAlloc::validate`] checks that against the
//! page-map entries of the mapping's pages.

use vstd::prelude::*;
use vstd::arithmetic::power2::{lemma2_to64, lemma2_to64_rest};
use crate::bits::{bit, extract, field, test_bit};

verus! {

/// An entry of the page map of a process: what the kernel tells about one
/// virtual page.
#[derive(Clone, Copy, Debug, PartialEq, Eq, Structural)]
pub struct PageMapEntry(pub u64);

impl PageMapEntry {
    /// Size of an entry in the page map, in bytes.
    pub const NUM_BYTES: u64 = 8;

    /// The page is present in memory (bit 63).
    pub open spec fn spec_present(&self) -> bool {
        bit(self.0, 63)
    }

    /// The page is swapped out (bit 62).
    pub open spec fn spec_swapped(&self) -> bool {
        bit(self.0, 62)
    }

    /// The page is mapped exclusively (bit 56).
    pub open spec fn spec_exclusive(&self) -> bool {
        bit(self.0, 56)
    }

    /// The page is soft-dirty (bit 55).
    pub open spec fn spec_soft_dirty(&self) -> bool {
        bit(self.0, 55)
    }

    /// The page frame number (bits 54:0).
    pub open spec fn spec_pfn(&self) -> nat {
        field(self.0, 0, 55)
    }

    /// The page is present in memory (bit 63).
    #[verifier::when_used_as_spec(spec_present)]
    pub fn present(&self) -> (r: bool)
        ensures
            r == bit(self.0, 63),
    {
        test_bit(self.0, 63)
    }

    /// The page is swapped out (bit 62).
    #[verifier::when_used_as_spec(spec_swapped)]
    pub fn swapped(&self) -> (r: bool)
        ensures
            r == bit(self.0, 62),
    {
        test_bit(self.0, 62)
    }

    /// The page is mapped exclusively (bit 56).
    #[verifier::when_used_as_spec(spec_exclusive)]
    pub fn exclusive(&self) -> (r: bool)
        ensures
            r == bit(self.0, 56),
    {
        test_bit(self.0, 56)
    }

    /// The page is soft-dirty (bit 55).
    #[verifier::when_used_as_spec(spec_soft_dirty)]
    pub fn soft_dirty(&self) -> (r: bool)
        ensures
            r == bit(self.0, 55),
    {
        test_bit(self.0, 55)
    }

    /// The page frame number (bits 54:0).
    pub fn pfn(&self) -> (r: u64)
        ensures
            r == field(self.0, 0, 55),
    {
        extract(self.0, 0, 55)
    }
}

/// Why no physically-contiguous allocation could be had.
#[derive(Clone, Copy, Debug, PartialEq, Eq, Structural)]
pub enum AllocError {
    /// The mapping itself could not be made.
    MapFailed,
    /// The page map could not be read, or it hides the frame numbers: both
    /// happen to a process without the privilege to see them.
    PermissionDenied,
    /// A page of the mapping is not present in memory.
    NotPresent,
    /// A page of the mapping does not lie where the pages before it lead.
    NotContiguous,
}

impl AllocError {
    /// The error in words.
    pub open spec fn message_text(self) -> Seq<char> {
        match self {
            AllocError::MapFailed => "Call to mmap() failed (?)"@,
            AllocError::PermissionDenied => "Got PFN 0 from page map (do you have permission?)"@,
            AllocError::NotPresent => "Couldn't find entry in page map"@,
            AllocError::NotContiguous => "Failed to allocate physically-contiguous memory"@,
        }
    }

    /// The error in words.
    pub fn message(&self) -> (r: &'static str)
        ensures
            r@ == self.message_text(),
    {
        match self {
            AllocError::MapFailed => "Call to mmap() failed (?)",
            AllocError::PermissionDenied => "Got PFN 0 from page map (do you have permission?)",
            AllocError::NotPresent => "Couldn't find entry in page map",
            AllocError::NotContiguous => "Failed to allocate physically-contiguous memory",
        }
    }
}

/// The page map of a process. Pages have 4 KiB.
pub struct PageMap;

impl PageMap {
    /// Number of address bits that select a byte within a page.
    pub const NUM_OFFSET_BITS: u64 = 12;

    /// Size of a page in bytes.
    pub const PAGE_SIZE: u64 = 4096;

    /// The physical address that `entry` gives to the virtual address
    /// `vaddr`, whose page it describes: the frame of the entry, with the
    /// position of `vaddr` in its page. Of the frame number the low 52 bits
    /// count, since an address has 64.
    pub open spec fn spec_paddr(entry: PageMapEntry, vaddr: u64) -> Result<u64, AllocError> {
        if !entry.present() {
            Err(AllocError::NotPresent)
        } else if entry.spec_pfn() == 0 {
            Err(AllocError::PermissionDenied)
        } else {
            Ok((field(entry.0, 0, 52) * 4096 + vaddr % 4096) as u64)
        }
    }

    /// Where in the page map the entry for `vaddr` lies, in bytes from the
    /// start.
    pub fn entry_offset(vaddr: u64) -> (r: u64)
        ensures
            r == (vaddr / 4096) * 8,
    {
        (vaddr / PageMap::PAGE_SIZE) * PageMapEntry::NUM_BYTES
    }

    /// The physical address that `entry` gives to the virtual address
    /// `vaddr`, whose page it describes.
    pub fn paddr(entry: PageMapEntry, vaddr: u64) -> (r: Result<u64, AllocError>)
        ensures
            r == PageMap::spec_paddr(entry, vaddr),
            r matches Ok(p) ==> p == field(entry.0, 0, 52) * 4096 + vaddr % 4096,
    {
        if !entry.present() {
            return Err(AllocError::NotPresent);
        }
        if entry.pfn() == 0 {
            return Err(AllocError::PermissionDenied);
        }
        let frame: u64 = extract(entry.0, 0, 52);
        proof {
            crate::bits::lemma_field_bound(entry.0, 0, 52);
            lemma2_to64();
            lemma2_to64_rest();
        }
        Ok(frame * PageMap::PAGE_SIZE + vaddr % PageMap::PAGE_SIZE)
    }
}

/// A physically-contiguous memory allocation.
#[derive(Clone, Copy, Debug, PartialEq, Eq, Structural)]
pub struct RawAlloc {
    /// The virtual address of the allocation.
    pub addr: u64,
    /// The physical address corresponding to the virtual address.
    pub paddr: u64,
    /// The length of this allocation (in bytes).
    pub len: usize,
}

impl RawAlloc {
    /// System page size is 4KiB
    pub const PAGE_SIZE: usize = 4096;

    /// Default PMD size (2MiB)
    pub const DEFAULT_SZ: usize = 0x20_0000;

    /// Number of pages in an allocation.
    pub const NUM_PAGES: usize = 512;

    /// What the `idx`-th page of a mapping at `vaddr` resolves to, by its
    /// entry.
    pub open spec fn page_paddr(vaddr: u64, entries: Seq<u64>, idx: int) -> Result<
        u64,
        AllocError,
    > {
        PageMap::spec_paddr(PageMapEntry(entries[idx]), (vaddr + idx * 4096) as u64)
    }

    /// What is wrong with the `idx`-th page of a mapping at `vaddr` whose
    /// first page lies at the physical address `base`, if anything is.
    pub open spec fn page_fault(vaddr: u64, base: u64, entries: Seq<u64>, idx: int) -> Option<
        AllocError,
    > {
        match RawAlloc::page_paddr(vaddr, entries, idx) {
            Err(e) => Some(e),
            Ok(p) => if p == base + idx * 4096 {
                None
            } else {
                Some(AllocError::NotContiguous)
            },
        }
    }

    /// Whether nothing is wrong with any page of the mapping.
    pub open spec fn contiguous(vaddr: u64, base: u64, entries: Seq<u64>) -> bool {
        forall|idx: int| 0 <= idx < entries.len() ==> RawAlloc::page_fault(vaddr, base, entries, idx) is None
    }

    /// Return the virtual address.
    pub fn addr(&self) -> (r: u64)
        ensures
            r == self.addr,
    {
        self.addr
    }

    /// Return the physical address.
    pub fn paddr(&self) -> (r: u64)
        ensures
            r == self.paddr,
    {
        self.paddr
    }

    /// Whether the address is a multiple of the size of an allocation.
    pub fn is_aligned(addr: u64) -> (r: bool)
        ensures
            r == (addr % 0x20_0000 == 0),
    {
        addr % (RawAlloc::DEFAULT_SZ as u64) == 0
    }

    /// Validates a fresh mapping of `DEFAULT_SZ` bytes at `vaddr`, given
    /// the page-map entries of its pages in order.
    ///
    /// The physical address of the first page is that of the allocation.
    /// Every page must then resolve to the address that lies as far behind
    /// it as the page lies behind the first. The first page for which that
    /// fails decides the error; nothing is returned for a mapping of which
    /// only some pages were checked.
    pub fn validate(vaddr: u64, entries: &[u64]) -> (r: Result<RawAlloc, AllocError>)
        requires
            entries@.len() == RawAlloc::NUM_PAGES,
            vaddr % 0x20_0000 == 0,
            vaddr + 0x20_0000 <= u64::MAX,
        ensures
            r is Ok <==> (RawAlloc::page_paddr(vaddr, entries@, 0) matches Ok(base)
                && RawAlloc::contiguous(vaddr, base, entries@)),
            (forall|idx: int|
                0 <= idx < entries@.len() ==> (#[trigger] RawAlloc::page_paddr(
                    vaddr,
                    entries@,
                    idx,
                )) is Ok) && r is Err ==> r == Err::<RawAlloc, AllocError>(
                AllocError::NotContiguous,
            ),
            r matches Ok(a) ==> {
                &&& a.addr == vaddr
                &&& a.len == RawAlloc::DEFAULT_SZ
                &&& a.addr % 0x20_0000 == 0
                &&& RawAlloc::page_paddr(vaddr, entries@, 0) == Ok::<u64, AllocError>(a.paddr)
                &&& RawAlloc::contiguous(vaddr, a.paddr, entries@)
                &&& forall|idx: int|
                    0 <= idx < entries@.len() ==> #[trigger] RawAlloc::page_paddr(
                        vaddr,
                        entries@,
                        idx,
                    ) == Ok::<u64, AllocError>((a.paddr + idx * 4096) as u64)
            },
            r matches Err(e) ==> {
                ||| RawAlloc::page_paddr(vaddr, entries@, 0) == Err::<u64, AllocError>(e)
                ||| exists|base: u64, idx: int|
                    {
                        &&& RawAlloc::page_paddr(vaddr, entries@, 0) == Ok::<u64, AllocError>(base)
                        &&& 0 <= idx < entries@.len()
                        &&& RawAlloc::page_fault(vaddr, base, entries@, idx) == Some(e)
                        &&& forall|j: int|
                            0 <= j < idx ==> RawAlloc::page_fault(vaddr, base, entries@, j) is None
                    }
            },
    {
        let base = match PageMap::paddr(PageMapEntry(entries[0]), vaddr) {
            Ok(p) => p,
            Err(e) => {
                return Err(e);
            },
        };
        let mut idx: usize = 0;
        while idx < RawAlloc::NUM_PAGES
            invariant
                idx <= RawAlloc::NUM_PAGES,
                entries@.len() == RawAlloc::NUM_PAGES,
                vaddr + 0x20_0000 <= u64::MAX,
                RawAlloc::page_paddr(vaddr, entries@, 0) == Ok::<u64, AllocError>(base),
                forall|j: int| 0 <= j < idx ==> RawAlloc::page_fault(vaddr, base, entries@, j) is None,
            decreases RawAlloc::NUM_PAGES - idx,
        {
            let off: u64 = (idx as u64) * PageMap::PAGE_SIZE;
            let fault = match PageMap::paddr(PageMapEntry(entries[idx]), vaddr + off) {
                Err(e) => Some(e),
                Ok(p) => if base.checked_add(off) == Some(p) {
                    None
                } else {
                    Some(AllocError::NotContiguous)
                },
            };
            assert(fault == RawAlloc::page_fault(vaddr, base, entries@, idx as int));
            if let Some(e) = fault {
                return Err(e);
            }
            idx += 1;
        }
        proof {
            assert forall|j: int| 0 <= j < entries@.len() implies #[trigger] RawAlloc::page_paddr(
                vaddr,
                entries@,
                j,
            ) == Ok::<u64, AllocError>((base + j * 4096) as u64) by {
                assert(RawAlloc::page_fault(vaddr, base, entries@, j) is None);
            }
        }
        Ok(RawAlloc { addr: vaddr, paddr: base, len: RawAlloc::DEFAULT_SZ })
    }
}

} // verus!
