use ibst::util::{AllocError, PageMap, PageMapEntry, RawAlloc};

const PRESENT: u64 = 1 << 63;

fn entries(base_pfn: u64) -> Vec<u64> {
    (0..512u64).map(|i| PRESENT | (base_pfn + i)).collect()
}

#[test]
fn entry_offset_is_eight_bytes_a_page() {
    assert_eq!(PageMap::entry_offset(0), 0);
    assert_eq!(PageMap::entry_offset(0xfff), 0);
    assert_eq!(PageMap::entry_offset(0x1000), 8);
    assert_eq!(PageMap::entry_offset(0x7f12_3456_7000), 0x7f12_3456_7 * 8);
    assert_eq!(PageMap::entry_offset(u64::MAX), (u64::MAX >> 12) * 8);
    assert_eq!(PageMap::NUM_OFFSET_BITS, 12);
    assert_eq!(PageMap::PAGE_SIZE, 4096);
    assert_eq!(PageMapEntry::NUM_BYTES, 8);
}

#[test]
fn paddr_joins_frame_and_page_offset() {
    assert_eq!(PageMap::paddr(PageMapEntry(PRESENT | 0x12345), 0x7f00_0000_0abc), Ok(0x1234_5abc));
    assert_eq!(PageMap::paddr(PageMapEntry(PRESENT | 1), 0), Ok(0x1000));
    assert_eq!(PageMap::paddr(PageMapEntry(PRESENT | 1), 0xfff), Ok(0x1fff));
    // the flags do not count
    assert_eq!(
        PageMap::paddr(PageMapEntry(PRESENT | (1 << 56) | (1 << 55) | 0x200), 0x2004),
        Ok(0x20_0004)
    );
    // of the frame number the low 52 bits count
    assert_eq!(
        PageMap::paddr(PageMapEntry(PRESENT | (1 << 52) | 7), 0x10),
        Ok(0x7010)
    );
    assert_eq!(
        PageMap::paddr(PageMapEntry(PRESENT | ((1 << 52) - 1)), 0xfff),
        Ok(u64::MAX)
    );
}

#[test]
fn paddr_errors() {
    assert_eq!(PageMap::paddr(PageMapEntry(0x12345), 0), Err(AllocError::NotPresent));
    assert_eq!(PageMap::paddr(PageMapEntry(1 << 62), 0), Err(AllocError::NotPresent));
    assert_eq!(PageMap::paddr(PageMapEntry(PRESENT), 0), Err(AllocError::PermissionDenied));
    assert_eq!(
        PageMap::paddr(PageMapEntry(PRESENT | (1 << 56) | (1 << 55)), 0x123),
        Err(AllocError::PermissionDenied)
    );
    assert_eq!(PageMap::paddr(PageMapEntry(0), 0), Err(AllocError::NotPresent));
}

#[test]
fn error_messages() {
    assert_eq!(AllocError::MapFailed.message(), "Call to mmap() failed (?)");
    assert_eq!(
        AllocError::PermissionDenied.message(),
        "Got PFN 0 from page map (do you have permission?)"
    );
    assert_eq!(AllocError::NotPresent.message(), "Couldn't find entry in page map");
    assert_eq!(
        AllocError::NotContiguous.message(),
        "Failed to allocate physically-contiguous memory"
    );
}

#[test]
fn alignment_to_two_mebibytes() {
    assert_eq!(RawAlloc::DEFAULT_SZ, 1 << 21);
    assert_eq!(RawAlloc::PAGE_SIZE, 1 << 12);
    assert_eq!(RawAlloc::NUM_PAGES, RawAlloc::DEFAULT_SZ / RawAlloc::PAGE_SIZE);
    assert!(RawAlloc::is_aligned(0));
    assert!(RawAlloc::is_aligned(0x20_0000));
    assert!(RawAlloc::is_aligned(0x7f12_3460_0000));
    assert!(!RawAlloc::is_aligned(0x10_0000));
    assert!(!RawAlloc::is_aligned(0x20_1000));
    assert!(!RawAlloc::is_aligned(1));
}

#[test]
fn contiguous_mapping_is_accepted() {
    let vaddr = 0x7f12_3460_0000u64;
    let e = entries(0x4_0200);
    let a = RawAlloc::validate(vaddr, &e).unwrap();
    assert_eq!(a, RawAlloc { addr: vaddr, paddr: 0x4020_0000, len: 0x20_0000 });
    // every page lies where the base leads
    for (i, entry) in e.iter().enumerate() {
        let page = vaddr + i as u64 * 4096;
        assert_eq!(PageMap::paddr(PageMapEntry(*entry), page), Ok(a.paddr + i as u64 * 4096));
    }
}

#[test]
fn a_page_out_of_line_is_a_contiguity_error() {
    let vaddr = 0x7f12_3460_0000u64;
    for broken in [1usize, 2, 255, 511] {
        let mut e = entries(0x4_0200);
        e[broken] = PRESENT | 0x9_9999;
        assert_eq!(RawAlloc::validate(vaddr, &e), Err(AllocError::NotContiguous));
    }
    // two pages swapped
    let mut e = entries(0x4_0200);
    e.swap(7, 8);
    assert_eq!(RawAlloc::validate(vaddr, &e), Err(AllocError::NotContiguous));
    // the last page alone is enough
    let mut e = entries(0x4_0200);
    e[511] += 1;
    assert_eq!(RawAlloc::validate(vaddr, &e), Err(AllocError::NotContiguous));
}

#[test]
fn unresolved_pages_give_their_own_error() {
    let vaddr = 0x20_0000u64;
    let mut e = entries(0x4_0200);
    e[0] = 0x4_0200;
    assert_eq!(RawAlloc::validate(vaddr, &e), Err(AllocError::NotPresent));
    let mut e = entries(0x4_0200);
    e[0] = PRESENT;
    assert_eq!(RawAlloc::validate(vaddr, &e), Err(AllocError::PermissionDenied));
    let mut e = entries(0x4_0200);
    e[100] = PRESENT;
    assert_eq!(RawAlloc::validate(vaddr, &e), Err(AllocError::PermissionDenied));
    let mut e = entries(0x4_0200);
    e[300] = 0;
    assert_eq!(RawAlloc::validate(vaddr, &e), Err(AllocError::NotPresent));
    // the first page that fails decides
    let mut e = entries(0x4_0200);
    e[10] = PRESENT | 5;
    e[20] = 0;
    assert_eq!(RawAlloc::validate(vaddr, &e), Err(AllocError::NotContiguous));
    let mut e = entries(0x4_0200);
    e[10] = 0;
    e[20] = PRESENT | 5;
    assert_eq!(RawAlloc::validate(vaddr, &e), Err(AllocError::NotPresent));
}

#[test]
fn allocation_addresses() {
    let a = RawAlloc { addr: 0x7f12_3460_0000, paddr: 0x4020_0000, len: 0x20_0000 };
    assert_eq!(a.addr(), 0x7f12_3460_0000);
    assert_eq!(a.paddr(), 0x4020_0000);
}

#[test]
fn the_physical_base_need_not_be_aligned() {
    let vaddr = 0x7f12_3460_0000u64;
    let e = entries(0x4_0201);
    assert!(!RawAlloc::is_aligned(0x4020_1000));
    let a = RawAlloc::validate(vaddr, &e).unwrap();
    assert_eq!(a, RawAlloc { addr: vaddr, paddr: 0x4020_1000, len: 0x20_0000 });
    // out of line pages give the contiguity error there too
    let mut broken = entries(0x4_0201);
    broken[17] = PRESENT | 0x4_0200;
    assert_eq!(RawAlloc::validate(vaddr, &broken), Err(AllocError::NotContiguous));
}
