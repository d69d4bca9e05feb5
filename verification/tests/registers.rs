use ibst::bits::{extract, test_bit};
use ibst::ibs::{IbsMemWidth, IbsOpCtl, IbsOpData, IbsOpData2, IbsOpData3, NbDataSrc};
use ibst::util::PageMapEntry;

#[test]
fn test_bit_reads_single_bits() {
    assert!(test_bit(1, 0));
    assert!(!test_bit(1, 1));
    assert!(test_bit(0x8000_0000_0000_0000, 63));
    assert!(!test_bit(0x7fff_ffff_ffff_ffff, 63));
    assert!(test_bit(0x40_0000_0000, 38));
}

#[test]
fn extract_reads_fields() {
    assert_eq!(extract(0xabcd_1234, 16, 16), 0xabcd);
    assert_eq!(extract(0xabcd_1234, 0, 16), 0x1234);
    assert_eq!(extract(u64::MAX, 32, 27), 0x7ff_ffff);
    assert_eq!(extract(u64::MAX, 0, 0), 0);
    assert_eq!(extract(u64::MAX, 63, 1), 1);
    assert_eq!(extract(u64::MAX, 1, 63), 0x7fff_ffff_ffff_ffff);
}

#[test]
fn op_ctl_current_count() {
    assert_eq!(IbsOpCtl(0x07ff_ffff_0000_0000).cur_cnt(), 0x07ff_ffff);
    assert_eq!(IbsOpCtl(0xf800_0000_ffff_ffff).cur_cnt(), 0);
    assert_eq!(IbsOpCtl(0x0000_0123_0000_0000).cur_cnt(), 0x123);
}

#[test]
fn op_data_flags_each_have_their_bit() {
    assert!(IbsOpData(0x0000_0100_0000_0000).op_microcode());
    assert!(IbsOpData(0x0000_0080_0000_0000).op_brn_fuse());
    assert!(IbsOpData(0x0000_0040_0000_0000).rip_invalid());
    assert!(IbsOpData(0x0000_0020_0000_0000).op_brn_ret());
    assert!(IbsOpData(0x0000_0010_0000_0000).op_brn_misp());
    assert!(IbsOpData(0x0000_0008_0000_0000).op_brn_taken());
    assert!(IbsOpData(0x0000_0004_0000_0000).op_return());
    assert!(IbsOpData(0x0000_0002_0000_0000).res_33());
    assert!(IbsOpData(0x0000_0001_0000_0000).res_32());

    let only_ucode = IbsOpData(0x0000_0100_0000_0000);
    assert!(!only_ucode.op_brn_fuse());
    assert!(!only_ucode.rip_invalid());
    assert!(!only_ucode.op_brn_ret());
    assert!(!only_ucode.op_brn_misp());
    assert!(!only_ucode.op_brn_taken());
    assert!(!only_ucode.op_return());
    assert!(!only_ucode.res_33());
    assert!(!only_ucode.res_32());

    let none = IbsOpData(!0x0000_01ff_0000_0000);
    assert!(!none.op_microcode());
    assert!(!none.rip_invalid());
    assert!(!none.op_return());
    assert!(!none.res_32());
}

#[test]
fn op_data_counters_and_reserved_fields() {
    let d = IbsOpData(0x0000_0000_0123_4567);
    assert_eq!(d.tag_to_ret_ctr(), 0x0123);
    assert_eq!(d.comp_to_ret_ctr(), 0x4567);
    assert_eq!(IbsOpData(u64::MAX).tag_to_ret_ctr(), 0xffff);
    assert_eq!(IbsOpData(u64::MAX).comp_to_ret_ctr(), 0xffff);
    assert_eq!(IbsOpData(0xffff_fe00_0000_0000).res_hi(), 0x7f_ffff);
    assert_eq!(IbsOpData(0x0000_0200_0000_0000).res_hi(), 1);
    assert_eq!(IbsOpData(0x0000_0003_0000_0000).res_lo(), 3);
    assert_eq!(IbsOpData(0x0000_0002_0000_0000).res_lo(), 2);
}

#[test]
fn op_data2_fields() {
    assert!(IbsOpData2(1 << 5).cache_hit_st());
    assert!(!IbsOpData2(1 << 4).cache_hit_st());
    assert!(IbsOpData2(1 << 4).rmt_node());
    assert!(!IbsOpData2(1 << 5).rmt_node());
    assert_eq!(IbsOpData2(0).data_src(), NbDataSrc::Invalid);
    assert_eq!(IbsOpData2(1).data_src(), NbDataSrc::Reserved1);
    assert_eq!(IbsOpData2(2).data_src(), NbDataSrc::Cache);
    assert_eq!(IbsOpData2(3).data_src(), NbDataSrc::Dram);
    assert_eq!(IbsOpData2(4).data_src(), NbDataSrc::Reserved4);
    assert_eq!(IbsOpData2(5).data_src(), NbDataSrc::Reserved5);
    assert_eq!(IbsOpData2(6).data_src(), NbDataSrc::Reserved6);
    assert_eq!(IbsOpData2(7).data_src(), NbDataSrc::Other);
    assert_eq!(IbsOpData2(0xffff_fff8 | 3).data_src(), NbDataSrc::Dram);
}

#[test]
fn data_source_codes() {
    for code in 0..8u64 {
        let src = NbDataSrc::from_code(code);
        assert_eq!(IbsOpData2(code).data_src(), src);
    }
    assert_eq!(NbDataSrc::from_code(3), NbDataSrc::Dram);
    assert_eq!(NbDataSrc::from_code(7), NbDataSrc::Other);
}

#[test]
fn mem_width_codes_and_sizes() {
    assert_eq!(IbsMemWidth::from_code(0), IbsMemWidth::NoWidth);
    assert_eq!(IbsMemWidth::from_code(1), IbsMemWidth::Byte);
    assert_eq!(IbsMemWidth::from_code(2), IbsMemWidth::Word);
    assert_eq!(IbsMemWidth::from_code(3), IbsMemWidth::Dword);
    assert_eq!(IbsMemWidth::from_code(4), IbsMemWidth::Qword);
    assert_eq!(IbsMemWidth::from_code(5), IbsMemWidth::Oword);
    assert_eq!(IbsMemWidth::from_code(6), IbsMemWidth::Yword);

    let bytes: Vec<usize> = (0..7).map(|c| IbsMemWidth::from_code(c).bytes()).collect();
    assert_eq!(bytes, vec![0, 1, 2, 4, 8, 16, 32]);
    let bits: Vec<usize> = (0..7).map(|c| IbsMemWidth::from_code(c).bits()).collect();
    assert_eq!(bits, vec![0, 8, 16, 32, 64, 128, 256]);
}

#[test]
fn op_data3_width() {
    assert_eq!(IbsOpData3(4 << 22).mem_width_code(), 4);
    assert!(IbsOpData3(4 << 22).mem_width_valid());
    assert_eq!(IbsOpData3(4 << 22).op_mem_width(), IbsMemWidth::Qword);
    assert_eq!(IbsOpData3(6 << 22).op_mem_width(), IbsMemWidth::Yword);
    assert_eq!(IbsOpData3(0).op_mem_width(), IbsMemWidth::NoWidth);
    assert_eq!(IbsOpData3(7 << 22).mem_width_code(), 7);
    for code in 7..16u64 {
        assert_eq!(IbsOpData3(code << 22).op_mem_width(), IbsMemWidth::NoWidth);
        assert_eq!(IbsMemWidth::from_code(code), IbsMemWidth::NoWidth);
    }
    assert_eq!(IbsMemWidth::from_code(u64::MAX), IbsMemWidth::NoWidth);
    assert_eq!(NbDataSrc::from_code(8), NbDataSrc::Other);
    assert_eq!(NbDataSrc::from_code(u64::MAX), NbDataSrc::Other);
    assert!(!IbsOpData3(7 << 22).mem_width_valid());
    assert!(!IbsOpData3(15 << 22).mem_width_valid());
    assert!(IbsOpData3(!(15u64 << 22)).mem_width_valid());
}

#[test]
fn op_data3_latencies_and_fields() {
    let d = IbsOpData3(0x1234_5678_0000_0000);
    assert_eq!(d.tlb_refill_lat(), 0x1234);
    assert_eq!(d.dc_miss_lat(), 0x5678);
    assert_eq!(IbsOpData3(0x0000_0000_fc00_0000).op_dc_miss_open_mem_reqs(), 0x3f);
    assert_eq!(IbsOpData3(0x0000_0000_0400_0000).op_dc_miss_open_mem_reqs(), 1);
    assert_eq!(IbsOpData3(0x0000_0000_0000_1e00).res_lo(), 0xf);
    assert_eq!(IbsOpData3(0x0000_0000_0000_0200).res_lo(), 1);
}

#[test]
fn op_data3_flags_each_have_their_bit() {
    assert!(IbsOpData3(0x0020_0000).sw_pf());
    assert!(IbsOpData3(0x0010_0000).dc_l2_miss());
    assert!(IbsOpData3(0x0008_0000).dc_l2tlb_hit_1g());
    assert!(IbsOpData3(0x0004_0000).dc_phy_addr_valid());
    assert!(IbsOpData3(0x0002_0000).dc_lin_addr_valid());
    assert!(IbsOpData3(0x0001_0000).dc_miss_no_mab_alloc());
    assert!(IbsOpData3(0x0000_8000).dc_locked_op());
    assert!(IbsOpData3(0x0000_4000).dc_uc_mem_acc());
    assert!(IbsOpData3(0x0000_2000).dc_wc_mem_acc());
    assert!(IbsOpData3(0x0000_0100).dc_mis_acc());
    assert!(IbsOpData3(0x0000_0080).dc_miss());
    assert!(IbsOpData3(0x0000_0040).dc_l2tlb_hit_2m());
    assert!(IbsOpData3(0x0000_0020).dc_l1tlb_hit_1g());
    assert!(IbsOpData3(0x0000_0010).dc_l1tlb_hit_2m());
    assert!(IbsOpData3(0x0000_0008).dc_l2tlb_miss());
    assert!(IbsOpData3(0x0000_0004).dc_l1tlb_miss());
    assert!(IbsOpData3(0x0000_0002).st_op());
    assert!(IbsOpData3(0x0000_0001).ld_op());

    let only_load = IbsOpData3(1);
    assert!(!only_load.st_op());
    assert!(!only_load.dc_l1tlb_miss());
    assert!(!only_load.sw_pf());
    assert!(!only_load.dc_locked_op());
    let only_store = IbsOpData3(2);
    assert!(!only_store.ld_op());
    let no_flags = IbsOpData3(0xffff_ffff_ffc0_1e00);
    assert!(!no_flags.sw_pf());
    assert!(!no_flags.dc_l2_miss());
    assert!(!no_flags.dc_miss());
    assert!(!no_flags.ld_op());
    assert!(!no_flags.st_op());
}

#[test]
fn page_map_entry_bits() {
    assert!(PageMapEntry(1 << 63).present());
    assert!(!PageMapEntry(1 << 62).present());
    assert!(PageMapEntry(1 << 62).swapped());
    assert!(PageMapEntry(1 << 56).exclusive());
    assert!(PageMapEntry(1 << 55).soft_dirty());
    assert!(!PageMapEntry(1 << 55).exclusive());
    assert_eq!(PageMapEntry(1 << 55).pfn(), 0);
    assert_eq!(PageMapEntry(u64::MAX).pfn(), (1 << 55) - 1);
    assert_eq!(PageMapEntry(0x8180_0000_0012_3456).pfn(), 0x12_3456);
}
