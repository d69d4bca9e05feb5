//! Register layouts of AMD instruction-based sampling (IBS) for micro-ops.
//!
//! Each register is a 64-bit word; the types here are read-only views that
//! name its bits and fields. See "PPR for AMD Family 17h Model 71h B0".

use vstd::prelude::*;
use crate::bits::{bit, extract, field, test_bit};

verus! {
/// MSRC001_1033 [IBS Execution Control] (Core::X86::Msr::IBS_OP_CTL)
#[derive(Clone, Copy, Debug, Default, PartialEq, Eq, Structural, PartialOrd, Ord, Hash)]
pub struct IbsOpCtl(pub u64);

impl IbsOpCtl {
    /// Current value of the periodic op counter (bits 58:32).
    pub open spec fn spec_cur_cnt(&self) -> nat {
        field(self.0, 32, 27)
    }

    /// Current value of the periodic op counter (bits 58:32).
    pub fn cur_cnt(&self) -> (r: u64)
        ensures
            r == field(self.0, 32, 27),
    {
        extract(self.0, 32, 27)
    }
}

/// MSRC001_1035 [IBS Op Data] (Core::X86::Msr::IBS_OP_DATA)
#[derive(Clone, Copy, Debug, Default, PartialEq, Eq, Structural, PartialOrd, Ord, Hash)]
pub struct IbsOpData(pub u64);

impl IbsOpData {
    /// Reserved high bits (bits 63:41).
    pub open spec fn spec_res_hi(&self) -> nat {
        field(self.0, 41, 23)
    }

    /// Reserved high bits (bits 63:41).
    pub fn res_hi(&self) -> (r: u64)
        ensures
            r == field(self.0, 41, 23),
    {
        extract(self.0, 41, 23)
    }

    /// Reserved low bits (bits 33:32).
    pub open spec fn spec_res_lo(&self) -> nat {
        field(self.0, 32, 2)
    }

    /// Reserved low bits (bits 33:32).
    pub fn res_lo(&self) -> (r: u64)
        ensures
            r == field(self.0, 32, 2),
    {
        extract(self.0, 32, 2)
    }

    /// Reserved (bit 33).
    pub open spec fn spec_res_33(&self) -> bool {
        bit(self.0, 33)
    }

    /// Reserved (bit 33).
    #[verifier::when_used_as_spec(spec_res_33)]
    pub fn res_33(&self) -> (r: bool)
        ensures
            r == bit(self.0, 33),
    {
        test_bit(self.0, 33)
    }

    /// Reserved (bit 32).
    pub open spec fn spec_res_32(&self) -> bool {
        bit(self.0, 32)
    }

    /// Reserved (bit 32).
    #[verifier::when_used_as_spec(spec_res_32)]
    pub fn res_32(&self) -> (r: bool)
        ensures
            r == bit(self.0, 32),
    {
        test_bit(self.0, 32)
    }

    /// The op came from the microcode sequencer (bit 40).
    pub open spec fn spec_op_microcode(&self) -> bool {
        bit(self.0, 40)
    }

    /// The op came from the microcode sequencer (bit 40).
    #[verifier::when_used_as_spec(spec_op_microcode)]
    pub fn op_microcode(&self) -> (r: bool)
        ensures
            r == bit(self.0, 40),
    {
        test_bit(self.0, 40)
    }

    /// The op was a fused branch (bit 39).
    pub open spec fn spec_op_brn_fuse(&self) -> bool {
        bit(self.0, 39)
    }

    /// The op was a fused branch (bit 39).
    #[verifier::when_used_as_spec(spec_op_brn_fuse)]
    pub fn op_brn_fuse(&self) -> (r: bool)
        ensures
            r == bit(self.0, 39),
    {
        test_bit(self.0, 39)
    }

    /// The sampled program counter is not valid (bit 38).
    pub open spec fn spec_rip_invalid(&self) -> bool {
        bit(self.0, 38)
    }

    /// The sampled program counter is not valid (bit 38).
    #[verifier::when_used_as_spec(spec_rip_invalid)]
    pub fn rip_invalid(&self) -> (r: bool)
        ensures
            r == bit(self.0, 38),
    {
        test_bit(self.0, 38)
    }

    /// The op was a branch that retired (bit 37).
    pub open spec fn spec_op_brn_ret(&self) -> bool {
        bit(self.0, 37)
    }

    /// The op was a branch that retired (bit 37).
    #[verifier::when_used_as_spec(spec_op_brn_ret)]
    pub fn op_brn_ret(&self) -> (r: bool)
        ensures
            r == bit(self.0, 37),
    {
        test_bit(self.0, 37)
    }

    /// The op was a mispredicted branch (bit 36).
    pub open spec fn spec_op_brn_misp(&self) -> bool {
        bit(self.0, 36)
    }

    /// The op was a mispredicted branch (bit 36).
    #[verifier::when_used_as_spec(spec_op_brn_misp)]
    pub fn op_brn_misp(&self) -> (r: bool)
        ensures
            r == bit(self.0, 36),
    {
        test_bit(self.0, 36)
    }

    /// The op was a taken branch (bit 35).
    pub open spec fn spec_op_brn_taken(&self) -> bool {
        bit(self.0, 35)
    }

    /// The op was a taken branch (bit 35).
    #[verifier::when_used_as_spec(spec_op_brn_taken)]
    pub fn op_brn_taken(&self) -> (r: bool)
        ensures
            r == bit(self.0, 35),
    {
        test_bit(self.0, 35)
    }

    /// The op was a return (bit 34).
    pub open spec fn spec_op_return(&self) -> bool {
        bit(self.0, 34)
    }

    /// The op was a return (bit 34).
    #[verifier::when_used_as_spec(spec_op_return)]
    pub fn op_return(&self) -> (r: bool)
        ensures
            r == bit(self.0, 34),
    {
        test_bit(self.0, 34)
    }

    /// Cycles from tagging the op to its retirement (bits 31:16).
    pub open spec fn spec_tag_to_ret_ctr(&self) -> nat {
        field(self.0, 16, 16)
    }

    /// Cycles from tagging the op to its retirement (bits 31:16).
    pub fn tag_to_ret_ctr(&self) -> (r: u64)
        ensures
            r == field(self.0, 16, 16),
    {
        extract(self.0, 16, 16)
    }

    /// Cycles from completion of the op to its retirement (bits 15:0).
    pub open spec fn spec_comp_to_ret_ctr(&self) -> nat {
        field(self.0, 0, 16)
    }

    /// Cycles from completion of the op to its retirement (bits 15:0).
    pub fn comp_to_ret_ctr(&self) -> (r: u64)
        ensures
            r == field(self.0, 0, 16),
    {
        extract(self.0, 0, 16)
    }
}

/// Northbridge data source of a sampled load (IBS_OP_DATA2, bits 2:0).
#[derive(Clone, Copy, Debug, PartialEq, Eq, Structural, Hash)]
pub enum NbDataSrc {
    Invalid,
    Reserved1,
    Cache,
    Dram,
    Reserved4,
    Reserved5,
    Reserved6,
    Other,
}

impl NbDataSrc {
    /// The data source that the three-bit code `x` stands for.
    pub open spec fn of_code(x: nat) -> NbDataSrc {
        if x == 0 {
            NbDataSrc::Invalid
        } else if x == 1 {
            NbDataSrc::Reserved1
        } else if x == 2 {
            NbDataSrc::Cache
        } else if x == 3 {
            NbDataSrc::Dram
        } else if x == 4 {
            NbDataSrc::Reserved4
        } else if x == 5 {
            NbDataSrc::Reserved5
        } else if x == 6 {
            NbDataSrc::Reserved6
        } else {
            NbDataSrc::Other
        }
    }

    /// The three-bit code of this data source.
    pub open spec fn code(self) -> nat {
        match self {
            NbDataSrc::Invalid => 0,
            NbDataSrc::Reserved1 => 1,
            NbDataSrc::Cache => 2,
            NbDataSrc::Dram => 3,
            NbDataSrc::Reserved4 => 4,
            NbDataSrc::Reserved5 => 5,
            NbDataSrc::Reserved6 => 6,
            NbDataSrc::Other => 7,
        }
    }

    /// The name of the data source.
    pub open spec fn name_text(self) -> Seq<char> {
        match self {
            NbDataSrc::Invalid => "Invalid"@,
            NbDataSrc::Reserved1 => "Reserved1"@,
            NbDataSrc::Cache => "Cache"@,
            NbDataSrc::Dram => "Dram"@,
            NbDataSrc::Reserved4 => "Reserved4"@,
            NbDataSrc::Reserved5 => "Reserved5"@,
            NbDataSrc::Reserved6 => "Reserved6"@,
            NbDataSrc::Other => "Other"@,
        }
    }

    /// The name of the data source.
    pub fn name(self) -> (r: &'static str)
        ensures
            r@ == self.name_text(),
    {
        match self {
            NbDataSrc::Invalid => "Invalid",
            NbDataSrc::Reserved1 => "Reserved1",
            NbDataSrc::Cache => "Cache",
            NbDataSrc::Dram => "Dram",
            NbDataSrc::Reserved4 => "Reserved4",
            NbDataSrc::Reserved5 => "Reserved5",
            NbDataSrc::Reserved6 => "Reserved6",
            NbDataSrc::Other => "Other",
        }
    }

    /// Decodes a data-source code. Codes above 7, which three bits cannot
    /// hold, stand for `Other`.
    pub fn from_code(x: u64) -> (r: NbDataSrc)
        ensures
            r == NbDataSrc::of_code(x as nat),
            x <= 7 ==> r.code() == x,
    {
        match x {
            0 => NbDataSrc::Invalid,
            1 => NbDataSrc::Reserved1,
            2 => NbDataSrc::Cache,
            3 => NbDataSrc::Dram,
            4 => NbDataSrc::Reserved4,
            5 => NbDataSrc::Reserved5,
            6 => NbDataSrc::Reserved6,
            _ => NbDataSrc::Other,
        }
    }
}

/// MSRC001_1036 [IBS Op Data 2] (Core::X86::Msr::IBS_OP_DATA2)
#[derive(Clone, Copy, Debug, Default, PartialEq, Eq, Structural, PartialOrd, Ord, Hash)]
pub struct IbsOpData2(pub u64);

impl IbsOpData2 {
    /// Cache hit state of the line that supplied the data (bit 5).
    pub open spec fn spec_cache_hit_st(&self) -> bool {
        bit(self.0, 5)
    }

    /// Cache hit state of the line that supplied the data (bit 5).
    #[verifier::when_used_as_spec(spec_cache_hit_st)]
    pub fn cache_hit_st(&self) -> (r: bool)
        ensures
            r == bit(self.0, 5),
    {
        test_bit(self.0, 5)
    }

    /// The data came from a remote node (bit 4).
    pub open spec fn spec_rmt_node(&self) -> bool {
        bit(self.0, 4)
    }

    /// The data came from a remote node (bit 4).
    #[verifier::when_used_as_spec(spec_rmt_node)]
    pub fn rmt_node(&self) -> (r: bool)
        ensures
            r == bit(self.0, 4),
    {
        test_bit(self.0, 4)
    }

    /// Northbridge data source (bits 2:0).
    pub open spec fn spec_data_src(&self) -> NbDataSrc {
        NbDataSrc::of_code(field(self.0, 0, 3))
    }

    /// Northbridge data source (bits 2:0).
    #[verifier::when_used_as_spec(spec_data_src)]
    pub fn data_src(&self) -> (r: NbDataSrc)
        ensures
            r == NbDataSrc::of_code(field(self.0, 0, 3)),
    {
        NbDataSrc::from_code(extract(self.0, 0, 3))
    }
}

/// Width of a sampled load or store (IBS_OP_DATA3, bits 25:22).
#[derive(Clone, Copy, Debug, PartialEq, Eq, Structural, Hash)]
pub enum IbsMemWidth {
    NoWidth,
    Byte,
    Word,
    Dword,
    Qword,
    Oword,
    Yword,
}

impl IbsMemWidth {
    /// The largest width code that the hardware defines.
    pub const MAX_CODE: u64 = 6;

    /// The width that the code `x` stands for; codes above `MAX_CODE` stand
    /// for no width.
    pub open spec fn of_code(x: nat) -> IbsMemWidth {
        if x == 1 {
            IbsMemWidth::Byte
        } else if x == 2 {
            IbsMemWidth::Word
        } else if x == 3 {
            IbsMemWidth::Dword
        } else if x == 4 {
            IbsMemWidth::Qword
        } else if x == 5 {
            IbsMemWidth::Oword
        } else if x == 6 {
            IbsMemWidth::Yword
        } else {
            IbsMemWidth::NoWidth
        }
    }

    /// The number of bytes accessed.
    pub open spec fn spec_bytes(self) -> nat {
        match self {
            IbsMemWidth::NoWidth => 0,
            IbsMemWidth::Byte => 1,
            IbsMemWidth::Word => 2,
            IbsMemWidth::Dword => 4,
            IbsMemWidth::Qword => 8,
            IbsMemWidth::Oword => 16,
            IbsMemWidth::Yword => 32,
        }
    }

    /// The number of bits accessed: eight for each byte.
    pub open spec fn spec_bits(self) -> nat {
        8 * self.spec_bytes()
    }

    /// The name of the width.
    pub open spec fn name_text(self) -> Seq<char> {
        match self {
            IbsMemWidth::NoWidth => "None"@,
            IbsMemWidth::Byte => "Byte"@,
            IbsMemWidth::Word => "Word"@,
            IbsMemWidth::Dword => "Dword"@,
            IbsMemWidth::Qword => "Qword"@,
            IbsMemWidth::Oword => "Oword"@,
            IbsMemWidth::Yword => "Yword"@,
        }
    }

    /// The name of the width.
    pub fn name(self) -> (r: &'static str)
        ensures
            r@ == self.name_text(),
    {
        match self {
            IbsMemWidth::NoWidth => "None",
            IbsMemWidth::Byte => "Byte",
            IbsMemWidth::Word => "Word",
            IbsMemWidth::Dword => "Dword",
            IbsMemWidth::Qword => "Qword",
            IbsMemWidth::Oword => "Oword",
            IbsMemWidth::Yword => "Yword",
        }
    }

    /// Decodes a width code. A code above `MAX_CODE`, which the hardware
    /// does not define, stands for no width.
    pub fn from_code(x: u64) -> (r: IbsMemWidth)
        ensures
            r == IbsMemWidth::of_code(x as nat),
    {
        match x {
            1 => IbsMemWidth::Byte,
            2 => IbsMemWidth::Word,
            3 => IbsMemWidth::Dword,
            4 => IbsMemWidth::Qword,
            5 => IbsMemWidth::Oword,
            6 => IbsMemWidth::Yword,
            _ => IbsMemWidth::NoWidth,
        }
    }

    /// The number of bytes accessed.
    pub fn bytes(self) -> (r: usize)
        ensures
            r == self.spec_bytes(),
    {
        match self {
            IbsMemWidth::NoWidth => 0,
            IbsMemWidth::Byte => 1,
            IbsMemWidth::Word => 2,
            IbsMemWidth::Dword => 4,
            IbsMemWidth::Qword => 8,
            IbsMemWidth::Oword => 16,
            IbsMemWidth::Yword => 32,
        }
    }

    /// The number of bits accessed.
    pub fn bits(self) -> (r: usize)
        ensures
            r == self.spec_bits(),
    {
        match self {
            IbsMemWidth::NoWidth => 0,
            IbsMemWidth::Byte => 8,
            IbsMemWidth::Word => 16,
            IbsMemWidth::Dword => 32,
            IbsMemWidth::Qword => 64,
            IbsMemWidth::Oword => 128,
            IbsMemWidth::Yword => 256,
        }
    }
}

/// MSRC001_1037 [IBS Op Data 3] (Core::X86::Msr::IBS_OP_DATA3)
#[derive(Clone, Copy, Debug, Default, PartialEq, Eq, Structural, PartialOrd, Ord, Hash)]
pub struct IbsOpData3(pub u64);

impl IbsOpData3 {
    /// Reserved (bits 12:9).
    pub open spec fn spec_res_lo(&self) -> nat {
        field(self.0, 9, 4)
    }

    /// Reserved (bits 12:9).
    pub fn res_lo(&self) -> (r: u64)
        ensures
            r == field(self.0, 9, 4),
    {
        extract(self.0, 9, 4)
    }

    /// Cycles that the L1 TLB refill took (bits 63:48).
    pub open spec fn spec_tlb_refill_lat(&self) -> nat {
        field(self.0, 48, 16)
    }

    /// Cycles that the L1 TLB refill took (bits 63:48).
    pub fn tlb_refill_lat(&self) -> (r: u64)
        ensures
            r == field(self.0, 48, 16),
    {
        extract(self.0, 48, 16)
    }

    /// Cycles from the data cache miss to the arrival of the data (bits 47:32).
    pub open spec fn spec_dc_miss_lat(&self) -> nat {
        field(self.0, 32, 16)
    }

    /// Cycles from the data cache miss to the arrival of the data (bits 47:32).
    pub fn dc_miss_lat(&self) -> (r: u64)
        ensures
            r == field(self.0, 32, 16),
    {
        extract(self.0, 32, 16)
    }

    /// Outstanding memory requests when the miss was allocated (bits 31:26).
    pub open spec fn spec_op_dc_miss_open_mem_reqs(&self) -> nat {
        field(self.0, 26, 6)
    }

    /// Outstanding memory requests when the miss was allocated (bits 31:26).
    pub fn op_dc_miss_open_mem_reqs(&self) -> (r: u64)
        ensures
            r == field(self.0, 26, 6),
    {
        extract(self.0, 26, 6)
    }

    /// Code of the access width (bits 25:22).
    pub open spec fn spec_mem_width_code(&self) -> nat {
        field(self.0, 22, 4)
    }

    /// Code of the access width (bits 25:22).
    pub fn mem_width_code(&self) -> (r: u64)
        ensures
            r == field(self.0, 22, 4),
    {
        extract(self.0, 22, 4)
    }

    /// Whether the width code is one that the hardware defines.
    pub open spec fn spec_mem_width_valid(&self) -> bool {
        field(self.0, 22, 4) <= IbsMemWidth::MAX_CODE
    }

    /// Whether the width code is one that the hardware defines.
    #[verifier::when_used_as_spec(spec_mem_width_valid)]
    pub fn mem_width_valid(&self) -> (r: bool)
        ensures
            r == self.spec_mem_width_valid(),
    {
        self.mem_width_code() <= IbsMemWidth::MAX_CODE
    }

    /// Width of the access (bits 25:22).
    pub open spec fn spec_op_mem_width(&self) -> IbsMemWidth {
        IbsMemWidth::of_code(field(self.0, 22, 4))
    }

    /// Width of the access (bits 25:22); no width where the code is not a
    /// defined one.
    #[verifier::when_used_as_spec(spec_op_mem_width)]
    pub fn op_mem_width(&self) -> (r: IbsMemWidth)
        ensures
            r == IbsMemWidth::of_code(field(self.0, 22, 4)),
    {
        IbsMemWidth::from_code(self.mem_width_code())
    }

    /// The op was a software prefetch (bit 21).
    pub open spec fn spec_sw_pf(&self) -> bool {
        bit(self.0, 21)
    }

    /// The op was a software prefetch (bit 21).
    #[verifier::when_used_as_spec(spec_sw_pf)]
    pub fn sw_pf(&self) -> (r: bool)
        ensures
            r == bit(self.0, 21),
    {
        test_bit(self.0, 21)
    }

    /// The access missed in the L2 cache (bit 20).
    pub open spec fn spec_dc_l2_miss(&self) -> bool {
        bit(self.0, 20)
    }

    /// The access missed in the L2 cache (bit 20).
    #[verifier::when_used_as_spec(spec_dc_l2_miss)]
    pub fn dc_l2_miss(&self) -> (r: bool)
        ensures
            r == bit(self.0, 20),
    {
        test_bit(self.0, 20)
    }

    /// The access hit a 1 GiB page in the L2 TLB (bit 19).
    pub open spec fn spec_dc_l2tlb_hit_1g(&self) -> bool {
        bit(self.0, 19)
    }

    /// The access hit a 1 GiB page in the L2 TLB (bit 19).
    #[verifier::when_used_as_spec(spec_dc_l2tlb_hit_1g)]
    pub fn dc_l2tlb_hit_1g(&self) -> (r: bool)
        ensures
            r == bit(self.0, 19),
    {
        test_bit(self.0, 19)
    }

    /// The physical address of the access is valid (bit 18).
    pub open spec fn spec_dc_phy_addr_valid(&self) -> bool {
        bit(self.0, 18)
    }

    /// The physical address of the access is valid (bit 18).
    #[verifier::when_used_as_spec(spec_dc_phy_addr_valid)]
    pub fn dc_phy_addr_valid(&self) -> (r: bool)
        ensures
            r == bit(self.0, 18),
    {
        test_bit(self.0, 18)
    }

    /// The linear address of the access is valid (bit 17).
    pub open spec fn spec_dc_lin_addr_valid(&self) -> bool {
        bit(self.0, 17)
    }

    /// The linear address of the access is valid (bit 17).
    #[verifier::when_used_as_spec(spec_dc_lin_addr_valid)]
    pub fn dc_lin_addr_valid(&self) -> (r: bool)
        ensures
            r == bit(self.0, 17),
    {
        test_bit(self.0, 17)
    }

    /// The miss did not allocate a miss address buffer (bit 16).
    pub open spec fn spec_dc_miss_no_mab_alloc(&self) -> bool {
        bit(self.0, 16)
    }

    /// The miss did not allocate a miss address buffer (bit 16).
    #[verifier::when_used_as_spec(spec_dc_miss_no_mab_alloc)]
    pub fn dc_miss_no_mab_alloc(&self) -> (r: bool)
        ensures
            r == bit(self.0, 16),
    {
        test_bit(self.0, 16)
    }

    /// The op was a locked operation (bit 15).
    pub open spec fn spec_dc_locked_op(&self) -> bool {
        bit(self.0, 15)
    }

    /// The op was a locked operation (bit 15).
    #[verifier::when_used_as_spec(spec_dc_locked_op)]
    pub fn dc_locked_op(&self) -> (r: bool)
        ensures
            r == bit(self.0, 15),
    {
        test_bit(self.0, 15)
    }

    /// The access went to uncacheable memory (bit 14).
    pub open spec fn spec_dc_uc_mem_acc(&self) -> bool {
        bit(self.0, 14)
    }

    /// The access went to uncacheable memory (bit 14).
    #[verifier::when_used_as_spec(spec_dc_uc_mem_acc)]
    pub fn dc_uc_mem_acc(&self) -> (r: bool)
        ensures
            r == bit(self.0, 14),
    {
        test_bit(self.0, 14)
    }

    /// The access went to write-combining memory (bit 13).
    pub open spec fn spec_dc_wc_mem_acc(&self) -> bool {
        bit(self.0, 13)
    }

    /// The access went to write-combining memory (bit 13).
    #[verifier::when_used_as_spec(spec_dc_wc_mem_acc)]
    pub fn dc_wc_mem_acc(&self) -> (r: bool)
        ensures
            r == bit(self.0, 13),
    {
        test_bit(self.0, 13)
    }

    /// The access was misaligned (bit 8).
    pub open spec fn spec_dc_mis_acc(&self) -> bool {
        bit(self.0, 8)
    }

    /// The access was misaligned (bit 8).
    #[verifier::when_used_as_spec(spec_dc_mis_acc)]
    pub fn dc_mis_acc(&self) -> (r: bool)
        ensures
            r == bit(self.0, 8),
    {
        test_bit(self.0, 8)
    }

    /// The access missed in the data cache (bit 7).
    pub open spec fn spec_dc_miss(&self) -> bool {
        bit(self.0, 7)
    }

    /// The access missed in the data cache (bit 7).
    #[verifier::when_used_as_spec(spec_dc_miss)]
    pub fn dc_miss(&self) -> (r: bool)
        ensures
            r == bit(self.0, 7),
    {
        test_bit(self.0, 7)
    }

    /// The access hit a 2 MiB page in the L2 TLB (bit 6).
    pub open spec fn spec_dc_l2tlb_hit_2m(&self) -> bool {
        bit(self.0, 6)
    }

    /// The access hit a 2 MiB page in the L2 TLB (bit 6).
    #[verifier::when_used_as_spec(spec_dc_l2tlb_hit_2m)]
    pub fn dc_l2tlb_hit_2m(&self) -> (r: bool)
        ensures
            r == bit(self.0, 6),
    {
        test_bit(self.0, 6)
    }

    /// The access hit a 1 GiB page in the L1 TLB (bit 5).
    pub open spec fn spec_dc_l1tlb_hit_1g(&self) -> bool {
        bit(self.0, 5)
    }

    /// The access hit a 1 GiB page in the L1 TLB (bit 5).
    #[verifier::when_used_as_spec(spec_dc_l1tlb_hit_1g)]
    pub fn dc_l1tlb_hit_1g(&self) -> (r: bool)
        ensures
            r == bit(self.0, 5),
    {
        test_bit(self.0, 5)
    }

    /// The access hit a 2 MiB page in the L1 TLB (bit 4).
    pub open spec fn spec_dc_l1tlb_hit_2m(&self) -> bool {
        bit(self.0, 4)
    }

    /// The access hit a 2 MiB page in the L1 TLB (bit 4).
    #[verifier::when_used_as_spec(spec_dc_l1tlb_hit_2m)]
    pub fn dc_l1tlb_hit_2m(&self) -> (r: bool)
        ensures
            r == bit(self.0, 4),
    {
        test_bit(self.0, 4)
    }

    /// The access missed in the L2 TLB (bit 3).
    pub open spec fn spec_dc_l2tlb_miss(&self) -> bool {
        bit(self.0, 3)
    }

    /// The access missed in the L2 TLB (bit 3).
    #[verifier::when_used_as_spec(spec_dc_l2tlb_miss)]
    pub fn dc_l2tlb_miss(&self) -> (r: bool)
        ensures
            r == bit(self.0, 3),
    {
        test_bit(self.0, 3)
    }

    /// The access missed in the L1 TLB (bit 2).
    pub open spec fn spec_dc_l1tlb_miss(&self) -> bool {
        bit(self.0, 2)
    }

    /// The access missed in the L1 TLB (bit 2).
    #[verifier::when_used_as_spec(spec_dc_l1tlb_miss)]
    pub fn dc_l1tlb_miss(&self) -> (r: bool)
        ensures
            r == bit(self.0, 2),
    {
        test_bit(self.0, 2)
    }

    /// The op was a store (bit 1).
    pub open spec fn spec_st_op(&self) -> bool {
        bit(self.0, 1)
    }

    /// The op was a store (bit 1).
    #[verifier::when_used_as_spec(spec_st_op)]
    pub fn st_op(&self) -> (r: bool)
        ensures
            r == bit(self.0, 1),
    {
        test_bit(self.0, 1)
    }

    /// The op was a load (bit 0).
    pub open spec fn spec_ld_op(&self) -> bool {
        bit(self.0, 0)
    }

    /// The op was a load (bit 0).
    #[verifier::when_used_as_spec(spec_ld_op)]
    pub fn ld_op(&self) -> (r: bool)
        ensures
            r == bit(self.0, 0),
    {
        test_bit(self.0, 0)
    }
}
} // verus!
