use ibst::ibs::{IbsOpCtl, IbsOpData, IbsOpData2, IbsOpData3};
use ibst::sample::{
    decode_records, decode_samples, read_word, wire_len, Sample, SAMPLE_SIZE, SAMPLE_WORDS,
};

fn record(words: [u64; 8]) -> Vec<u8> {
    let mut bytes = Vec::new();
    for w in words {
        bytes.extend_from_slice(&w.to_le_bytes());
    }
    bytes
}

#[test]
fn record_has_eight_words() {
    assert_eq!(SAMPLE_SIZE, 64);
    assert_eq!(SAMPLE_WORDS, 8);
    assert_eq!(SAMPLE_SIZE, SAMPLE_WORDS * 8);
}

#[test]
fn read_word_is_little_endian() {
    let bytes = [0x01u8, 0x02, 0x03, 0x04, 0x05, 0x06, 0x07, 0x08, 0xff, 0, 0, 0, 0, 0, 0, 0x80];
    assert_eq!(read_word(&bytes, 0), 0x0807_0605_0403_0201);
    assert_eq!(read_word(&bytes, 1), 0x8000_0000_0000_00ff);
    assert_eq!(read_word(&[0xffu8; 8], 0), u64::MAX);
    assert_eq!(read_word(&[0u8; 8], 0), 0);
}

#[test]
fn from_bytes_reads_fields_in_order() {
    let bytes = record([0x11, 0x22, 0x33, 0x44, 0x55, 0x66, 0x77, 0x88]);
    let s = Sample::from_bytes(&bytes, 0);
    assert_eq!(s.ctl, IbsOpCtl(0x11));
    assert_eq!(s.rip, 0x22);
    assert_eq!(s.data, IbsOpData(0x33));
    assert_eq!(s.data2, IbsOpData2(0x44));
    assert_eq!(s.data3, IbsOpData3(0x55));
    assert_eq!(s.linad, 0x66);
    assert_eq!(s.phyad, 0x77);
    assert_eq!(s.tgt_rip, 0x88);
}

#[test]
fn from_bytes_reads_the_record_asked_for() {
    let mut bytes = record([1, 2, 3, 4, 5, 6, 7, 8]);
    bytes.extend(record([0xffff_ffff_8100_0000, 0xffff_ffff_c0a0_100f, 0x0012_0034, 3, 0x0100_0001, 0xdead_0000, 0x1_2345_6000, 0]));
    let s = Sample::from_bytes(&bytes, 1);
    assert_eq!(s.rip, 0xffff_ffff_c0a0_100f);
    assert_eq!(s.data.tag_to_ret_ctr(), 0x12);
    assert_eq!(s.data.comp_to_ret_ctr(), 0x34);
    assert!(s.data3.ld_op());
    assert_eq!(s.phyad, 0x1_2345_6000);
    assert_eq!(s.linad, 0xdead_0000);
}

#[test]
fn decode_samples_takes_whole_records_only() {
    assert_eq!(decode_samples(&[]).map(|v| v.len()), Some(0));
    assert!(decode_samples(&[0u8; 63]).is_none());
    assert!(decode_samples(&[0u8; 65]).is_none());
    assert!(decode_samples(&[0u8; 1]).is_none());
    assert_eq!(decode_samples(&[0u8; 64]).map(|v| v.len()), Some(1));
    assert_eq!(decode_samples(&[0u8; 192]).map(|v| v.len()), Some(3));
}

#[test]
fn decode_samples_keeps_order() {
    let mut bytes = Vec::new();
    for k in 0..5u64 {
        bytes.extend(record([k, 0x1000 + k, 0, 0, 0, 0, 0x2000 + k, 0]));
    }
    let v = decode_samples(&bytes).unwrap();
    assert_eq!(v.len(), 5);
    for k in 0..5u64 {
        assert_eq!(v[k as usize].ctl, IbsOpCtl(k));
        assert_eq!(v[k as usize].rip, 0x1000 + k);
        assert_eq!(v[k as usize].phyad, 0x2000 + k);
    }
}

#[test]
fn equality_leaves_the_control_word_out() {
    let a = Sample { ctl: IbsOpCtl(1), rip: 5, ..Default::default() };
    let b = Sample { ctl: IbsOpCtl(2), rip: 5, ..Default::default() };
    assert!(a == b);
    assert!(a != Sample { rip: 6, ..a });
    assert!(a != Sample { data: IbsOpData(1), ..a });
    assert!(a != Sample { data2: IbsOpData2(1), ..a });
    assert!(a != Sample { data3: IbsOpData3(1), ..a });
    assert!(a != Sample { linad: 1, ..a });
    assert!(a != Sample { phyad: 1, ..a });
    assert!(a != Sample { tgt_rip: 1, ..a });
}

#[test]
fn wire_len_is_sixty_four_bytes_a_sample() {
    assert_eq!(wire_len(0), Some(0));
    assert_eq!(wire_len(1), Some(64));
    assert_eq!(wire_len(256), Some(16384));
    assert_eq!(wire_len(usize::MAX / 64), Some(usize::MAX / 64 * 64));
    assert_eq!(wire_len(usize::MAX / 64 + 1), None);
    assert_eq!(wire_len(usize::MAX), None);
}

#[test]
fn decode_records_leaves_a_broken_tail_out() {
    let mut bytes = record([1, 2, 3, 4, 5, 6, 7, 8]);
    bytes.extend(record([9, 10, 11, 12, 13, 14, 15, 16]));
    assert_eq!(decode_records(&bytes).len(), 2);
    assert_eq!(decode_records(&bytes), decode_samples(&bytes).unwrap());
    bytes.extend_from_slice(&[0xff; 63]);
    let v = decode_records(&bytes);
    assert_eq!(v.len(), 2);
    assert_eq!(v[1].rip, 10);
    assert_eq!(v[1].tgt_rip, 16);
    assert!(decode_records(&[0u8; 63]).is_empty());
    assert!(decode_records(&[]).is_empty());
}

fn hash_of(s: &Sample) -> u64 {
    let mut hasher = std::collections::hash_map::DefaultHasher::new();
    std::hash::Hash::hash(s, &mut hasher);
    std::hash::Hasher::finish(&hasher)
}

#[test]
fn hashing_leaves_the_control_word_out() {
    let a = Sample { ctl: IbsOpCtl(1), rip: 5, phyad: 0x1000, ..Default::default() };
    let b = Sample { ctl: IbsOpCtl(2), ..a };
    assert!(a == b);
    assert_eq!(hash_of(&a), hash_of(&b));
    assert_ne!(hash_of(&a), hash_of(&Sample { rip: 6, ..a }));
    assert_ne!(hash_of(&a), hash_of(&Sample { data: IbsOpData(1), ..a }));
    assert_ne!(hash_of(&a), hash_of(&Sample { data2: IbsOpData2(1), ..a }));
    assert_ne!(hash_of(&a), hash_of(&Sample { data3: IbsOpData3(1), ..a }));
    assert_ne!(hash_of(&a), hash_of(&Sample { linad: 1, ..a }));
    assert_ne!(hash_of(&a), hash_of(&Sample { phyad: 1, ..a }));
    assert_ne!(hash_of(&a), hash_of(&Sample { tgt_rip: 1, ..a }));
    let mut set = std::collections::HashSet::new();
    set.insert(a);
    set.insert(b);
    set.insert(Sample { rip: 6, ..a });
    assert_eq!(set.len(), 2);
}
