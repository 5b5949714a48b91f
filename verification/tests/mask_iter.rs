use inputplug::mask_iter::IterableMask;

#[test]
fn basic() {
    let mut m = IterableMask::from_u32(0x123ce);
    assert_eq!(
        m.collect_remaining(),
        vec![0x10000, 0x2000, 0x200, 0x100, 0x80, 0x40, 8, 4, 2]
    );
    let mut m = IterableMask::from_u16(0x23c5);
    assert_eq!(
        m.collect_remaining(),
        vec![0x2000, 0x200, 0x100, 0x80, 0x40, 4, 1]
    );
    let mut m = IterableMask::from_u8(0xce);
    assert_eq!(m.collect_remaining(), vec![0x80, 0x40, 8, 4, 2]);
    let mut m = IterableMask::from_u8(0);
    assert_eq!(m.collect_remaining(), Vec::<u32>::new());
}

#[test]
fn next_yields_highest_bit_first_then_exhausts() {
    let mut m = IterableMask::from_u8(0x81);
    assert_eq!(m.next(), Some(0x80));
    assert_eq!(m.next(), Some(1));
    assert_eq!(m.next(), None);
    assert_eq!(m.next(), None);
}

#[test]
fn reconstructs_value_and_counts_bits() {
    for v in [0u32, 1, 2, 0x8000_0001, 0xdead_beef, 0xffff_ffff] {
        let mut m = IterableMask::from_u32(v);
        let parts = m.collect_remaining();
        assert_eq!(parts.iter().fold(0u32, |a, b| a | b), v);
        assert_eq!(parts.len() as u32, v.count_ones());
        for p in &parts {
            assert!(p.is_power_of_two());
            assert_eq!(p & v, *p);
        }
        for w in parts.windows(2) {
            assert!(w[0] > w[1]);
        }
    }
}

#[test]
fn narrow_widths_scan_only_their_bits() {
    let mut m = IterableMask::from_u16(0xffff);
    assert_eq!(m.collect_remaining().len(), 16);
    let mut m = IterableMask::from_u8(0xff);
    assert_eq!(m.collect_remaining().len(), 8);
}
