use intra_codec::BitPacker;

#[test]
fn t_bitpacker_appends_msb_first() {
    let mut p = BitPacker::new();
    assert_eq!(p.bits(), 0);
    assert_eq!(p.len(), 0);
    p.append(0b101, 3);
    p.append(0b01, 2);
    assert_eq!(p.bits(), 0b10101);
    assert_eq!(p.len(), 5);
    p.append(0, 0);
    assert_eq!(p.bits(), 0b10101);
    assert_eq!(p.len(), 5);
    p.append(0xff, 8);
    assert_eq!(p.bits(), 0b10101_11111111);
    assert_eq!(p.len(), 13);
}

#[test]
fn t_bitpacker_fills_register() {
    let mut p = BitPacker::new();
    for _ in 0..16 {
        p.append(0xaa, 8);
    }
    assert_eq!(p.len(), 128);
    assert_eq!(p.bits(), 0xaaaa_aaaa_aaaa_aaaa_aaaa_aaaa_aaaa_aaaa_u128);
}
