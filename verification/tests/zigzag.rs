use intra_codec::zigzag_inverse_table;
use intra_codec::zigzag_table;

#[test]
fn t_zigzag_round_trip() {
    let zz = zigzag_table();
    let inv = zigzag_inverse_table();
    for k in 0..64 {
        assert!(zz[k] < 64);
        assert!(inv[k] < 64);
        assert_eq!(inv[zz[k]], k, "inverse after forward at {}", k);
        assert_eq!(zz[inv[k]], k, "forward after inverse at {}", k);
    }
}

#[test]
fn t_zigzag_known_entries() {
    let zz = zigzag_table();
    assert_eq!(zz[0], 0);
    assert_eq!(zz[1], 1);
    assert_eq!(zz[2], 8);
    assert_eq!(zz[3], 16);
    assert_eq!(zz[7], 10);
    assert_eq!(zz[63], 63);
}
