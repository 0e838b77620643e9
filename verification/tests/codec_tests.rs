use blevm_prover::{
    BlevmAggOutput, bytes_eq, hex_decode, hex_encode, key_hex, u64_from_le_bytes, u64_to_le_bytes,
};

#[test]
fn u64_little_endian_round_trip() {
    let mut buf: Vec<u8> = Vec::new();
    u64_to_le_bytes(&mut buf, 0x1122334455667788);
    assert_eq!(buf, 0x1122334455667788u64.to_le_bytes().to_vec());
    assert_eq!(u64_from_le_bytes(&buf, 0), 0x1122334455667788);
    let mut buf2: Vec<u8> = vec![0xff];
    u64_to_le_bytes(&mut buf2, u64::MAX);
    assert_eq!(u64_from_le_bytes(&buf2, 1), u64::MAX);
}

#[test]
fn byte_equality_is_by_contents() {
    assert!(bytes_eq(&vec![1, 2, 3], &vec![1, 2, 3]));
    assert!(!bytes_eq(&vec![1, 2, 3], &vec![1, 2, 4]));
    assert!(!bytes_eq(&vec![1, 2], &vec![1, 2, 3]));
    assert!(bytes_eq(&Vec::new(), &Vec::new()));
}

#[test]
fn hex_coding_both_cases() {
    assert_eq!(hex_encode(&vec![0xab, 0x01, 0xff]), "ab01ff");
    assert_eq!(hex_decode(&"ab01ff".to_string()).unwrap(), vec![0xab, 0x01, 0xff]);
    assert_eq!(hex_decode(&"AB01FF".to_string()).unwrap(), vec![0xab, 0x01, 0xff]);
    assert!(hex_decode(&"abc".to_string()).is_none());
    assert!(hex_decode(&"zz".to_string()).is_none());
    assert_eq!(hex_decode(&String::new()).unwrap(), Vec::<u8>::new());
    // encoding must change the bytes' representation, not echo them
    assert_ne!(hex_encode(&vec![0x30, 0x31]), "01");
    assert_eq!(key_hex(&vec![0xde, 0xad]), "0xdead");
}

#[test]
fn aggregate_output_layout() {
    let agg = BlevmAggOutput {
        newest_header_hash: vec![1u8; 32],
        oldest_header_hash: vec![2u8; 32],
        celestia_header_hashes: vec![vec![3u8; 32], vec![4u8; 32]],
        newest_state_root: vec![5u8; 32],
        newest_height: 77,
    };
    let bytes = agg.encode();
    let mut expected: Vec<u8> = Vec::new();
    expected.extend_from_slice(&[1u8; 32]);
    expected.extend_from_slice(&[2u8; 32]);
    expected.extend_from_slice(&2u64.to_le_bytes());
    expected.extend_from_slice(&[3u8; 32]);
    expected.extend_from_slice(&[4u8; 32]);
    expected.extend_from_slice(&[5u8; 32]);
    expected.extend_from_slice(&77u64.to_le_bytes());
    assert_eq!(bytes, expected);
}
