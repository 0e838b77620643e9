use blevm_prover::{
    AggregateError, AggregationInput, BlevmOutput, aggregate_outputs, aggregate_witness,
    check_chaining, run_aggregator,
};
use sha2::Digest;

fn output(tag: u8, prev_tag: u8, height: u64) -> BlevmOutput {
    BlevmOutput {
        blob_commitment: vec![1u8; 32],
        header_hash: vec![tag; 32],
        prev_header_hash: vec![prev_tag; 32],
        height,
        gas_used: 7,
        beneficiary: vec![2u8; 20],
        state_root: vec![tag ^ 0xff; 32],
        celestia_header_hash: vec![tag ^ 0x0f; 32],
    }
}

#[test]
fn adjacent_pair_aggregation() {
    let out1 = output(0xaa, 0x00, 5);
    let out2 = output(0xbb, 0xaa, 6);
    let agg = aggregate_outputs(&vec![out1, out2]).unwrap();
    assert_eq!(agg.oldest_header_hash, vec![0xaa; 32]);
    assert_eq!(agg.newest_header_hash, vec![0xbb; 32]);
    assert_eq!(
        agg.celestia_header_hashes,
        vec![vec![0xaa ^ 0x0f; 32], vec![0xbb ^ 0x0f; 32]]
    );
    assert_eq!(agg.newest_state_root, vec![0xbb ^ 0xff; 32]);
    assert_eq!(agg.newest_height, 6);
}

#[test]
fn gap_is_rejected() {
    let out1 = output(0xaa, 0x00, 5);
    let out2 = output(0xbb, 0xcc, 6);
    assert!(!check_chaining(&vec![
        output(0xaa, 0x00, 5),
        output(0xbb, 0xcc, 6)
    ]));
    match aggregate_outputs(&vec![out1, out2]) {
        Err(AggregateError::ChainMismatch) => {},
        _ => panic!("a gap must abort aggregation"),
    }
}

#[test]
fn single_output_is_too_small() {
    match aggregate_outputs(&vec![output(0xaa, 0x00, 5)]) {
        Err(AggregateError::AggregationTooSmall) => {},
        _ => panic!("one output must be rejected as too small"),
    }
    match aggregate_outputs(&Vec::new()) {
        Err(AggregateError::AggregationTooSmall) => {},
        _ => panic!("zero outputs must be rejected as too small"),
    }
}

#[test]
fn three_chained_outputs_keep_order() {
    let outs = vec![
        output(0x01, 0x00, 10),
        output(0x02, 0x01, 11),
        output(0x03, 0x02, 12),
    ];
    let agg = aggregate_outputs(&outs).unwrap();
    assert_eq!(agg.celestia_header_hashes.len(), 3);
    assert_eq!(agg.newest_height, 12);
    assert_eq!(agg.oldest_header_hash, vec![0x01; 32]);
    assert_eq!(agg.newest_header_hash, vec![0x03; 32]);
}

#[test]
fn aggregator_program_digests_and_output() {
    let pv1 = output(0xaa, 0x00, 5).encode();
    let pv2 = output(0xbb, 0xaa, 6).encode();
    let vks = vec![vec![9u8; 32], vec![8u8; 32]];
    let (agg, digests) = run_aggregator(&vks, &vec![pv1.clone(), pv2.clone()]).unwrap();
    assert_eq!(agg.newest_height, 6);
    assert_eq!(digests.len(), 2);
    let expected: [u8; 32] = sha2::Sha256::digest(&pv1).into();
    assert_eq!(digests[0], expected.to_vec());
    assert_ne!(digests[0], pv1);
    let expected2: [u8; 32] = sha2::Sha256::digest(&pv2).into();
    assert_eq!(digests[1], expected2.to_vec());
}

#[test]
fn aggregator_program_rejects_gap_and_mismatch() {
    let pv1 = output(0xaa, 0x00, 5).encode();
    let pv2 = output(0xbb, 0xcc, 6).encode();
    let vks = vec![vec![9u8; 32], vec![8u8; 32]];
    assert!(matches!(
        run_aggregator(&vks, &vec![pv1.clone(), pv2]),
        Err(AggregateError::ChainMismatch)
    ));
    assert!(matches!(
        run_aggregator(&vec![vec![9u8; 32]], &vec![pv1.clone(), pv1.clone()]),
        Err(AggregateError::InputMismatch)
    ));
    assert!(matches!(
        run_aggregator(&vec![vec![9u8; 32]], &vec![pv1.clone()]),
        Err(AggregateError::AggregationTooSmall)
    ));
    // a truncated public-value blob is malformed
    let vks2 = vec![vec![9u8; 32], vec![8u8; 32]];
    assert!(matches!(
        run_aggregator(&vks2, &vec![pv1, vec![0u8; 5]]),
        Err(AggregateError::MalformedOutput)
    ));
}

#[test]
fn witness_framing_layout() {
    let mk = |pv: Vec<u8>, proof: Vec<u8>, vk_byte: u8| AggregationInput {
        proof,
        vk: vec![0u8; 4],
        vk_hash: vec![vk_byte; 32],
        public_values: pv,
    };
    let inputs = vec![
        mk(vec![1, 2, 3], vec![7, 7], 0xaa),
        mk(vec![4, 5], vec![8, 8, 8], 0xbb),
    ];
    let w = aggregate_witness(&inputs).unwrap();
    let mut expected: Vec<u8> = Vec::new();
    expected.extend_from_slice(&2u64.to_le_bytes());
    expected.extend_from_slice(&[0xaa; 32]);
    expected.extend_from_slice(&[0xbb; 32]);
    expected.extend_from_slice(&3u64.to_le_bytes());
    expected.extend_from_slice(&[1, 2, 3]);
    expected.extend_from_slice(&2u64.to_le_bytes());
    expected.extend_from_slice(&[4, 5]);
    expected.extend_from_slice(&2u64.to_le_bytes());
    expected.extend_from_slice(&[7, 7]);
    expected.extend_from_slice(&3u64.to_le_bytes());
    expected.extend_from_slice(&[8, 8, 8]);
    assert_eq!(w, expected);
}

#[test]
fn witness_framing_needs_two_inputs() {
    let one = AggregationInput {
        proof: vec![1],
        vk: vec![2],
        vk_hash: vec![3u8; 32],
        public_values: vec![4],
    };
    match aggregate_witness(&vec![one]) {
        Err(AggregateError::AggregationTooSmall) => {},
        _ => panic!("one inner proof must be rejected as too small"),
    }
}
