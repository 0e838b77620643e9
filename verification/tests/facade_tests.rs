use blevm_prover::{
    FacadeError, KVPair, MembershipOutput, ProverMode, height_range, info_response, key_hex,
    membership, membership_paths, parse_beneficiary, plan_heights, prover_mode, verify_proof,
};

#[test]
fn height_range_rejects_already_current() {
    assert!(matches!(height_range(10, 10), Err(FacadeError::AlreadyCurrent)));
    assert!(matches!(height_range(9, 10), Err(FacadeError::AlreadyCurrent)));
    assert_eq!(height_range(12, 10).unwrap(), (11, 12));
}

#[test]
fn planned_heights_ascend() {
    assert_eq!(plan_heights(3, 5), vec![3, 4, 5]);
    assert_eq!(plan_heights(7, 7), vec![7]);
}

#[test]
fn key_hex_formats_bytes() {
    assert_eq!(key_hex(&vec![0xab, 0xcd, 0x01]), "0xabcd01");
    assert_eq!(key_hex(&Vec::new()), "0x");
    assert_eq!(key_hex(&vec![0x00, 0xff]), format!("0x{}", hex::encode(&[0u8, 0xff])));
}

#[test]
fn info_reports_keys_or_empty() {
    let vk = vec![0x12u8; 32];
    let info = info_response(Some(&vk), None);
    assert_eq!(info.state_transition_verifier_key, format!("0x{}", hex::encode(&vk)));
    assert_eq!(info.state_membership_verifier_key, "");
}

#[test]
fn prover_mode_recognizes_mock() {
    assert!(matches!(prover_mode(Some(&"mock".to_string())), ProverMode::Mock));
    assert!(matches!(prover_mode(Some(&"cpu".to_string())), ProverMode::Cpu));
    assert!(matches!(prover_mode(Some(&"anything".to_string())), ProverMode::Cpu));
    assert!(matches!(prover_mode(None), ProverMode::Cpu));
}

#[test]
fn verify_proof_rejects_garbage_without_panicking() {
    let (ok, msg) = verify_proof(
        &vec![1, 2, 3, 4],
        &vec![5, 6, 7],
        &vec![0u8; 32],
        &vec![9, 9, 9],
    );
    assert!(!ok);
    assert!(msg.starts_with("Proof verification failed: "));
}

#[test]
fn beneficiary_must_be_twenty_hex_bytes() {
    let addr = "041a410000000000952222290dd27278aa3ddd389c".to_string();
    assert!(matches!(parse_beneficiary(&addr), Err(FacadeError::BadAddress)));
    let addr20 = "041a410000000000952222290dd27278aa3ddd38".to_string();
    assert_eq!(parse_beneficiary(&addr20).unwrap(), hex::decode(&addr20).unwrap());
    assert!(matches!(
        parse_beneficiary(&"zz".to_string()),
        Err(FacadeError::BadAddress)
    ));
    assert!(matches!(
        parse_beneficiary(&"aabb".to_string()),
        Err(FacadeError::BadAddress)
    ));
}

#[test]
fn membership_paths_prefix_each_key() {
    let paths = membership_paths(vec![b"clients/0".to_vec(), b"connections/0".to_vec()]);
    assert_eq!(paths.len(), 2);
    assert_eq!(paths[0], vec![b"ibc".to_vec(), b"clients/0".to_vec()]);
    assert_eq!(paths[1], vec![b"ibc".to_vec(), b"connections/0".to_vec()]);
}

#[test]
fn membership_preserves_order_and_values() {
    let app_hash = vec![0xa5u8; 32];
    let requests: Vec<(Vec<Vec<u8>>, Vec<u8>)> = vec![
        (vec![b"clients/0".to_vec()], b"v1".to_vec()),
        (vec![b"connections/0".to_vec()], b"v2".to_vec()),
    ];
    let out: MembershipOutput = membership(app_hash.clone(), requests);
    assert_eq!(out.commitment_root, app_hash);
    assert_eq!(out.kv_pairs.len(), 2);
    let first: &KVPair = &out.kv_pairs[0];
    assert_eq!(first.path, vec![b"clients/0".to_vec()]);
    assert_eq!(first.value, b"v1".to_vec());
    let second: &KVPair = &out.kv_pairs[1];
    assert_eq!(second.path, vec![b"connections/0".to_vec()]);
    assert_eq!(second.value, b"v2".to_vec());
}
