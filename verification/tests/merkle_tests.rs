use blevm_prover::{
    DataSquare, HeaderError, HeaderFields, RowProofError, generate_header_proofs,
    generate_row_proofs, tm_hash_leaf, verify_range_proof,
};
use nmt_rs::TmSha2Hasher;
use nmt_rs::simple_merkle::db::MemDb;
use nmt_rs::simple_merkle::tree::MerkleTree;

fn tm_root_of(leaves: &[Vec<u8>]) -> Vec<u8> {
    let mut tree: MerkleTree<MemDb<[u8; 32]>, TmSha2Hasher> =
        MerkleTree::with_hasher(TmSha2Hasher::new());
    for leaf in leaves {
        tree.push_raw_leaf(leaf);
    }
    tree.root().to_vec()
}

fn header_fields() -> Vec<Vec<u8>> {
    (0u8..14).map(|i| vec![i, i + 1, i + 2]).collect()
}

#[test]
fn header_merkleization_ties_data_hash_to_header_hash() {
    let fields = header_fields();
    let hash = tm_root_of(&fields);
    let header = HeaderFields { fields: fields.clone(), hash: hash.clone() };
    let (data_hash_bytes, proof) = generate_header_proofs(&header).unwrap();
    assert_eq!(data_hash_bytes, fields[6]);
    assert_eq!(proof.start, 6);
    assert_eq!(proof.end, 7);
    let leaf = tm_hash_leaf(&data_hash_bytes);
    assert!(verify_range_proof(&proof, &hash, &vec![leaf.clone()]));
    // the same proof must not verify against a different root
    let mut other = hash.clone();
    other[0] ^= 1;
    assert!(!verify_range_proof(&proof, &other, &vec![leaf]));
}

#[test]
fn header_hash_mismatch_is_rejected() {
    let fields = header_fields();
    let mut hash = tm_root_of(&fields);
    hash[31] ^= 0xff;
    let header = HeaderFields { fields, hash };
    match generate_header_proofs(&header) {
        Err(HeaderError::HeaderHashMismatch) => {},
        _ => panic!("a wrong header hash must be rejected"),
    }
}

fn square_fixture() -> (DataSquare, Vec<Vec<u8>>) {
    let roots: Vec<Vec<u8>> = (0u8..8).map(|i| vec![i; 90]).collect();
    let rows = roots[0..4].to_vec();
    let cols = roots[4..8].to_vec();
    let data_hash = tm_root_of(&roots);
    (DataSquare { row_roots: rows, column_roots: cols, data_hash }, roots)
}

#[test]
fn row_proof_verifies_against_data_hash() {
    let (square, _) = square_fixture();
    // one share at square index 5: eds 4, ods 2, row 1 only
    let (proof, selected) = generate_row_proofs(&square, 5, 1).unwrap();
    assert_eq!(selected, vec![vec![1u8; 90]]);
    assert_eq!(proof.start, 1);
    assert_eq!(proof.end, 2);
    let hashes: Vec<Vec<u8>> = selected.iter().map(|r| tm_hash_leaf(r)).collect();
    assert!(verify_range_proof(&proof, &square.data_hash, &hashes));
}

#[test]
fn row_proof_spanning_two_rows() {
    let (square, _) = square_fixture();
    // three shares starting at square index 1: ods position 1, rows 0..=1
    let (proof, selected) = generate_row_proofs(&square, 1, 3).unwrap();
    assert_eq!(selected, vec![vec![0u8; 90], vec![1u8; 90]]);
    assert_eq!((proof.start, proof.end), (0, 2));
    let hashes: Vec<Vec<u8>> = selected.iter().map(|r| tm_hash_leaf(r)).collect();
    assert!(verify_range_proof(&proof, &square.data_hash, &hashes));
}

#[test]
fn row_proof_rejects_wrong_data_root_and_geometry() {
    let (mut square, _) = square_fixture();
    assert!(matches!(
        generate_row_proofs(&square, 0, 1000),
        Err(RowProofError::BadSquareGeometry)
    ));
    square.data_hash[0] ^= 1;
    assert!(matches!(
        generate_row_proofs(&square, 5, 1),
        Err(RowProofError::DataRootMismatch)
    ));
}
