use blevm_prover::{
    AssembleError, BlockWitness, DataSquare, ExecutedBlock, HeaderFields, IntegrityError,
    NamespaceError, NmtRangeProof, assemble_block_witness, blob_commitment, blob_shares,
    build_output, encode_witness, namespace_from_hex, namespace_v0, verify_block_inclusion,
    BlobNamespace,
};
use celestia_types::nmt::{Namespace, NamespacedHashExt, NamespacedSha2Hasher, Nmt};
use nmt_rs::NamespaceMerkleHasher;
use nmt_rs::TmSha2Hasher;
use nmt_rs::simple_merkle::db::MemDb;
use nmt_rs::simple_merkle::tree::MerkleTree;
use sha3::Digest;

fn tm_root_of(leaves: &[Vec<u8>]) -> Vec<u8> {
    let mut tree: MerkleTree<MemDb<[u8; 32]>, TmSha2Hasher> =
        MerkleTree::with_hasher(TmSha2Hasher::new());
    for leaf in leaves {
        tree.push_raw_leaf(leaf);
    }
    tree.root().to_vec()
}

fn test_id() -> Vec<u8> {
    let mut id = vec![0u8; 28];
    id[27] = 1;
    id
}

#[test]
fn namespace_construction() {
    let ns = namespace_v0(&test_id()).unwrap();
    assert_eq!(ns.bytes.len(), 29);
    assert_eq!(ns.bytes[0], 0);
    assert_eq!(ns.bytes[28], 1);
    // a short user suffix is padded on the left
    let short = namespace_v0(&vec![9u8, 8u8]).unwrap();
    assert_eq!(short.bytes[27], 9);
    assert_eq!(short.bytes[28], 8);
    // a reserved prefix byte must be zero
    let mut bad = test_id();
    bad[0] = 1;
    assert!(matches!(namespace_v0(&bad), Err(NamespaceError::InvalidNamespaceV0)));
    // hex path
    assert!(namespace_from_hex(&hex::encode(test_id())).is_ok());
    assert!(matches!(
        namespace_from_hex(&"zz".to_string()),
        Err(NamespaceError::BadNamespaceHex)
    ));
}

#[test]
fn blob_wrappers_match_the_chain_library() {
    let ns = namespace_v0(&test_id()).unwrap();
    let data = b"hello world".to_vec();
    let shares = blob_shares(&ns, &data).unwrap();
    let commitment = blob_commitment(&ns, &data).unwrap();

    let namespace = Namespace::new_v0(&test_id()).unwrap();
    let blob = celestia_types::Blob::new(namespace, data.clone(), None).unwrap();
    let expected_shares: Vec<Vec<u8>> =
        blob.to_shares().unwrap().iter().map(|s| s.data().to_vec()).collect();
    assert_eq!(shares, expected_shares);
    assert_eq!(shares.len(), 1);
    assert_eq!(shares[0].len(), 512);
    assert_eq!(commitment, blob.commitment.hash().to_vec());
    assert_ne!(commitment, data);
}

struct Fixture {
    ns: BlobNamespace,
    header: HeaderFields,
    square: DataSquare,
    data: Vec<u8>,
    commitment: Vec<u8>,
    nmt_proofs: Vec<NmtRangeProof>,
}

fn fixture() -> Fixture {
    let ns = namespace_v0(&test_id()).unwrap();
    let data = b"hello world".to_vec();
    let commitment = blob_commitment(&ns, &data).unwrap();
    let shares = blob_shares(&ns, &data).unwrap();

    // the real namespaced tree of the one row the blob occupies
    let namespace = Namespace::new_v0(&test_id()).unwrap();
    let mut nmt = Nmt::with_hasher(NamespacedSha2Hasher::with_ignore_max_ns(true));
    for share in &shares {
        nmt.push_leaf(share, *namespace).unwrap();
    }
    let row_root = nmt.root();
    let proof = nmt.build_range_proof(0..shares.len());
    let siblings: Vec<Vec<u8>> =
        proof.siblings.iter().map(|h| h.to_array().to_vec()).collect();
    let nmt_proofs = vec![NmtRangeProof { start: 0, end: shares.len() as u64, siblings }];

    // a 2x2 extended square whose first row is ours
    let row_roots = vec![row_root.to_array().to_vec(), vec![7u8; 90]];
    let column_roots = vec![vec![8u8; 90], vec![9u8; 90]];
    let mut leaves = row_roots.clone();
    leaves.extend_from_slice(&column_roots);
    let data_hash = tm_root_of(&leaves);
    let square = DataSquare { row_roots, column_roots, data_hash: data_hash.clone() };

    // fourteen encoded header fields reproducing the declared hash; the
    // data-hash field carries the square's data root, length-delimited
    let mut fields: Vec<Vec<u8>> = (0u8..14).map(|i| vec![i, i]).collect();
    let mut data_hash_field = vec![0x0au8, 0x20u8];
    data_hash_field.extend_from_slice(&data_hash);
    fields[6] = data_hash_field;
    let hash = tm_root_of(&fields);
    let header = HeaderFields { fields, hash };

    Fixture { ns, header, square, data, commitment, nmt_proofs }
}

#[test]
fn witness_assembly_is_idempotent() {
    let f = fixture();
    let exec_input = b"execution input".to_vec();
    let w1 = assemble_block_witness(
        &exec_input, &f.data, &f.ns, &f.header, &f.square, 0, &f.commitment,
        f.nmt_proofs.clone(),
    )
    .unwrap();
    let w2 = assemble_block_witness(
        &exec_input, &f.data, &f.ns, &f.header, &f.square, 0, &f.commitment,
        f.nmt_proofs.clone(),
    )
    .unwrap();
    let b1 = encode_witness(&w1);
    let b2 = encode_witness(&w2);
    assert_eq!(b1, b2);
    assert_eq!(b1, encode_witness(&w1));
    // the stream opens with the length-prefixed execution input
    assert_eq!(&b1[0..8], (exec_input.len() as u64).to_le_bytes().as_slice());
    assert_eq!(&b1[8..8 + exec_input.len()], exec_input.as_slice());
}

#[test]
fn witness_assembly_checks_the_commitment() {
    let f = fixture();
    let wrong = vec![0xeeu8; 32];
    match assemble_block_witness(
        &b"x".to_vec(), &f.data, &f.ns, &f.header, &f.square, 0, &wrong, f.nmt_proofs.clone(),
    ) {
        Err(AssembleError::CommitmentMismatch) => {},
        _ => panic!("a wrong indexer commitment must be rejected"),
    }
}

#[test]
fn witness_assembly_checks_coverage() {
    let f = fixture();
    // a proof list with a gap: does not start at zero
    let bad = vec![NmtRangeProof { start: 1, end: 2, siblings: Vec::new() }];
    match assemble_block_witness(
        &b"x".to_vec(), &f.data, &f.ns, &f.header, &f.square, 0, &f.commitment, bad,
    ) {
        Err(AssembleError::NmtCoverageMismatch) => {},
        _ => panic!("uncovered shares must be rejected"),
    }
}

#[test]
fn witness_assembly_names_each_failure() {
    let f = fixture();
    let exec = b"x".to_vec();
    let mut bad_header = fixture().header;
    bad_header.hash[0] ^= 1;
    assert!(matches!(
        assemble_block_witness(
            &exec, &f.data, &f.ns, &bad_header, &f.square, 0, &f.commitment,
            f.nmt_proofs.clone(),
        ),
        Err(AssembleError::HeaderHashMismatch)
    ));
    // square index far outside the 2x2 square
    assert!(matches!(
        assemble_block_witness(
            &exec, &f.data, &f.ns, &f.header, &f.square, 1000, &f.commitment,
            f.nmt_proofs.clone(),
        ),
        Err(AssembleError::BadSquareGeometry)
    ));
    let mut bad_square = fixture().square;
    bad_square.data_hash[0] ^= 1;
    assert!(matches!(
        assemble_block_witness(
            &exec, &f.data, &f.ns, &f.header, &bad_square, 0, &f.commitment,
            f.nmt_proofs.clone(),
        ),
        Err(AssembleError::DataRootMismatch)
    ));
    // a header whose data-hash field carries some other root is rejected,
    // even though it reproduces its own hash
    let mut untied = fixture();
    untied.header.fields[6] = vec![0u8; 34];
    untied.header.hash = {
        let mut tree: MerkleTree<MemDb<[u8; 32]>, TmSha2Hasher> =
            MerkleTree::with_hasher(TmSha2Hasher::new());
        for leaf in &untied.header.fields {
            tree.push_raw_leaf(leaf);
        }
        tree.root().to_vec()
    };
    assert!(matches!(
        assemble_block_witness(
            &exec, &untied.data, &untied.ns, &untied.header, &untied.square, 0,
            &untied.commitment, untied.nmt_proofs.clone(),
        ),
        Err(AssembleError::DataRootMismatch)
    ));
}

#[test]
fn block_inclusion_rejects_wrong_data_root() {
    let f = fixture();
    let mut w = assemble_block_witness(
        &b"x".to_vec(), &f.data, &f.ns, &f.header, &f.square, 0, &f.commitment,
        f.nmt_proofs.clone(),
    )
    .unwrap();
    let keccak: [u8; 32] = sha3::Keccak256::digest(&f.data).into();
    // a data root that is not the hash inside the data-hash field fails the
    // tie, before any proof is checked
    w.data_root = vec![0x55u8; 32];
    assert!(matches!(
        verify_block_inclusion(&w, &f.ns, &f.data, &keccak.to_vec()),
        Err(IntegrityError::DataHashProofFailed)
    ));
    // a tampered row proof fails the row-range check
    let mut bad_row = assemble_block_witness(
        &b"x".to_vec(), &f.data, &f.ns, &f.header, &f.square, 0, &f.commitment,
        f.nmt_proofs.clone(),
    )
    .unwrap();
    bad_row.row_proof.siblings[0][0] ^= 1;
    assert!(matches!(
        verify_block_inclusion(&bad_row, &f.ns, &f.data, &keccak.to_vec()),
        Err(IntegrityError::RowRangeProofFailed)
    ));
}

#[test]
fn block_inclusion_accepts_the_fixture() {
    let f = fixture();
    let w: BlockWitness = assemble_block_witness(
        &b"x".to_vec(), &f.data, &f.ns, &f.header, &f.square, 0, &f.commitment,
        f.nmt_proofs.clone(),
    )
    .unwrap();
    let keccak: [u8; 32] = sha3::Keccak256::digest(&f.data).into();
    verify_block_inclusion(&w, &f.ns, &f.data, &keccak.to_vec()).unwrap();
}

#[test]
fn block_inclusion_rejects_tampering() {
    let f = fixture();
    let w = assemble_block_witness(
        &b"x".to_vec(), &f.data, &f.ns, &f.header, &f.square, 0, &f.commitment,
        f.nmt_proofs.clone(),
    )
    .unwrap();
    let keccak: [u8; 32] = sha3::Keccak256::digest(&f.data).into();

    let mut wrong_keccak = keccak.to_vec();
    wrong_keccak[0] ^= 1;
    assert!(matches!(
        verify_block_inclusion(&w, &f.ns, &f.data, &wrong_keccak),
        Err(IntegrityError::KeccakMismatch)
    ));

    let mut tampered = assemble_block_witness(
        &b"x".to_vec(), &f.data, &f.ns, &f.header, &f.square, 0, &f.commitment,
        f.nmt_proofs.clone(),
    )
    .unwrap();
    tampered.data_hash_bytes[0] ^= 1;
    assert!(matches!(
        verify_block_inclusion(&tampered, &f.ns, &f.data, &keccak.to_vec()),
        Err(IntegrityError::DataHashProofFailed)
    ));

    let mut wrong_row = assemble_block_witness(
        &b"x".to_vec(), &f.data, &f.ns, &f.header, &f.square, 0, &f.commitment,
        f.nmt_proofs.clone(),
    )
    .unwrap();
    wrong_row.row_roots[0] = vec![3u8; 90];
    assert!(verify_block_inclusion(&wrong_row, &f.ns, &f.data, &keccak.to_vec()).is_err());
}

#[test]
fn output_commits_executed_header_fields() {
    let executed = ExecutedBlock {
        header_hash: vec![1u8; 32],
        parent_hash: vec![2u8; 32],
        number: 18884864,
        gas_used: 99,
        beneficiary: vec![3u8; 20],
        state_root: vec![4u8; 32],
    };
    let out = build_output(executed, vec![5u8; 32], vec![6u8; 32]);
    assert_eq!(out.header_hash, vec![1u8; 32]);
    assert_eq!(out.prev_header_hash, vec![2u8; 32]);
    assert_eq!(out.height, 18884864);
    assert_eq!(out.gas_used, 99);
    assert_eq!(out.blob_commitment, vec![5u8; 32]);
    assert_eq!(out.celestia_header_hash, vec![6u8; 32]);
}
