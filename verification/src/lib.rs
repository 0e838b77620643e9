//! Proving-service core for a light-client bridge between a data-availability
//! chain and an EVM rollup that posts its blocks as blobs.
//!
//! The library holds the verified logic: header-field merkleization, data
//! square geometry, namespaced-range coverage, the fixed byte layouts of the
//! per-block and aggregate public outputs, aggregation chaining, the indexer
//! retry policy, and the facade decisions. Network and prover plumbing stay
//! outside.

use vstd::prelude::*;

mod aggregate;
mod blob;
mod codec;
mod facade;
mod hexutil;
mod indexer;
mod membership;
mod merkle;
mod nmt;
mod output;
mod proofs;
mod square;
mod witness;

pub use aggregate::{
    AggregateError, AggregationInput, AggregationOutput, aggregate_outputs, aggregate_witness,
    check_chaining, parse_outputs, run_aggregator, sha256, spec_aggregate, outputs_chained,
    output_models, spec_agg_witness, sha256_of, lemma_aggregate_chained,
};
pub use blob::{
    BlobNamespace, NamespaceError, namespace_v0, namespace_from_hex, blob_shares, blob_commitment,
    keccak256, nmt_verify_row, blob_ok, shares_of, commitment_of, keccak_of, nmt_check,
    spec_ns_id_ok, spec_ns_bytes, NAMESPACE_LEN, SHARE_LEN,
};
pub use codec::{
    bytes_eq, spec_u64_le, spec_u64_from_le, u64_from_le_bytes, u64_to_le_bytes,
    lemma_u64_le_round_trip,
};
pub use facade::{
    FacadeError, InfoResponse, ProverMode, height_range, plan_heights, info_response, key_hex,
    spec_key_hex, prover_mode, verify_proof, parse_beneficiary, groth16_ok,
    spec_verify_failed_prefix,
};
pub use hexutil::{hex_encode, hex_decode, spec_hex_lower, spec_hex_decode, spec_hex_val};
pub use indexer::{
    IndexerError, IndexerEvent, InclusionHeightResponse, LookupStep, RetryPolicy, base64_decode,
    b64_standard_decode, lookup_step,
};
pub use membership::{KVPair, KVPairModel, MembershipOutput, membership, membership_paths, spec_ibc_prefix};
pub use merkle::{
    TmTree, TmRangeProof, TmRangeProofModel, tm_tree_new, tm_tree_push, tm_tree_root,
    tm_tree_build_range_proof, tm_hash_leaf, tm_verify_range, verify_range_proof, tm_tree_leaves,
    tm_leaf_hash, tm_root, tm_check, tm_range_siblings,
};
pub use nmt::{
    NmtRangeProof, NmtRangeProofModel, spec_covers, spec_intervals, check_share_coverage,
    plan_share_ranges, lemma_interval_bounds, lemma_coverage_disjoint, lemma_coverage_complete,
};
pub use output::{
    BlevmOutput, BlevmOutputModel, BlevmAggOutput, BlevmAggOutputModel, BLEVM_OUTPUT_LEN,
    spec_encode_output, spec_decode_output, spec_encode_agg_output, spec_concat, copy_range,
    extend_bytes, lemma_output_round_trip, lemma_concat_snoc,
};
pub use proofs::{
    HeaderFields, HeaderError, DataSquare, RowProofError, generate_header_proofs,
    generate_row_proofs, HEADER_FIELD_COUNT, DATA_HASH_FIELD_INDEX, NAMESPACED_ROOT_LEN,
};
pub use square::{
    RowSpan, SquareError, row_span, spec_geometry_ok, spec_first_row, spec_ods_index,
    spec_last_row, spec_max1, spec_ceil_div, lemma_empty_blob_span,
};
pub use witness::{
    BlockWitness, BlockWitnessModel, AssembleError, IntegrityError, ExecutedBlock,
    assemble_block_witness, verify_block_inclusion, build_output, encode_witness,
    spec_assembly_ok, spec_assembled_witness, spec_inclusion_ok, spec_encode_witness,
    spec_data_hash_field, lemma_assembly_deterministic,
};

verus! {

/// Connection settings for the DA node.
pub struct CelestiaConfig {
    pub node_url: String,
    pub auth_token: String,
}

/// The per-block proving program, identified by its artifact bytes.
pub struct ProverConfig {
    pub elf_bytes: Vec<u8>,
}

/// The aggregation program, identified by its artifact bytes.
pub struct AggregatorConfig {
    pub elf_bytes: Vec<u8>,
}

/// The only per-height carrier of proving work: where the rollup block was
/// included on the DA chain, the serialized execution input, and the raw
/// rollup block bytes.
pub struct BlockProverInput {
    pub inclusion_height: u64,
    pub client_executor_input: Vec<u8>,
    pub rollup_block: Vec<u8>,
}

/// Identifies the light-client update program artifact.
pub struct UpdateClientProgram;

/// Identifies the state-membership program artifact.
pub struct MembershipProgram;

} // verus!
