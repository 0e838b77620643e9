//! The per-block witness: assembling the input stream of the per-block
//! program from one rollup block and its DA inclusion data, its fixed
//! framing, and the checks the per-block program performs on it.

use vstd::prelude::*;
use crate::blob::{
    BlobNamespace, blob_ok, shares_of, commitment_of, blob_shares, blob_commitment, keccak_of,
    keccak256, nmt_check, nmt_verify_row,
};
use crate::codec::{spec_u64_le, u64_to_le_bytes, bytes_eq};
use crate::merkle::{TmRangeProof, tm_check, tm_leaf_hash, tm_range_siblings, tm_hash_leaf, verify_range_proof};
use crate::nmt::{NmtRangeProof, NmtRangeProofModel, spec_covers, spec_intervals, check_share_coverage};
use crate::output::{BlevmOutput, copy_range, extend_bytes, spec_concat};
use crate::proofs::{
    HeaderFields, DataSquare, HeaderError, RowProofError, generate_header_proofs,
    generate_row_proofs, DATA_HASH_FIELD_INDEX,
};
use crate::square::{spec_geometry_ok, spec_first_row, spec_last_row, spec_max1};
use crate::merkle::TmRangeProofModel;

verus! {

/// The full witness bundle for one rollup block, in the order the per-block
/// program reads it: the execution input, the namespace, the DA header hash,
/// the encoded `data_hash` field with its proof into the header hash, the
/// row-range proof with the raw data root it verifies against, the per-row
/// namespaced proofs, and the selected row roots. The raw data root is the
/// hash carried inside the encoded `data_hash` field; assembly and the
/// per-block checks both enforce that tie.
pub struct BlockWitness {
    pub client_executor_input: Vec<u8>,
    pub namespace: Vec<u8>,
    pub da_header_hash: Vec<u8>,
    pub data_hash_bytes: Vec<u8>,
    pub data_hash_proof: TmRangeProof,
    pub row_proof: TmRangeProof,
    pub data_root: Vec<u8>,
    pub nmt_proofs: Vec<NmtRangeProof>,
    pub row_roots: Vec<Vec<u8>>,
}

/// Mathematical model of a witness bundle.
#[verifier::ext_equal]
pub ghost struct BlockWitnessModel {
    pub client_executor_input: Seq<u8>,
    pub namespace: Seq<u8>,
    pub da_header_hash: Seq<u8>,
    pub data_hash_bytes: Seq<u8>,
    pub data_hash_proof: TmRangeProofModel,
    pub row_proof: TmRangeProofModel,
    pub data_root: Seq<u8>,
    pub nmt_proofs: Seq<NmtRangeProofModel>,
    pub row_roots: Seq<Seq<u8>>,
}

impl View for BlockWitness {
    type V = BlockWitnessModel;

    open spec fn view(&self) -> BlockWitnessModel {
        BlockWitnessModel {
            client_executor_input: self.client_executor_input@,
            namespace: self.namespace@,
            da_header_hash: self.da_header_hash@,
            data_hash_bytes: self.data_hash_bytes@,
            data_hash_proof: self.data_hash_proof@,
            row_proof: self.row_proof@,
            data_root: self.data_root@,
            nmt_proofs: self.nmt_proofs@.map_values(|p: NmtRangeProof| p@),
            row_roots: self.row_roots@.map_values(|r: Vec<u8>| r@),
        }
    }
}

/// Why witness assembly was refused.
#[derive(Debug)]
pub enum AssembleError {
    /// The DA chain's share splitter refused the namespace/payload pair.
    BlobRejected,
    /// The blob's computed commitment differs from the commitment the indexer
    /// supplied.
    CommitmentMismatch,
    /// The header's fields do not reproduce its declared hash.
    HeaderHashMismatch,
    /// The blob's position does not fit the square.
    BadSquareGeometry,
    /// The row and column roots do not reproduce the header's `data_hash`,
    /// or the header's `data_hash` field does not carry that root.
    DataRootMismatch,
    /// The fetched per-row proofs do not cover the blob's shares exactly
    /// once, in order, one per spanned row.
    NmtCoverageMismatch,
}

/// The canonical encoding of the header's `data_hash` field: the protobuf
/// length-delimited form of the 32-byte hash — one tag byte, one length
/// byte, then the hash itself.
pub open spec fn spec_data_hash_field(root: Seq<u8>) -> Seq<u8> {
    seq![0x0au8, 0x20u8] + root
}

/// Checks that an encoded `data_hash` field carries exactly the given root.
fn data_hash_field_matches(field: &Vec<u8>, root: &Vec<u8>) -> (r: bool)
    ensures
        r <==> field@ == spec_data_hash_field(root@),
{
    let mut expected: Vec<u8> = Vec::new();
    expected.push(0x0a);
    expected.push(0x20);
    extend_bytes(&mut expected, root);
    proof {
        assert(expected@ =~= spec_data_hash_field(root@));
    }
    bytes_eq(field, &expected)
}

/// Everything witness assembly checks, over the inputs alone: the blob
/// splits, its commitment matches the indexer's, the header reproduces its
/// hash, the span fits the square, the square reproduces `data_hash`, the
/// header's `data_hash` field carries exactly that root, and the fetched
/// proofs cover the shares one row each.
pub open spec fn spec_assembly_ok(
    rollup_block: Seq<u8>,
    ns: Seq<u8>,
    header: HeaderFields,
    square: DataSquare,
    blob_index: u64,
    indexer_commitment: Seq<u8>,
    nmt_proofs: Seq<NmtRangeProofModel>,
) -> bool {
    let share_count = shares_of(ns, rollup_block).len() as int;
    let eds = square.row_roots@.len() as int;
    let rows = spec_last_row(blob_index as int, share_count, eds) - spec_first_row(
        blob_index as int,
        eds,
    ) + 1;
    {
        &&& blob_ok(ns, rollup_block)
        &&& commitment_of(ns, rollup_block) == indexer_commitment
        &&& header.valid()
        &&& spec_geometry_ok(blob_index as int, share_count, eds)
        &&& square.valid()
        &&& header.field_views()[DATA_HASH_FIELD_INDEX as int] == spec_data_hash_field(
            square.data_hash@,
        )
        &&& spec_covers(spec_intervals(nmt_proofs), spec_max1(share_count))
        &&& nmt_proofs.len() == rows
    }
}

/// The witness owed for the given inputs, when assembly succeeds: every field
/// a function of the inputs.
pub open spec fn spec_assembled_witness(
    client_executor_input: Seq<u8>,
    rollup_block: Seq<u8>,
    ns: Seq<u8>,
    header: HeaderFields,
    square: DataSquare,
    blob_index: u64,
    nmt_proofs: Seq<NmtRangeProofModel>,
) -> BlockWitnessModel {
    let share_count = shares_of(ns, rollup_block).len() as int;
    let eds = square.row_roots@.len() as int;
    let first = spec_first_row(blob_index as int, eds);
    let last = spec_last_row(blob_index as int, share_count, eds);
    BlockWitnessModel {
        client_executor_input: client_executor_input,
        namespace: ns,
        da_header_hash: header.hash@,
        data_hash_bytes: header.field_views()[DATA_HASH_FIELD_INDEX as int],
        data_hash_proof: TmRangeProofModel {
            siblings: tm_range_siblings(
                header.field_views(),
                DATA_HASH_FIELD_INDEX as int,
                DATA_HASH_FIELD_INDEX + 1,
            ),
            start: DATA_HASH_FIELD_INDEX as u64,
            end: (DATA_HASH_FIELD_INDEX + 1) as u64,
        },
        row_proof: TmRangeProofModel {
            siblings: tm_range_siblings(square.leaf_views(), first, last + 1),
            start: first as u64,
            end: (last + 1) as u64,
        },
        data_root: square.data_hash@,
        nmt_proofs: nmt_proofs,
        row_roots: square.row_roots@.map_values(|r: Vec<u8>| r@).subrange(first, last + 1),
    }
}

/// Assembles the witness bundle for one rollup block.
///
/// Succeeds exactly when every invariant of the bundle holds; the witness is
/// then a function of the inputs alone.
pub fn assemble_block_witness(
    client_executor_input: &Vec<u8>,
    rollup_block: &Vec<u8>,
    ns: &BlobNamespace,
    header: &HeaderFields,
    square: &DataSquare,
    blob_index: u64,
    indexer_commitment: &Vec<u8>,
    nmt_proofs: Vec<NmtRangeProof>,
) -> (r: Result<BlockWitness, AssembleError>)
    requires
        ns.wf(),
        header.wf(),
        square.wf(),
    ensures
        r is Ok <==> spec_assembly_ok(
            rollup_block@,
            ns.bytes@,
            *header,
            *square,
            blob_index,
            indexer_commitment@,
            nmt_proofs@.map_values(|p: NmtRangeProof| p@),
        ),
        r matches Ok(w) ==> w@ == spec_assembled_witness(
            client_executor_input@,
            rollup_block@,
            ns.bytes@,
            *header,
            *square,
            blob_index,
            nmt_proofs@.map_values(|p: NmtRangeProof| p@),
        ),
        r matches Err(e) ==> {
            let share_count = shares_of(ns.bytes@, rollup_block@).len() as int;
            let eds = square.row_roots@.len() as int;
            {
                &&& (e is BlobRejected <==> !blob_ok(ns.bytes@, rollup_block@))
                &&& (e is CommitmentMismatch <==> blob_ok(ns.bytes@, rollup_block@)
                    && commitment_of(ns.bytes@, rollup_block@) != indexer_commitment@)
                &&& (e is HeaderHashMismatch <==> blob_ok(ns.bytes@, rollup_block@)
                    && commitment_of(ns.bytes@, rollup_block@) == indexer_commitment@
                    && !header.valid())
                &&& (e is BadSquareGeometry <==> blob_ok(ns.bytes@, rollup_block@)
                    && commitment_of(ns.bytes@, rollup_block@) == indexer_commitment@
                    && header.valid() && !spec_geometry_ok(blob_index as int, share_count, eds))
                &&& (e is DataRootMismatch <==> blob_ok(ns.bytes@, rollup_block@)
                    && commitment_of(ns.bytes@, rollup_block@) == indexer_commitment@
                    && header.valid() && spec_geometry_ok(blob_index as int, share_count, eds)
                    && !(square.valid() && header.field_views()[DATA_HASH_FIELD_INDEX as int]
                        == spec_data_hash_field(square.data_hash@)))
            }
        },
{
    let shares = match blob_shares(ns, rollup_block) {
        Some(s) => s,
        None => {
            return Err(AssembleError::BlobRejected);
        },
    };
    let commitment = match blob_commitment(ns, rollup_block) {
        Some(c) => c,
        None => {
            return Err(AssembleError::BlobRejected);
        },
    };
    if !bytes_eq(&commitment, indexer_commitment) {
        return Err(AssembleError::CommitmentMismatch);
    }
    let (data_hash_bytes, data_hash_proof) = match generate_header_proofs(header) {
        Ok(x) => x,
        Err(HeaderError::HeaderHashMismatch) => {
            return Err(AssembleError::HeaderHashMismatch);
        },
    };
    let share_count: u64 = shares.len() as u64;
    let (row_proof, row_roots) = match generate_row_proofs(square, blob_index, share_count) {
        Ok(x) => x,
        Err(RowProofError::BadSquareGeometry) => {
            return Err(AssembleError::BadSquareGeometry);
        },
        Err(RowProofError::DataRootMismatch) => {
            return Err(AssembleError::DataRootMismatch);
        },
    };
    if !data_hash_field_matches(&header.fields[DATA_HASH_FIELD_INDEX], &square.data_hash) {
        proof {
            assert(header.field_views()[DATA_HASH_FIELD_INDEX as int] == header.fields@[
                DATA_HASH_FIELD_INDEX as int
            ]@);
        }
        return Err(AssembleError::DataRootMismatch);
    }
    let effective: u64 = if share_count == 0 {
        1u64
    } else {
        share_count
    };
    if !check_share_coverage(&nmt_proofs, effective) {
        return Err(AssembleError::NmtCoverageMismatch);
    }
    if nmt_proofs.len() != row_roots.len() {
        return Err(AssembleError::NmtCoverageMismatch);
    }
    let w = BlockWitness {
        client_executor_input: copy_range(client_executor_input, 0, client_executor_input.len()),
        namespace: copy_range(&ns.bytes, 0, ns.bytes.len()),
        da_header_hash: copy_range(&header.hash, 0, header.hash.len()),
        data_hash_bytes,
        data_hash_proof,
        row_proof,
        data_root: copy_range(&square.data_hash, 0, square.data_hash.len()),
        nmt_proofs,
        row_roots,
    };
    proof {
        assert(w@ =~= spec_assembled_witness(
            client_executor_input@,
            rollup_block@,
            ns.bytes@,
            *header,
            *square,
            blob_index,
            w@.nmt_proofs,
        ));
    }
    Ok(w)
}

/// Assembling a witness is deterministic: any two results of assembly from
/// the same inputs are the same bundle, so their encodings are byte-identical
/// streams.
pub proof fn lemma_assembly_deterministic(
    w1: BlockWitnessModel,
    w2: BlockWitnessModel,
    client_executor_input: Seq<u8>,
    rollup_block: Seq<u8>,
    ns: Seq<u8>,
    header: HeaderFields,
    square: DataSquare,
    blob_index: u64,
    nmt_proofs: Seq<NmtRangeProofModel>,
)
    requires
        w1 == spec_assembled_witness(
            client_executor_input,
            rollup_block,
            ns,
            header,
            square,
            blob_index,
            nmt_proofs,
        ),
        w2 == spec_assembled_witness(
            client_executor_input,
            rollup_block,
            ns,
            header,
            square,
            blob_index,
            nmt_proofs,
        ),
    ensures
        w1 == w2,
        spec_encode_witness(w1) == spec_encode_witness(w2),
{
}

/// Integrity failures inside the per-block program. Each is terminal: the
/// program aborts so no proof can be produced.
#[derive(Debug)]
pub enum IntegrityError {
    /// The `data_hash` field does not carry the data root, or does not
    /// prove into the DA header hash.
    DataHashProofFailed,
    /// The DA chain's share splitter refused the namespace/payload pair.
    BlobRejected,
    /// The claimed Keccak digest of the blob payload is wrong.
    KeccakMismatch,
    /// The per-row proofs do not cover the blob's shares exactly once, in
    /// order, one per row, each verifying against its row root.
    NmtCoverageMismatch,
    /// The selected row roots do not prove into the data root.
    RowRangeProofFailed,
}

impl BlockWitness {
    /// The bundle's fixed widths: 32-byte hashes, 90-byte row roots, and
    /// well-formed proofs.
    pub open spec fn wf(&self) -> bool {
        &&& self.da_header_hash@.len() == 32
        &&& self.data_root@.len() == 32
        &&& self.data_hash_proof.wf()
        &&& self.row_proof.wf()
        &&& forall|i: int|
            0 <= i < self.nmt_proofs@.len() ==> (#[trigger] self.nmt_proofs@[i]).wf()
        &&& forall|i: int|
            0 <= i < self.row_roots@.len() ==> (#[trigger] self.row_roots@[i])@.len() == 90
    }
}

/// Everything the per-block program checks before executing the block, over
/// the witness and payload alone.
pub open spec fn spec_inclusion_ok(
    w: BlockWitnessModel,
    ns: Seq<u8>,
    rollup_block: Seq<u8>,
    claimed_keccak: Seq<u8>,
) -> bool {
    let shares = shares_of(ns, rollup_block);
    {
        &&& w.data_hash_bytes == spec_data_hash_field(w.data_root)
        &&& w.data_hash_proof.end - w.data_hash_proof.start == 1
        &&& tm_check(
            w.data_hash_proof.siblings,
            w.data_hash_proof.start as int,
            w.da_header_hash,
            seq![tm_leaf_hash(w.data_hash_bytes)],
        )
        &&& blob_ok(ns, rollup_block)
        &&& keccak_of(rollup_block) == claimed_keccak
        &&& w.nmt_proofs.len() == w.row_roots.len()
        &&& spec_covers(spec_intervals(w.nmt_proofs), shares.len() as int)
        &&& forall|i: int|
            0 <= i < w.nmt_proofs.len() ==> nmt_check(
                ns,
                w.row_roots[i],
                (#[trigger] w.nmt_proofs[i]).start as int,
                w.nmt_proofs[i].end as int,
                w.nmt_proofs[i].siblings,
                shares.subrange(w.nmt_proofs[i].start as int, w.nmt_proofs[i].end as int),
            )
        &&& w.row_roots.len() == w.row_proof.end - w.row_proof.start
        &&& tm_check(
            w.row_proof.siblings,
            w.row_proof.start as int,
            w.data_root,
            w.row_roots.map_values(|r: Seq<u8>| tm_leaf_hash(r)),
        )
    }
}

/// Copies `shares[start .. end]` into a fresh vector of shares.
fn copy_shares(shares: &Vec<Vec<u8>>, start: usize, end: usize) -> (r: Vec<Vec<u8>>)
    requires
        start <= end <= shares@.len(),
    ensures
        r@.map_values(|s: Vec<u8>| s@) == shares@.map_values(|s: Vec<u8>| s@).subrange(
            start as int,
            end as int,
        ),
{
    let mut out: Vec<Vec<u8>> = Vec::new();
    let mut i: usize = start;
    while i < end
        invariant
            start <= i <= end <= shares@.len(),
            out@.len() == i - start,
            forall|j: int|
                0 <= j < out@.len() ==> (#[trigger] out@[j])@ == shares@[start + j]@,
        decreases end - i,
    {
        let s = &shares[i];
        out.push(copy_range(s, 0, s.len()));
        i = i + 1;
    }
    proof {
        assert(out@.map_values(|s: Vec<u8>| s@) =~= shares@.map_values(|s: Vec<u8>| s@).subrange(
            start as int,
            end as int,
        ));
    }
    out
}

/// Performs the per-block program's inclusion checks: the `data_hash` field
/// proves into the DA header hash; the payload splits into shares whose
/// claimed Keccak digest matches; the per-row proofs cover those shares
/// exactly once, in order, each verifying against its row root under the
/// namespace; and the row roots prove into the data root.
///
/// Accepts exactly when all checks pass; each error names the check that
/// failed.
pub fn verify_block_inclusion(
    w: &BlockWitness,
    ns: &BlobNamespace,
    rollup_block: &Vec<u8>,
    claimed_keccak: &Vec<u8>,
) -> (r: Result<(), IntegrityError>)
    requires
        ns.wf(),
        w.wf(),
    ensures
        r is Ok <==> spec_inclusion_ok(w@, ns.bytes@, rollup_block@, claimed_keccak@),
        r matches Err(e) ==> {
            let dh_ok = w@.data_hash_bytes == spec_data_hash_field(w@.data_root)
                && w@.data_hash_proof.end - w@.data_hash_proof.start == 1 && tm_check(
                w@.data_hash_proof.siblings,
                w@.data_hash_proof.start as int,
                w@.da_header_hash,
                seq![tm_leaf_hash(w@.data_hash_bytes)],
            );
            {
                &&& (e is DataHashProofFailed <==> !dh_ok)
                &&& (e is BlobRejected <==> dh_ok && !blob_ok(ns.bytes@, rollup_block@))
                &&& (e is KeccakMismatch <==> dh_ok && blob_ok(ns.bytes@, rollup_block@)
                    && keccak_of(rollup_block@) != claimed_keccak@)
                &&& (e is RowRangeProofFailed ==> !(w@.row_roots.len() == w@.row_proof.end
                    - w@.row_proof.start && tm_check(
                    w@.row_proof.siblings,
                    w@.row_proof.start as int,
                    w@.data_root,
                    w@.row_roots.map_values(|r2: Seq<u8>| tm_leaf_hash(r2)),
                )))
            }
        },
{
    if !data_hash_field_matches(&w.data_hash_bytes, &w.data_root) {
        return Err(IntegrityError::DataHashProofFailed);
    }
    let leaf = tm_hash_leaf(&w.data_hash_bytes);
    let mut leaf_vec: Vec<Vec<u8>> = Vec::new();
    leaf_vec.push(leaf);
    proof {
        assert(leaf_vec@.map_values(|h: Vec<u8>| h@) =~= seq![tm_leaf_hash(
            w@.data_hash_bytes,
        )]);
    }
    if !verify_range_proof(&w.data_hash_proof, &w.da_header_hash, &leaf_vec) {
        return Err(IntegrityError::DataHashProofFailed);
    }
    let shares = match blob_shares(ns, rollup_block) {
        Some(s) => s,
        None => {
            return Err(IntegrityError::BlobRejected);
        },
    };
    let computed_keccak = keccak256(rollup_block);
    if !bytes_eq(&computed_keccak, claimed_keccak) {
        return Err(IntegrityError::KeccakMismatch);
    }
    if w.nmt_proofs.len() != w.row_roots.len() {
        return Err(IntegrityError::NmtCoverageMismatch);
    }
    if !check_share_coverage(&w.nmt_proofs, shares.len() as u64) {
        return Err(IntegrityError::NmtCoverageMismatch);
    }
    let ghost share_views = shares@.map_values(|s: Vec<u8>| s@);
    let n: usize = w.nmt_proofs.len();
    let mut i: usize = 0;
    while i < n
        invariant
            i <= n,
            n == w.nmt_proofs@.len(),
            n == w.row_roots@.len(),
            ns.wf(),
            w.wf(),
            share_views == shares@.map_values(|s: Vec<u8>| s@),
            share_views == shares_of(ns.bytes@, rollup_block@),
            w@.data_hash_bytes == spec_data_hash_field(w@.data_root),
            w@.data_hash_proof.end - w@.data_hash_proof.start == 1 && tm_check(
                w@.data_hash_proof.siblings,
                w@.data_hash_proof.start as int,
                w@.da_header_hash,
                seq![tm_leaf_hash(w@.data_hash_bytes)],
            ),
            blob_ok(ns.bytes@, rollup_block@),
            keccak_of(rollup_block@) == claimed_keccak@,
            spec_covers(spec_intervals(w@.nmt_proofs), share_views.len() as int),
            forall|i2: int| 0 <= i2 < shares@.len() ==> (#[trigger] shares@[i2])@.len() == 512,
            forall|j: int|
                0 <= j < i ==> nmt_check(
                    ns.bytes@,
                    w@.row_roots[j],
                    (#[trigger] w@.nmt_proofs[j]).start as int,
                    w@.nmt_proofs[j].end as int,
                    w@.nmt_proofs[j].siblings,
                    share_views.subrange(
                        w@.nmt_proofs[j].start as int,
                        w@.nmt_proofs[j].end as int,
                    ),
                ),
        decreases n - i,
    {
        let p = &w.nmt_proofs[i];
        proof {
            let iv = spec_intervals(w@.nmt_proofs);
            assert(iv[i as int] == (w@.nmt_proofs[i as int].start as int, w@.nmt_proofs[
                i as int
            ].end as int));
            crate::nmt::lemma_interval_bounds(iv, share_views.len() as int, i as int);
        }
        let slice = copy_shares(&shares, p.start as usize, p.end as usize);
        let ok = nmt_verify_row(p, &w.row_roots[i], ns, &slice);
        proof {
            let k = i as int;
            assert(p@ == w@.nmt_proofs[k]);
            assert(w.row_roots@[k]@ == w@.row_roots[k]);
            assert(share_views == shares_of(ns.bytes@, rollup_block@));
            assert(slice@.map_values(|s: Vec<u8>| s@) == share_views.subrange(
                w@.nmt_proofs[k].start as int,
                w@.nmt_proofs[k].end as int,
            ));
        }
        if !ok {
            proof {
                let k = i as int;
                assert(!nmt_check(
                    ns.bytes@,
                    w@.row_roots[k],
                    w@.nmt_proofs[k].start as int,
                    w@.nmt_proofs[k].end as int,
                    w@.nmt_proofs[k].siblings,
                    shares_of(ns.bytes@, rollup_block@).subrange(
                        w@.nmt_proofs[k].start as int,
                        w@.nmt_proofs[k].end as int,
                    ),
                ));
                assert(!spec_inclusion_ok(w@, ns.bytes@, rollup_block@, claimed_keccak@));
            }
            return Err(IntegrityError::NmtCoverageMismatch);
        }
        i = i + 1;
    }
    let mut root_hashes: Vec<Vec<u8>> = Vec::new();
    let m: usize = w.row_roots.len();
    let mut j: usize = 0;
    while j < m
        invariant
            j <= m,
            m == w.row_roots@.len(),
            w.wf(),
            root_hashes@.len() == j,
            forall|k: int|
                0 <= k < j ==> (#[trigger] root_hashes@[k])@ == tm_leaf_hash(w@.row_roots[k])
                    && root_hashes@[k]@.len() == 32,
        decreases m - j,
    {
        root_hashes.push(tm_hash_leaf(&w.row_roots[j]));
        j = j + 1;
    }
    proof {
        assert(root_hashes@.map_values(|h: Vec<u8>| h@) =~= w@.row_roots.map_values(
            |r: Seq<u8>| tm_leaf_hash(r),
        ));
    }
    if !verify_range_proof(&w.row_proof, &w.data_root, &root_hashes) {
        return Err(IntegrityError::RowRangeProofFailed);
    }
    Ok(())
}

/// The header fields of the executed EVM block that the per-block output
/// commits to.
pub struct ExecutedBlock {
    pub header_hash: Vec<u8>,
    pub parent_hash: Vec<u8>,
    pub number: u64,
    pub gas_used: u64,
    pub beneficiary: Vec<u8>,
    pub state_root: Vec<u8>,
}

impl ExecutedBlock {
    /// All fixed-size fields have their declared widths.
    pub open spec fn wf(&self) -> bool {
        &&& self.header_hash@.len() == 32
        &&& self.parent_hash@.len() == 32
        &&& self.beneficiary@.len() == 20
        &&& self.state_root@.len() == 32
    }
}

/// Builds the per-block public output from the executed block's header
/// fields, the blob's derived commitment, and the DA header hash.
pub fn build_output(
    executed: ExecutedBlock,
    blob_commitment: Vec<u8>,
    da_header_hash: Vec<u8>,
) -> (r: BlevmOutput)
    requires
        executed.wf(),
        blob_commitment@.len() == 32,
        da_header_hash@.len() == 32,
    ensures
        r.wf(),
        r@.blob_commitment == blob_commitment@,
        r@.header_hash == executed.header_hash@,
        r@.prev_header_hash == executed.parent_hash@,
        r@.height == executed.number,
        r@.gas_used == executed.gas_used,
        r@.beneficiary == executed.beneficiary@,
        r@.state_root == executed.state_root@,
        r@.celestia_header_hash == da_header_hash@,
{
    BlevmOutput {
        blob_commitment,
        header_hash: executed.header_hash,
        prev_header_hash: executed.parent_hash,
        height: executed.number,
        gas_used: executed.gas_used,
        beneficiary: executed.beneficiary,
        state_root: executed.state_root,
        celestia_header_hash: da_header_hash,
    }
}

/// The framing of one range proof inside the witness stream: its range, the
/// number of siblings, then the siblings.
pub open spec fn spec_encode_proof(p: TmRangeProofModel) -> Seq<u8> {
    spec_u64_le(p.start) + spec_u64_le(p.end) + spec_u64_le(p.siblings.len() as u64)
        + spec_concat(p.siblings)
}

/// The framing of one namespaced proof inside the witness stream.
pub open spec fn spec_encode_nmt_proof(p: NmtRangeProofModel) -> Seq<u8> {
    spec_u64_le(p.start) + spec_u64_le(p.end) + spec_u64_le(p.siblings.len() as u64)
        + spec_concat(p.siblings)
}

/// A length-prefixed byte string inside the witness stream.
pub open spec fn spec_lp(b: Seq<u8>) -> Seq<u8> {
    spec_u64_le(b.len() as u64) + b
}

/// The witness stream: every item of the bundle, in its contractual order,
/// with counts and lengths made explicit.
pub open spec fn spec_encode_witness(w: BlockWitnessModel) -> Seq<u8> {
    spec_lp(w.client_executor_input) + spec_lp(w.namespace) + spec_lp(w.da_header_hash) + spec_lp(
        w.data_hash_bytes,
    ) + spec_encode_proof(w.data_hash_proof) + spec_encode_proof(w.row_proof) + spec_lp(
        w.data_root,
    ) + spec_u64_le(w.nmt_proofs.len() as u64) + spec_concat(
        w.nmt_proofs.map_values(|p: NmtRangeProofModel| spec_encode_nmt_proof(p)),
    ) + spec_u64_le(w.row_roots.len() as u64) + spec_concat(
        w.row_roots.map_values(|r: Seq<u8>| spec_lp(r)),
    )
}

/// Appends a length-prefixed byte string to the stream.
fn push_lp(out: &mut Vec<u8>, b: &Vec<u8>)
    ensures
        final(out)@ == old(out)@ + spec_lp(b@),
{
    u64_to_le_bytes(out, b.len() as u64);
    extend_bytes(out, b);
    assert(out@ =~= old(out)@ + spec_lp(b@));
}

/// Appends a list of byte strings to the stream.
fn push_concat(out: &mut Vec<u8>, items: &Vec<Vec<u8>>)
    ensures
        final(out)@ == old(out)@ + spec_concat(items@.map_values(|s: Vec<u8>| s@)),
{
    let ghost target = items@.map_values(|s: Vec<u8>| s@);
    let n: usize = items.len();
    let mut i: usize = 0;
    while i < n
        invariant
            i <= n,
            n == items@.len(),
            target == items@.map_values(|s: Vec<u8>| s@),
            out@ == old(out)@ + spec_concat(target.subrange(0, i as int)),
        decreases n - i,
    {
        extend_bytes(out, &items[i]);
        i = i + 1;
        proof {
            crate::output::lemma_concat_snoc(target.subrange(0, i as int));
            assert(target.subrange(0, i as int).drop_last() =~= target.subrange(0, i as int - 1));
            assert(out@ =~= old(out)@ + spec_concat(target.subrange(0, i as int)));
        }
    }
    assert(target.subrange(0, n as int) =~= target);
}

/// Appends one framed range proof to the stream.
fn push_proof(out: &mut Vec<u8>, p: &TmRangeProof)
    ensures
        final(out)@ == old(out)@ + spec_encode_proof(p@),
{
    u64_to_le_bytes(out, p.start);
    u64_to_le_bytes(out, p.end);
    u64_to_le_bytes(out, p.siblings.len() as u64);
    push_concat(out, &p.siblings);
    assert(out@ =~= old(out)@ + spec_encode_proof(p@));
}

/// Encodes the witness bundle into its byte stream.
pub fn encode_witness(w: &BlockWitness) -> (r: Vec<u8>)
    ensures
        r@ == spec_encode_witness(w@),
{
    let mut out: Vec<u8> = Vec::new();
    push_lp(&mut out, &w.client_executor_input);
    push_lp(&mut out, &w.namespace);
    push_lp(&mut out, &w.da_header_hash);
    push_lp(&mut out, &w.data_hash_bytes);
    push_proof(&mut out, &w.data_hash_proof);
    push_proof(&mut out, &w.row_proof);
    push_lp(&mut out, &w.data_root);
    u64_to_le_bytes(&mut out, w.nmt_proofs.len() as u64);
    let ghost nmt_target = w@.nmt_proofs.map_values(|p: NmtRangeProofModel| spec_encode_nmt_proof(p));
    let ghost before_nmt = out@;
    let n: usize = w.nmt_proofs.len();
    let mut i: usize = 0;
    while i < n
        invariant
            i <= n,
            n == w.nmt_proofs@.len(),
            nmt_target == w@.nmt_proofs.map_values(
                |p: NmtRangeProofModel| spec_encode_nmt_proof(p),
            ),
            nmt_target.len() == n,
            out@ == before_nmt + spec_concat(nmt_target.subrange(0, i as int)),
        decreases n - i,
    {
        let p = &w.nmt_proofs[i];
        u64_to_le_bytes(&mut out, p.start);
        u64_to_le_bytes(&mut out, p.end);
        u64_to_le_bytes(&mut out, p.siblings.len() as u64);
        push_concat(&mut out, &p.siblings);
        i = i + 1;
        proof {
            crate::output::lemma_concat_snoc(nmt_target.subrange(0, i as int));
            assert(nmt_target.subrange(0, i as int).drop_last() =~= nmt_target.subrange(
                0,
                i as int - 1,
            ));
            assert(nmt_target[i as int - 1] == spec_encode_nmt_proof(w@.nmt_proofs[i as int - 1]));
            assert(out@ =~= before_nmt + spec_concat(nmt_target.subrange(0, i as int)));
        }
    }
    proof {
        assert(nmt_target.subrange(0, n as int) =~= nmt_target);
    }
    u64_to_le_bytes(&mut out, w.row_roots.len() as u64);
    let ghost roots_target = w@.row_roots.map_values(|r: Seq<u8>| spec_lp(r));
    let ghost before_roots = out@;
    let m: usize = w.row_roots.len();
    let mut j: usize = 0;
    while j < m
        invariant
            j <= m,
            m == w.row_roots@.len(),
            roots_target == w@.row_roots.map_values(|r: Seq<u8>| spec_lp(r)),
            roots_target.len() == m,
            out@ == before_roots + spec_concat(roots_target.subrange(0, j as int)),
        decreases m - j,
    {
        push_lp(&mut out, &w.row_roots[j]);
        j = j + 1;
        proof {
            crate::output::lemma_concat_snoc(roots_target.subrange(0, j as int));
            assert(roots_target.subrange(0, j as int).drop_last() =~= roots_target.subrange(
                0,
                j as int - 1,
            ));
            assert(roots_target[j as int - 1] == spec_lp(w@.row_roots[j as int - 1]));
            assert(out@ =~= before_roots + spec_concat(roots_target.subrange(0, j as int)));
        }
    }
    proof {
        assert(roots_target.subrange(0, m as int) =~= roots_target);
        assert(out@ =~= spec_encode_witness(w@));
    }
    out
}

} // verus!
