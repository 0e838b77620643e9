//! The aggregation program's logic: parse per-block public outputs, enforce
//! block-chain continuity, and emit the aggregate public output, together
//! with the witness framing handed to the aggregation program.

use vstd::prelude::*;
use crate::codec::{spec_u64_le, u64_to_le_bytes, bytes_eq};
use crate::output::{
    BlevmOutput, BlevmOutputModel, BlevmAggOutput, BlevmAggOutputModel, BLEVM_OUTPUT_LEN,
    spec_decode_output, spec_concat, copy_range, extend_bytes,
};

verus! {

/// Why aggregation was refused.
#[derive(Debug)]
pub enum AggregateError {
    /// Fewer than two per-block outputs were supplied.
    AggregationTooSmall,
    /// Some public-value blob is not a well-formed per-block output.
    MalformedOutput,
    /// The number of verifying keys differs from the number of public-value
    /// blobs.
    InputMismatch,
    /// Two adjacent per-block outputs do not chain: the later block's
    /// previous-header hash differs from the earlier block's header hash.
    ChainMismatch,
}

/// The SHA-256 digest of a byte string.
pub uninterp spec fn sha256_of(data: Seq<u8>) -> Seq<u8>;

/// Relies on sha2's `Sha256::digest`: the 32-byte SHA-256 digest, a function
/// of the input bytes alone.
#[verifier::external_body]
pub fn sha256(data: &Vec<u8>) -> (r: Vec<u8>)
    ensures
        r@ == sha256_of(data@),
        r@.len() == 32,
{
    <sha2::Sha256 as sha2::Digest>::digest(data.as_slice()).to_vec()
}

/// Adjacent per-block outputs chain: each block's previous-header hash equals
/// the header hash of the block before it.
pub open spec fn outputs_chained(outs: Seq<BlevmOutputModel>) -> bool {
    forall|i: int|
        1 <= i < outs.len() ==> (#[trigger] outs[i]).prev_header_hash == outs[
            i - 1
        ].header_hash
}

/// The models of a vector of per-block outputs.
pub open spec fn output_models(outs: Seq<BlevmOutput>) -> Seq<BlevmOutputModel> {
    outs.map_values(|o: BlevmOutput| o@)
}

/// Checks block-chain continuity over a list of per-block outputs.
pub fn check_chaining(outs: &Vec<BlevmOutput>) -> (r: bool)
    ensures
        r <==> outputs_chained(output_models(outs@)),
{
    let n: usize = outs.len();
    let mut i: usize = 1;
    if n == 0 {
        return true;
    }
    while i < n
        invariant
            1 <= i <= n,
            n == outs@.len(),
            forall|j: int|
                1 <= j < i ==> (#[trigger] outs@[j])@.prev_header_hash == outs@[
                    j - 1
                ]@.header_hash,
        decreases n - i,
    {
        if !bytes_eq(&outs[i].prev_header_hash, &outs[i - 1].header_hash) {
            proof {
                let models = output_models(outs@);
                assert(models[i as int] == outs@[i as int]@);
                assert(models[i as int - 1] == outs@[i as int - 1]@);
                assert(models[i as int].prev_header_hash != models[i as int - 1].header_hash);
                assert(!outputs_chained(models));
            }
            return false;
        }
        i = i + 1;
    }
    true
}

/// The aggregate record owed for a list of per-block outputs: defined exactly
/// when at least two outputs are given and every adjacent pair chains; it
/// then carries the oldest and newest header hashes, all DA header hashes in
/// input order, and the newest state root and height.
pub open spec fn spec_aggregate(outs: Seq<BlevmOutputModel>) -> Option<BlevmAggOutputModel> {
    if outs.len() >= 2 && outputs_chained(outs) {
        Some(
            BlevmAggOutputModel {
                newest_header_hash: outs.last().header_hash,
                oldest_header_hash: outs[0].header_hash,
                celestia_header_hashes: outs.map_values(
                    |o: BlevmOutputModel| o.celestia_header_hash,
                ),
                newest_state_root: outs.last().state_root,
                newest_height: outs.last().height,
            },
        )
    } else {
        None
    }
}

/// Builds the aggregate public output from chained per-block outputs.
pub fn aggregate_outputs(outs: &Vec<BlevmOutput>) -> (r: Result<BlevmAggOutput, AggregateError>)
    requires
        forall|i: int| 0 <= i < outs@.len() ==> (#[trigger] outs@[i]).wf(),
    ensures
        r is Ok <==> spec_aggregate(output_models(outs@)) is Some,
        r matches Err(e) ==> (e is AggregationTooSmall <==> outs@.len() < 2),
        r matches Ok(a) ==> Some(a@) == spec_aggregate(output_models(outs@)) && a.wf(),
{
    let n: usize = outs.len();
    if n < 2 {
        return Err(AggregateError::AggregationTooSmall);
    }
    if !check_chaining(outs) {
        return Err(AggregateError::ChainMismatch);
    }
    let mut celestia_header_hashes: Vec<Vec<u8>> = Vec::new();
    let mut i: usize = 0;
    while i < n
        invariant
            i <= n,
            n == outs@.len(),
            celestia_header_hashes@.len() == i,
            forall|j: int|
                0 <= j < i ==> (#[trigger] celestia_header_hashes@[j])@ == outs@[
                    j
                ]@.celestia_header_hash,
        decreases n - i,
    {
        let h = &outs[i].celestia_header_hash;
        celestia_header_hashes.push(copy_range(h, 0, h.len()));
        i = i + 1;
    }
    let newest = &outs[n - 1];
    let oldest = &outs[0];
    let a = BlevmAggOutput {
        newest_header_hash: copy_range(&newest.header_hash, 0, newest.header_hash.len()),
        oldest_header_hash: copy_range(&oldest.header_hash, 0, oldest.header_hash.len()),
        celestia_header_hashes,
        newest_state_root: copy_range(&newest.state_root, 0, newest.state_root.len()),
        newest_height: newest.height,
    };
    proof {
        assert(a@.celestia_header_hashes =~= output_models(outs@).map_values(
            |o: BlevmOutputModel| o.celestia_header_hash,
        ));
        assert(output_models(outs@).last() == outs@.last()@);
        assert(Some(a@) =~= spec_aggregate(output_models(outs@)));
    }
    Ok(a)
}

/// Decodes each public-value blob into a per-block output. Succeeds exactly
/// when every blob has the fixed per-block length.
pub fn parse_outputs(public_values: &Vec<Vec<u8>>) -> (r: Result<
    Vec<BlevmOutput>,
    AggregateError,
>)
    ensures
        r is Ok <==> forall|i: int|
            0 <= i < public_values@.len() ==> (#[trigger] public_values@[i])@.len()
                == BLEVM_OUTPUT_LEN,
        r matches Ok(v) ==> {
            &&& v@.len() == public_values@.len()
            &&& forall|i: int|
                0 <= i < v@.len() ==> Some((#[trigger] v@[i])@) == spec_decode_output(
                    public_values@[i]@,
                ) && v@[i].wf()
        },
{
    let n: usize = public_values.len();
    let mut outs: Vec<BlevmOutput> = Vec::new();
    let mut i: usize = 0;
    while i < n
        invariant
            i <= n,
            n == public_values@.len(),
            outs@.len() == i,
            forall|j: int|
                0 <= j < i ==> (#[trigger] public_values@[j])@.len() == BLEVM_OUTPUT_LEN,
            forall|j: int|
                0 <= j < i ==> Some((#[trigger] outs@[j])@) == spec_decode_output(
                    public_values@[j]@,
                ) && outs@[j].wf(),
        decreases n - i,
    {
        match BlevmOutput::decode(&public_values[i]) {
            Some(o) => {
                proof {
                    let m = spec_decode_output(public_values@[i as int]@).unwrap();
                    assert(m.wf()) by {
                        assert(o@ == m);
                    }
                }
                outs.push(o);
            },
            None => {
                return Err(AggregateError::MalformedOutput);
            },
        }
        i = i + 1;
    }
    Ok(outs)
}

/// The aggregation program's computation on its public inputs: given one
/// verifying-key hash and one public-value blob per inner proof, decode the
/// per-block outputs, enforce continuity, and emit the aggregate output
/// together with the SHA-256 digest of each public-value blob (the digest
/// each inner proof must verify against).
pub fn run_aggregator(vk_hashes: &Vec<Vec<u8>>, public_values: &Vec<Vec<u8>>) -> (r: Result<
    (BlevmAggOutput, Vec<Vec<u8>>),
    AggregateError,
>)
    ensures
        r matches Ok((a, digests)) ==> {
            &&& vk_hashes@.len() == public_values@.len()
            &&& public_values@.len() >= 2
            &&& digests@.len() == public_values@.len()
            &&& forall|i: int|
                0 <= i < digests@.len() ==> (#[trigger] digests@[i])@ == sha256_of(
                    public_values@[i]@,
                )
            &&& a.wf()
            &&& Some(a@) == spec_aggregate(
                public_values@.map_values(|b: Vec<u8>| spec_decode_output(b@).unwrap()),
            )
        },
        r is Ok <==> {
            &&& vk_hashes@.len() == public_values@.len()
            &&& public_values@.len() >= 2
            &&& (forall|i: int|
                0 <= i < public_values@.len() ==> (#[trigger] public_values@[i])@.len()
                    == BLEVM_OUTPUT_LEN)
            &&& outputs_chained(
                public_values@.map_values(|b: Vec<u8>| spec_decode_output(b@).unwrap()),
            )
        },
{
    if vk_hashes.len() != public_values.len() {
        return Err(AggregateError::InputMismatch);
    }
    if public_values.len() < 2 {
        return Err(AggregateError::AggregationTooSmall);
    }
    let outs = match parse_outputs(public_values) {
        Ok(v) => v,
        Err(e) => {
            return Err(e);
        },
    };
    proof {
        assert(output_models(outs@) =~= public_values@.map_values(
            |b: Vec<u8>| spec_decode_output(b@).unwrap(),
        ));
    }
    let agg = match aggregate_outputs(&outs) {
        Ok(a) => a,
        Err(e) => {
            return Err(e);
        },
    };
    let n: usize = public_values.len();
    let mut digests: Vec<Vec<u8>> = Vec::new();
    let mut i: usize = 0;
    while i < n
        invariant
            i <= n,
            n == public_values@.len(),
            digests@.len() == i,
            forall|j: int|
                0 <= j < i ==> (#[trigger] digests@[j])@ == sha256_of(public_values@[j]@),
        decreases n - i,
    {
        digests.push(sha256(&public_values[i]));
        i = i + 1;
    }
    Ok((agg, digests))
}

/// One inner proof handed to the aggregator: the compressed proof bytes, the
/// opaque verifying key, its 32-byte hash, and the proof's public values.
pub struct AggregationInput {
    pub proof: Vec<u8>,
    pub vk: Vec<u8>,
    pub vk_hash: Vec<u8>,
    pub public_values: Vec<u8>,
}

/// Output from proof aggregation: the aggregated proof bytes and the bytes it
/// commits to.
pub struct AggregationOutput {
    pub proof: Vec<u8>,
    pub public_values: Vec<u8>,
}

/// The witness stream handed to the aggregation program: the number of inner
/// proofs, then every verifying-key hash, then every length-prefixed
/// public-value blob, then every length-prefixed compressed proof.
pub open spec fn spec_agg_witness(
    vk_hashes: Seq<Seq<u8>>,
    public_values: Seq<Seq<u8>>,
    proofs: Seq<Seq<u8>>,
) -> Seq<u8> {
    spec_u64_le(vk_hashes.len() as u64) + spec_concat(vk_hashes) + spec_concat(
        public_values.map_values(|b: Seq<u8>| spec_u64_le(b.len() as u64) + b),
    ) + spec_concat(proofs.map_values(|b: Seq<u8>| spec_u64_le(b.len() as u64) + b))
}

/// Frames the aggregation witness. Succeeds exactly when at least two inner
/// proofs are given and every verifying-key hash is 32 bytes.
pub fn aggregate_witness(inputs: &Vec<AggregationInput>) -> (r: Result<Vec<u8>, AggregateError>)
    ensures
        r is Ok <==> inputs@.len() >= 2 && (forall|i: int|
            0 <= i < inputs@.len() ==> (#[trigger] inputs@[i]).vk_hash@.len() == 32),
        r matches Ok(w) ==> w@ == spec_agg_witness(
            inputs@.map_values(|x: AggregationInput| x.vk_hash@),
            inputs@.map_values(|x: AggregationInput| x.public_values@),
            inputs@.map_values(|x: AggregationInput| x.proof@),
        ),
        r matches Err(e) ==> (e is AggregationTooSmall <==> inputs@.len() < 2),
{
    let n: usize = inputs.len();
    if n < 2 {
        return Err(AggregateError::AggregationTooSmall);
    }
    let mut i: usize = 0;
    while i < n
        invariant
            i <= n,
            2 <= n,
            n == inputs@.len(),
            forall|j: int| 0 <= j < i ==> (#[trigger] inputs@[j]).vk_hash@.len() == 32,
        decreases n - i,
    {
        if inputs[i].vk_hash.len() != 32 {
            return Err(AggregateError::MalformedOutput);
        }
        i = i + 1;
    }
    let ghost vk_seq = inputs@.map_values(|x: AggregationInput| x.vk_hash@);
    let ghost pv_seq = inputs@.map_values(
        |x: AggregationInput| spec_u64_le(x.public_values@.len() as u64) + x.public_values@,
    );
    let ghost pf_seq = inputs@.map_values(
        |x: AggregationInput| spec_u64_le(x.proof@.len() as u64) + x.proof@,
    );
    let mut out: Vec<u8> = Vec::new();
    u64_to_le_bytes(&mut out, n as u64);
    append_all_plain(&mut out, inputs, Ghost(vk_seq));
    append_all_prefixed_pv(&mut out, inputs, Ghost(pv_seq));
    append_all_prefixed_proof(&mut out, inputs, Ghost(pf_seq));
    proof {
        assert(inputs@.map_values(|x: AggregationInput| x.public_values@).map_values(
            |b: Seq<u8>| spec_u64_le(b.len() as u64) + b,
        ) =~= pv_seq);
        assert(inputs@.map_values(|x: AggregationInput| x.proof@).map_values(
            |b: Seq<u8>| spec_u64_le(b.len() as u64) + b,
        ) =~= pf_seq);
        assert(out@ =~= spec_agg_witness(
            vk_seq,
            inputs@.map_values(|x: AggregationInput| x.public_values@),
            inputs@.map_values(|x: AggregationInput| x.proof@),
        ));
    }
    Ok(out)
}

/// Appends every verifying-key hash, in order.
fn append_all_plain(out: &mut Vec<u8>, inputs: &Vec<AggregationInput>, Ghost(items): Ghost<Seq<Seq<u8>>>)
    requires
        items == inputs@.map_values(|x: AggregationInput| x.vk_hash@),
    ensures
        final(out)@ == old(out)@ + spec_concat(items),
{
    let n: usize = inputs.len();
    let mut i: usize = 0;
    while i < n
        invariant
            i <= n,
            n == inputs@.len(),
            items == inputs@.map_values(|x: AggregationInput| x.vk_hash@),
            out@ == old(out)@ + spec_concat(items.subrange(0, i as int)),
        decreases n - i,
    {
        extend_bytes(out, &inputs[i].vk_hash);
        i = i + 1;
        proof {
            crate::output::lemma_concat_snoc(items.subrange(0, i as int));
            assert(items.subrange(0, i as int).drop_last() =~= items.subrange(0, i as int - 1));
            assert(out@ =~= old(out)@ + spec_concat(items.subrange(0, i as int)));
        }
    }
    assert(items.subrange(0, n as int) =~= items);
}

/// Appends every public-value blob, each preceded by its length.
fn append_all_prefixed_pv(
    out: &mut Vec<u8>,
    inputs: &Vec<AggregationInput>,
    Ghost(items): Ghost<Seq<Seq<u8>>>,
)
    requires
        items == inputs@.map_values(
            |x: AggregationInput| spec_u64_le(x.public_values@.len() as u64) + x.public_values@,
        ),
    ensures
        final(out)@ == old(out)@ + spec_concat(items),
{
    let n: usize = inputs.len();
    let mut i: usize = 0;
    while i < n
        invariant
            i <= n,
            n == inputs@.len(),
            items == inputs@.map_values(
                |x: AggregationInput| spec_u64_le(x.public_values@.len() as u64)
                    + x.public_values@,
            ),
            out@ == old(out)@ + spec_concat(items.subrange(0, i as int)),
        decreases n - i,
    {
        let b = &inputs[i].public_values;
        u64_to_le_bytes(out, b.len() as u64);
        extend_bytes(out, b);
        i = i + 1;
        proof {
            crate::output::lemma_concat_snoc(items.subrange(0, i as int));
            assert(items.subrange(0, i as int).drop_last() =~= items.subrange(0, i as int - 1));
            assert(out@ =~= old(out)@ + spec_concat(items.subrange(0, i as int)));
        }
    }
    assert(items.subrange(0, n as int) =~= items);
}

/// Appends every compressed proof, each preceded by its length.
fn append_all_prefixed_proof(
    out: &mut Vec<u8>,
    inputs: &Vec<AggregationInput>,
    Ghost(items): Ghost<Seq<Seq<u8>>>,
)
    requires
        items == inputs@.map_values(
            |x: AggregationInput| spec_u64_le(x.proof@.len() as u64) + x.proof@,
        ),
    ensures
        final(out)@ == old(out)@ + spec_concat(items),
{
    let n: usize = inputs.len();
    let mut i: usize = 0;
    while i < n
        invariant
            i <= n,
            n == inputs@.len(),
            items == inputs@.map_values(
                |x: AggregationInput| spec_u64_le(x.proof@.len() as u64) + x.proof@,
            ),
            out@ == old(out)@ + spec_concat(items.subrange(0, i as int)),
        decreases n - i,
    {
        let b = &inputs[i].proof;
        u64_to_le_bytes(out, b.len() as u64);
        extend_bytes(out, b);
        i = i + 1;
        proof {
            crate::output::lemma_concat_snoc(items.subrange(0, i as int));
            assert(items.subrange(0, i as int).drop_last() =~= items.subrange(0, i as int - 1));
            assert(out@ =~= old(out)@ + spec_concat(items.subrange(0, i as int)));
        }
    }
    assert(items.subrange(0, n as int) =~= items);
}

/// For any aggregation input of two or more per-block outputs that satisfy
/// chaining, aggregation is owed: it succeeds, reports the newest height, and
/// carries exactly one DA header hash per block, in input order.
pub proof fn lemma_aggregate_chained(outs: Seq<BlevmOutputModel>)
    requires
        outs.len() >= 2,
        outputs_chained(outs),
    ensures
        spec_aggregate(outs) matches Some(a) && {
            &&& a.newest_height == outs[outs.len() - 1].height
            &&& a.celestia_header_hashes.len() == outs.len()
            &&& forall|i: int|
                0 <= i < outs.len() ==> #[trigger] a.celestia_header_hashes[i] == outs[
                    i
                ].celestia_header_hash
        },
{
}

} // verus!
