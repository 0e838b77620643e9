//! The public outputs committed by the proving programs: the per-block record
//! and the aggregate record, with their fixed byte layouts.
//!
//! The per-block record is exactly 196 bytes:
//! `blob_commitment(32) || header_hash(32) || prev_header_hash(32) ||
//! height(u64 LE) || gas_used(u64 LE) || beneficiary(20) || state_root(32) ||
//! celestia_header_hash(32)`.

use vstd::prelude::*;
use crate::codec::{spec_u64_le, spec_u64_from_le, u64_to_le_bytes, u64_from_le_bytes};

verus! {

/// Per-block public output: what one execution of the per-block program
/// commits to.
pub struct BlevmOutput {
    pub blob_commitment: Vec<u8>,
    pub header_hash: Vec<u8>,
    pub prev_header_hash: Vec<u8>,
    pub height: u64,
    pub gas_used: u64,
    pub beneficiary: Vec<u8>,
    pub state_root: Vec<u8>,
    pub celestia_header_hash: Vec<u8>,
}

/// Mathematical model of a per-block output.
#[verifier::ext_equal]
pub ghost struct BlevmOutputModel {
    pub blob_commitment: Seq<u8>,
    pub header_hash: Seq<u8>,
    pub prev_header_hash: Seq<u8>,
    pub height: u64,
    pub gas_used: u64,
    pub beneficiary: Seq<u8>,
    pub state_root: Seq<u8>,
    pub celestia_header_hash: Seq<u8>,
}

impl View for BlevmOutput {
    type V = BlevmOutputModel;

    open spec fn view(&self) -> BlevmOutputModel {
        BlevmOutputModel {
            blob_commitment: self.blob_commitment@,
            header_hash: self.header_hash@,
            prev_header_hash: self.prev_header_hash@,
            height: self.height,
            gas_used: self.gas_used,
            beneficiary: self.beneficiary@,
            state_root: self.state_root@,
            celestia_header_hash: self.celestia_header_hash@,
        }
    }
}

impl BlevmOutputModel {
    /// All fixed-size fields have their declared widths.
    pub open spec fn wf(self) -> bool {
        &&& self.blob_commitment.len() == 32
        &&& self.header_hash.len() == 32
        &&& self.prev_header_hash.len() == 32
        &&& self.beneficiary.len() == 20
        &&& self.state_root.len() == 32
        &&& self.celestia_header_hash.len() == 32
    }
}

impl BlevmOutput {
    /// All fixed-size fields have their declared widths.
    pub open spec fn wf(&self) -> bool {
        self@.wf()
    }
}

/// Number of bytes in an encoded per-block output.
pub const BLEVM_OUTPUT_LEN: usize = 196;

/// The fixed byte layout of a per-block output.
pub open spec fn spec_encode_output(o: BlevmOutputModel) -> Seq<u8> {
    o.blob_commitment + o.header_hash + o.prev_header_hash + spec_u64_le(o.height)
        + spec_u64_le(o.gas_used) + o.beneficiary + o.state_root + o.celestia_header_hash
}

/// The per-block output read back from 196 bytes; `None` when the length is
/// wrong.
pub open spec fn spec_decode_output(b: Seq<u8>) -> Option<BlevmOutputModel> {
    if b.len() == BLEVM_OUTPUT_LEN {
        Some(BlevmOutputModel {
            blob_commitment: b.subrange(0, 32),
            header_hash: b.subrange(32, 64),
            prev_header_hash: b.subrange(64, 96),
            height: spec_u64_from_le(b.subrange(96, 104)),
            gas_used: spec_u64_from_le(b.subrange(104, 112)),
            beneficiary: b.subrange(112, 132),
            state_root: b.subrange(132, 164),
            celestia_header_hash: b.subrange(164, 196),
        })
    } else {
        None
    }
}

/// Appends all bytes of `src` to `out`.
pub fn extend_bytes(out: &mut Vec<u8>, src: &Vec<u8>)
    ensures
        final(out)@ == old(out)@ + src@,
{
    let n: usize = src.len();
    let mut i: usize = 0;
    while i < n
        invariant
            i <= n,
            n == src@.len(),
            out@ == old(out)@ + src@.subrange(0, i as int),
        decreases n - i,
    {
        out.push(src[i]);
        i = i + 1;
        assert(out@ =~= old(out)@ + src@.subrange(0, i as int));
    }
    assert(out@ =~= old(out)@ + src@);
}

impl BlevmOutput {
    /// Encodes the record into its fixed 196-byte layout.
    pub fn encode(&self) -> (r: Vec<u8>)
        requires
            self.wf(),
        ensures
            r@ == spec_encode_output(self@),
            r@.len() == BLEVM_OUTPUT_LEN,
    {
        let mut out: Vec<u8> = Vec::new();
        extend_bytes(&mut out, &self.blob_commitment);
        extend_bytes(&mut out, &self.header_hash);
        extend_bytes(&mut out, &self.prev_header_hash);
        u64_to_le_bytes(&mut out, self.height);
        u64_to_le_bytes(&mut out, self.gas_used);
        extend_bytes(&mut out, &self.beneficiary);
        extend_bytes(&mut out, &self.state_root);
        extend_bytes(&mut out, &self.celestia_header_hash);
        assert(out@ =~= spec_encode_output(self@));
        out
    }

    /// Decodes a fixed 196-byte layout back into the record. Returns `None`
    /// exactly when the input is not 196 bytes long.
    pub fn decode(b: &Vec<u8>) -> (r: Option<BlevmOutput>)
        ensures
            r matches Some(o) ==> Some(o@) == spec_decode_output(b@) && o.wf(),
            r is Some <==> b@.len() == BLEVM_OUTPUT_LEN,
    {
        if b.len() != BLEVM_OUTPUT_LEN {
            return None;
        }
        let blob_commitment = copy_range(b, 0, 32);
        let header_hash = copy_range(b, 32, 64);
        let prev_header_hash = copy_range(b, 64, 96);
        let height = u64_from_le_bytes(b, 96);
        let gas_used = u64_from_le_bytes(b, 104);
        let beneficiary = copy_range(b, 112, 132);
        let state_root = copy_range(b, 132, 164);
        let celestia_header_hash = copy_range(b, 164, 196);
        let o = BlevmOutput {
            blob_commitment,
            header_hash,
            prev_header_hash,
            height,
            gas_used,
            beneficiary,
            state_root,
            celestia_header_hash,
        };
        assert(Some(o@) =~= spec_decode_output(b@));
        Some(o)
    }
}

/// Copies `b[start .. end]` into a fresh vector.
pub fn copy_range(b: &Vec<u8>, start: usize, end: usize) -> (r: Vec<u8>)
    requires
        start <= end <= b@.len(),
    ensures
        r@ == b@.subrange(start as int, end as int),
{
    let mut out: Vec<u8> = Vec::new();
    let mut i: usize = start;
    while i < end
        invariant
            start <= i <= end <= b@.len(),
            out@ == b@.subrange(start as int, i as int),
        decreases end - i,
    {
        out.push(b[i]);
        i = i + 1;
        assert(out@ =~= b@.subrange(start as int, i as int));
    }
    out
}

/// Round trip: decoding the bytes produced by the per-block encoder yields
/// the source record, field for field.
pub proof fn lemma_output_round_trip(o: BlevmOutputModel)
    requires
        o.wf(),
    ensures
        spec_decode_output(spec_encode_output(o)) == Some(o),
{
    let b = spec_encode_output(o);
    assert(b.len() == 196);
    assert(b.subrange(0, 32) =~= o.blob_commitment);
    assert(b.subrange(32, 64) =~= o.header_hash);
    assert(b.subrange(64, 96) =~= o.prev_header_hash);
    assert(b.subrange(96, 104) =~= spec_u64_le(o.height));
    assert(b.subrange(104, 112) =~= spec_u64_le(o.gas_used));
    assert(b.subrange(112, 132) =~= o.beneficiary);
    assert(b.subrange(132, 164) =~= o.state_root);
    assert(b.subrange(164, 196) =~= o.celestia_header_hash);
    crate::codec::lemma_u64_le_round_trip(o.height);
    crate::codec::lemma_u64_le_round_trip(o.gas_used);
    assert(spec_decode_output(b) =~= Some(o));
}

/// Aggregate public output: what the aggregation program commits to for a
/// proven interval of rollup blocks.
pub struct BlevmAggOutput {
    pub newest_header_hash: Vec<u8>,
    pub oldest_header_hash: Vec<u8>,
    pub celestia_header_hashes: Vec<Vec<u8>>,
    pub newest_state_root: Vec<u8>,
    pub newest_height: u64,
}

/// Mathematical model of an aggregate output.
#[verifier::ext_equal]
pub ghost struct BlevmAggOutputModel {
    pub newest_header_hash: Seq<u8>,
    pub oldest_header_hash: Seq<u8>,
    pub celestia_header_hashes: Seq<Seq<u8>>,
    pub newest_state_root: Seq<u8>,
    pub newest_height: u64,
}

impl View for BlevmAggOutput {
    type V = BlevmAggOutputModel;

    open spec fn view(&self) -> BlevmAggOutputModel {
        BlevmAggOutputModel {
            newest_header_hash: self.newest_header_hash@,
            oldest_header_hash: self.oldest_header_hash@,
            celestia_header_hashes: self.celestia_header_hashes@.map_values(|h: Vec<u8>| h@),
            newest_state_root: self.newest_state_root@,
            newest_height: self.newest_height,
        }
    }
}

impl BlevmAggOutputModel {
    /// All fixed-size fields have their declared widths.
    pub open spec fn wf(self) -> bool {
        &&& self.newest_header_hash.len() == 32
        &&& self.oldest_header_hash.len() == 32
        &&& forall|i: int|
            0 <= i < self.celestia_header_hashes.len()
                ==> (#[trigger] self.celestia_header_hashes[i]).len() == 32
        &&& self.newest_state_root.len() == 32
    }
}

impl BlevmAggOutput {
    /// All fixed-size fields have their declared widths.
    pub open spec fn wf(&self) -> bool {
        self@.wf()
    }
}

/// Concatenation of a sequence of byte strings.
pub open spec fn spec_concat(items: Seq<Seq<u8>>) -> Seq<u8>
    decreases items.len(),
{
    if items.len() == 0 {
        Seq::empty()
    } else {
        items.first() + spec_concat(items.drop_first())
    }
}

/// The deterministic byte layout of an aggregate output: the two boundary
/// header hashes, a count-prefixed list of DA header hashes, the newest state
/// root, and the newest height.
pub open spec fn spec_encode_agg_output(a: BlevmAggOutputModel) -> Seq<u8> {
    a.newest_header_hash + a.oldest_header_hash
        + spec_u64_le(a.celestia_header_hashes.len() as u64)
        + spec_concat(a.celestia_header_hashes) + a.newest_state_root
        + spec_u64_le(a.newest_height)
}

impl BlevmAggOutput {
    /// Encodes the aggregate record into its deterministic byte layout.
    pub fn encode(&self) -> (r: Vec<u8>)
        requires
            self.wf(),
            self.celestia_header_hashes@.len() <= u64::MAX,
        ensures
            r@ == spec_encode_agg_output(self@),
    {
        let mut out: Vec<u8> = Vec::new();
        extend_bytes(&mut out, &self.newest_header_hash);
        extend_bytes(&mut out, &self.oldest_header_hash);
        let n: usize = self.celestia_header_hashes.len();
        u64_to_le_bytes(&mut out, n as u64);
        let ghost hashes = self@.celestia_header_hashes;
        let ghost prefix = out@;
        let mut i: usize = 0;
        while i < n
            invariant
                i <= n,
                n == hashes.len(),
                hashes == self@.celestia_header_hashes,
                self.celestia_header_hashes@.len() == n,
                forall|j: int|
                    0 <= j < n ==> (#[trigger] self.celestia_header_hashes@[j])@ == hashes[j],
                out@ == prefix + spec_concat(hashes.subrange(0, i as int)),
            decreases n - i,
        {
            extend_bytes(&mut out, &self.celestia_header_hashes[i]);
            i = i + 1;
            proof {
                lemma_concat_snoc(hashes.subrange(0, i as int));
                assert(hashes.subrange(0, i as int).drop_last()
                    =~= hashes.subrange(0, i as int - 1));
                assert(out@ =~= prefix + spec_concat(hashes.subrange(0, i as int)));
            }
        }
        assert(hashes.subrange(0, n as int) =~= hashes);
        extend_bytes(&mut out, &self.newest_state_root);
        u64_to_le_bytes(&mut out, self.newest_height);
        assert(out@ =~= spec_encode_agg_output(self@));
        out
    }
}

/// Concatenation of a non-empty list equals the concatenation of its prefix
/// followed by its last element.
pub proof fn lemma_concat_snoc(items: Seq<Seq<u8>>)
    requires
        items.len() > 0,
    ensures
        spec_concat(items) == spec_concat(items.drop_last()) + items.last(),
    decreases items.len(),
{
    if items.len() == 1 {
        assert(items.drop_first() =~= Seq::<Seq<u8>>::empty());
        assert(items.drop_last() =~= Seq::<Seq<u8>>::empty());
        assert(spec_concat(Seq::<Seq<u8>>::empty()) =~= Seq::<u8>::empty());
        assert(spec_concat(items) =~= items.last());
    } else {
        lemma_concat_snoc(items.drop_first());
        assert(items.drop_first().drop_last() =~= items.drop_last().drop_first());
        assert(items.drop_last().first() =~= items.first());
        assert(items.drop_first().last() =~= items.last());
        assert(spec_concat(items) =~= items.first() + spec_concat(items.drop_first()));
        assert(spec_concat(items.drop_last()) =~= items.first() + spec_concat(
            items.drop_last().drop_first(),
        ));
        assert(spec_concat(items) =~= spec_concat(items.drop_last()) + items.last());
    }
}

} // verus!
