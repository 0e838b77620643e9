//! Blobs and namespaces: the namespace's own representation and validity, and
//! the blob operations taken from the DA chain's type library — share
//! splitting, the content commitment, and namespaced range verification.

use vstd::prelude::*;
use celestia_types::nmt::{Namespace, NamespacedSha2Hasher};
use nmt_rs::NamespacedHash;
use crate::hexutil::{hex_decode, spec_hex_decode};
use crate::nmt::NmtRangeProof;

verus! {

/// Number of bytes in a namespace: one version byte and a 28-byte id.
pub const NAMESPACE_LEN: usize = 29;

/// Number of leading id bytes a version-zero namespace must leave zero.
pub const NS_V0_ZERO_PREFIX: usize = 18;

/// A namespace in its raw 29-byte form, version zero: a zero version byte,
/// eighteen zero id bytes, and a ten-byte user suffix.
pub struct BlobNamespace {
    pub bytes: Vec<u8>,
}

impl BlobNamespace {
    /// A version-zero namespace: 29 bytes whose first nineteen are zero.
    pub open spec fn wf(&self) -> bool {
        &&& self.bytes@.len() == NAMESPACE_LEN
        &&& forall|i: int| 0 <= i < NS_V0_ZERO_PREFIX + 1 ==> self.bytes@[i] == 0
    }
}

/// Failures of namespace construction.
#[derive(Debug)]
pub enum NamespaceError {
    /// The id has the wrong length, or reserved bytes are not zero.
    InvalidNamespaceV0,
    /// The configured namespace is not valid hex.
    BadNamespaceHex,
}

/// Whether an id is acceptable for a version-zero namespace: either a full
/// 28-byte id whose first eighteen bytes are zero, or a suffix of at most ten
/// bytes.
pub open spec fn spec_ns_id_ok(id: Seq<u8>) -> bool {
    ||| (id.len() == 28 && forall|i: int| 0 <= i < NS_V0_ZERO_PREFIX ==> id[i] == 0)
    ||| id.len() <= 10
}

/// The 29 namespace bytes built from an acceptable id: zeros, then the id's
/// user suffix right-aligned.
pub open spec fn spec_ns_bytes(id: Seq<u8>) -> Seq<u8>
    recommends
        spec_ns_id_ok(id),
{
    let suffix = if id.len() == 28 {
        id.skip(NS_V0_ZERO_PREFIX as int)
    } else {
        id
    };
    Seq::new((29 - suffix.len()) as nat, |i: int| 0u8) + suffix
}

/// Builds a version-zero namespace from an id. Accepts exactly the ids whose
/// reserved prefix is zero: a full 28-byte id with eighteen zero bytes, or a
/// user suffix of at most ten bytes.
pub fn namespace_v0(id: &Vec<u8>) -> (r: Result<BlobNamespace, NamespaceError>)
    ensures
        r is Ok <==> spec_ns_id_ok(id@),
        r matches Ok(ns) ==> ns.wf() && ns.bytes@ == spec_ns_bytes(id@),
{
    let suffix_start: usize = if id.len() == 28 {
        let mut i: usize = 0;
        while i < NS_V0_ZERO_PREFIX
            invariant
                i <= NS_V0_ZERO_PREFIX,
                id@.len() == 28,
                forall|j: int| 0 <= j < i ==> id@[j] == 0,
            decreases NS_V0_ZERO_PREFIX - i,
        {
            if id[i] != 0 {
                return Err(NamespaceError::InvalidNamespaceV0);
            }
            i = i + 1;
        }
        NS_V0_ZERO_PREFIX
    } else if id.len() <= 10 {
        0
    } else {
        proof {
            assert(!spec_ns_id_ok(id@));
        }
        return Err(NamespaceError::InvalidNamespaceV0);
    };
    let suffix_len: usize = id.len() - suffix_start;
    let mut bytes: Vec<u8> = Vec::new();
    let mut k: usize = 0;
    while k < NAMESPACE_LEN - suffix_len
        invariant
            k <= NAMESPACE_LEN - suffix_len,
            suffix_len <= 10,
            bytes@.len() == k,
            forall|j: int| 0 <= j < k ==> bytes@[j] == 0,
        decreases NAMESPACE_LEN - suffix_len - k,
    {
        bytes.push(0u8);
        k = k + 1;
    }
    let mut t: usize = suffix_start;
    while t < id.len()
        invariant
            suffix_start <= t <= id@.len(),
            suffix_len == id@.len() - suffix_start,
            suffix_len <= 10,
            bytes@.len() == 29 - suffix_len + (t - suffix_start),
            forall|j: int| 0 <= j < 29 - suffix_len ==> bytes@[j] == 0,
            forall|j: int|
                29 - suffix_len <= j < bytes@.len() ==> bytes@[j] == id@[
                    j - (29 - suffix_len) + suffix_start
                ],
        decreases id@.len() - t,
    {
        bytes.push(id[t]);
        t = t + 1;
    }
    let ns = BlobNamespace { bytes };
    proof {
        assert(ns.bytes@ =~= spec_ns_bytes(id@));
    }
    Ok(ns)
}

/// Builds a version-zero namespace from its hex configuration string.
/// Accepts exactly the strings that decode as hex to an acceptable id.
pub fn namespace_from_hex(s: &String) -> (r: Result<BlobNamespace, NamespaceError>)
    ensures
        r is Ok <==> (spec_hex_decode(s@) matches Some(id) && spec_ns_id_ok(id)),
        r matches Ok(ns) ==> ns.wf(),
{
    let id = match hex_decode(s) {
        Some(v) => v,
        None => {
            return Err(NamespaceError::BadNamespaceHex);
        },
    };
    namespace_v0(&id)
}

/// Whether the DA chain's share splitter accepts a namespace and payload.
pub uninterp spec fn blob_ok(ns: Seq<u8>, data: Seq<u8>) -> bool;

/// The shares a blob splits into, each with its namespace prefix.
pub uninterp spec fn shares_of(ns: Seq<u8>, data: Seq<u8>) -> Seq<Seq<u8>>;

/// The content-derived commitment of a blob.
pub uninterp spec fn commitment_of(ns: Seq<u8>, data: Seq<u8>) -> Seq<u8>;

/// Width in bytes of one share.
pub const SHARE_LEN: usize = 512;

/// Relies on the DA type library's `Blob::to_shares` (via `Blob::new` with no
/// signer): the 512-byte shares are a function of namespace and payload
/// alone, and splitting succeeds or fails with the splitter's verdict on
/// exactly that pair.
#[verifier::external_body]
pub fn blob_shares(ns: &BlobNamespace, data: &Vec<u8>) -> (r: Option<Vec<Vec<u8>>>)
    requires
        ns.wf(),
    ensures
        r is Some <==> blob_ok(ns.bytes@, data@),
        r matches Some(v) ==> {
            &&& v@.map_values(|s: Vec<u8>| s@) == shares_of(ns.bytes@, data@)
            &&& forall|i: int| 0 <= i < v@.len() ==> (#[trigger] v@[i])@.len() == SHARE_LEN
        },
{
    let namespace = Namespace::from_raw(ns.bytes.as_slice()).ok()?;
    let blob = celestia_types::Blob::new(namespace, data.clone(), None).ok()?;
    let shares = blob.to_shares().ok()?;
    Some(shares.iter().map(|s| s.data().to_vec()).collect())
}

/// Relies on the DA type library's `Commitment::from_blob` (via `Blob::new`
/// with no signer): the 32-byte commitment is a function of namespace and
/// payload alone, and succeeds with the same verdict as share splitting.
#[verifier::external_body]
pub fn blob_commitment(ns: &BlobNamespace, data: &Vec<u8>) -> (r: Option<Vec<u8>>)
    requires
        ns.wf(),
    ensures
        r is Some <==> blob_ok(ns.bytes@, data@),
        r matches Some(c) ==> c@ == commitment_of(ns.bytes@, data@) && c@.len() == 32,
{
    let namespace = Namespace::from_raw(ns.bytes.as_slice()).ok()?;
    let blob = celestia_types::Blob::new(namespace, data.clone(), None).ok()?;
    Some(blob.commitment.hash().to_vec())
}

/// The Keccak-256 digest of a byte string.
pub uninterp spec fn keccak_of(data: Seq<u8>) -> Seq<u8>;

/// Relies on sha3's `Keccak256`: the 32-byte Keccak digest, a function of the
/// input bytes alone.
#[verifier::external_body]
pub fn keccak256(data: &Vec<u8>) -> (r: Vec<u8>)
    ensures
        r@ == keccak_of(data@),
        r@.len() == 32,
{
    <sha3::Keccak256 as sha3::Digest>::digest(data.as_slice()).to_vec()
}

/// The verdict of checking one namespaced range proof: whether the siblings
/// tie the given shares, as leaves of the claimed range under the namespace,
/// to the 90-byte row root.
pub uninterp spec fn nmt_check(
    ns: Seq<u8>,
    row_root: Seq<u8>,
    start: int,
    end: int,
    siblings: Seq<Seq<u8>>,
    shares: Seq<Seq<u8>>,
) -> bool;

/// Relies on the namespaced proof's `verify_range` (a presence proof under
/// the DA chain's namespaced hasher): accepts exactly when the shares fill
/// the claimed range and hash up to the row root under the namespace.
#[verifier::external_body]
pub fn nmt_verify_row(
    p: &NmtRangeProof,
    row_root: &Vec<u8>,
    ns: &BlobNamespace,
    shares: &Vec<Vec<u8>>,
) -> (r: bool)
    requires
        p.wf(),
        ns.wf(),
        row_root@.len() == 90,
    ensures
        r <==> nmt_check(
            ns.bytes@,
            row_root@,
            p@.start as int,
            p@.end as int,
            p@.siblings,
            shares@.map_values(|s: Vec<u8>| s@),
        ),
{
    let root_and_ns = (NamespacedHash::<29>::try_from(row_root.as_slice()), Namespace::from_raw(ns.bytes.as_slice()));
    let (Ok(root), Ok(ns_id)) = root_and_ns else { return false };
    let sib: Result<Vec<NamespacedHash<29>>, _> = p.siblings.iter().map(|s| s.as_slice().try_into()).collect();
    let Ok(siblings) = sib else { return false };
    let range = (p.start as u32)..(p.end as u32);
    let inner = nmt_rs::simple_merkle::proof::Proof { siblings, range };
    let proof: nmt_rs::NamespaceProof<NamespacedSha2Hasher, 29> = nmt_rs::NamespaceProof::PresenceProof { proof: inner, ignore_max_ns: true };
    proof.verify_range(&root, shares.as_slice(), ns_id.into()).is_ok()
}

} // verus!
