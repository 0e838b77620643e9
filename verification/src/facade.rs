//! The prover facade's decisions: which heights a state-transition request
//! must prove, the service's key report, and proof verification.

use vstd::prelude::*;
use crate::hexutil::{spec_hex_lower, spec_hex_decode, hex_encode, hex_decode};

verus! {

/// Failures of the facade's input checks.
#[derive(Debug)]
pub enum FacadeError {
    /// The light client already trusts the rollup's latest height: there is
    /// nothing to prove.
    AlreadyCurrent,
    /// The configured beneficiary is not a 20-byte hex address.
    BadAddress,
}

/// The heights a state-transition request must prove: everything above the
/// trusted height, up to and including the rollup's latest.
///
/// Rejected exactly when the latest height does not exceed the trusted one.
pub fn height_range(latest_height: u64, trusted_height: u64) -> (r: Result<
    (u64, u64),
    FacadeError,
>)
    ensures
        r is Ok <==> latest_height > trusted_height,
        r matches Ok((start, end)) ==> start == trusted_height + 1 && end == latest_height,
        r matches Err(e) ==> e is AlreadyCurrent,
{
    if latest_height <= trusted_height {
        Err(FacadeError::AlreadyCurrent)
    } else {
        Ok((trusted_height + 1, latest_height))
    }
}

/// The heights of an inclusive range, in strictly ascending order: the order
/// in which per-block witnesses enter aggregation.
pub fn plan_heights(start: u64, end: u64) -> (r: Vec<u64>)
    requires
        start <= end,
        end - start < usize::MAX,
    ensures
        r@.len() == end - start + 1,
        forall|i: int| 0 <= i < r@.len() ==> r@[i] == start + i,
{
    let mut heights: Vec<u64> = Vec::new();
    let n: usize = (end - start) as usize;
    let mut i: usize = 0;
    while i <= n
        invariant
            i <= n + 1,
            n < usize::MAX,
            n == end - start,
            start <= end,
            heights@.len() == i,
            forall|j: int| 0 <= j < heights@.len() ==> heights@[j] == start + j,
        decreases n - i + 1,
    {
        heights.push(start + (i as u64));
        i = i + 1;
    }
    heights
}

/// What `info` reports: the verifying keys of the two programs, as
/// `0x`-prefixed lower-case hex, or empty where not configured.
pub struct InfoResponse {
    pub state_transition_verifier_key: String,
    pub state_membership_verifier_key: String,
}

/// The `0x`-prefixed lower-case hex form of a verifying-key hash.
pub open spec fn spec_key_hex(b: Seq<u8>) -> Seq<char> {
    seq!['0', 'x'] + spec_hex_lower(b)
}

/// Formats a verifying-key hash for the key report.
pub fn key_hex(b: &Vec<u8>) -> (r: String)
    ensures
        r@ == spec_key_hex(b@),
{
    proof {
        reveal_strlit("0x");
    }
    let mut s = String::from_str("0x");
    let hex = hex_encode(b);
    s.append(hex.as_str());
    assert(s@ =~= spec_key_hex(b@));
    s
}

/// Builds the key report: each configured key formatted as `0x`-prefixed
/// hex, each missing key reported empty.
pub fn info_response(
    state_transition_vk_hash: Option<&Vec<u8>>,
    state_membership_vk_hash: Option<&Vec<u8>>,
) -> (r: InfoResponse)
    ensures
        state_transition_vk_hash matches Some(v) ==> r.state_transition_verifier_key@
            == spec_key_hex(v@),
        state_transition_vk_hash is None ==> r.state_transition_verifier_key@ == Seq::<
            char,
        >::empty(),
        state_membership_vk_hash matches Some(v) ==> r.state_membership_verifier_key@
            == spec_key_hex(v@),
        state_membership_vk_hash is None ==> r.state_membership_verifier_key@ == Seq::<
            char,
        >::empty(),
{
    let state_transition_verifier_key = match state_transition_vk_hash {
        Some(v) => key_hex(v),
        None => String::new(),
    };
    let state_membership_verifier_key = match state_membership_vk_hash {
        Some(v) => key_hex(v),
        None => String::new(),
    };
    InfoResponse { state_transition_verifier_key, state_membership_verifier_key }
}

/// How proofs are produced: real proving on the local machine, or a mock
/// prover that short-circuits proving while keeping output shapes.
pub enum ProverMode {
    Cpu,
    Mock,
}

/// Reads the prover mode from its configuration value: `mock` selects the
/// mock prover; anything else, or no value, selects real proving.
pub fn prover_mode(setting: Option<&String>) -> (r: ProverMode)
    ensures
        r is Mock <==> (setting matches Some(s) && s@ == "mock"@),
{
    match setting {
        Some(s) => {
            let mock = String::from_str("mock");
            if s.eq(&mock) {
                ProverMode::Mock
            } else {
                ProverMode::Cpu
            }
        },
        None => ProverMode::Cpu,
    }
}

/// Every character of a lower-case hex encoding is a plain ASCII character.
proof fn lemma_hex_lower_ascii(b: Seq<u8>)
    ensures
        forall|i: int| 0 <= i < spec_hex_lower(b).len() ==> (spec_hex_lower(b)[i] as u32) < 128,
    decreases b.len(),
{
    if b.len() > 0 {
        lemma_hex_lower_ascii(b.drop_first());
        let s = spec_hex_lower(b);
        assert forall|i: int| 0 <= i < s.len() implies (s[i] as u32) < 128 by {
            if i >= 2 {
                assert(s[i] == spec_hex_lower(b.drop_first())[i - 2]);
            }
        }
    }
}

/// The Groth16 verifier's verdict on a proof, its public inputs, the
/// `0x`-prefixed hex verifying-key hash, and the verifying key's bytes: a
/// function of exactly these values.
pub uninterp spec fn groth16_ok(
    proof: Seq<u8>,
    public_inputs: Seq<u8>,
    vk_hash_hex: Seq<char>,
    vk: Seq<u8>,
) -> bool;

/// What every failure message of proof verification begins with.
pub open spec fn spec_verify_failed_prefix() -> Seq<char> {
    "Proof verification failed: "@
}

/// Relies on the Groth16 verifier of the proof system's verifier library:
/// checks a proof against public inputs, a `0x`-prefixed hex verifying-key
/// hash, and the verifying key's bytes; accepts exactly on the verifier's
/// verdict, a function of the arguments alone, and on rejection reports the
/// verifier's error text behind a fixed prefix. The key hash must be plain
/// ASCII, which is what the verifier's parser accepts without fault.
#[verifier::external_body]
fn groth16_verify(
    proof: &Vec<u8>,
    public_inputs: &Vec<u8>,
    vk_hash_hex: &String,
    vk: &Vec<u8>,
) -> (r: Result<(), String>)
    requires
        forall|i: int|
            0 <= i < vk_hash_hex@.len() ==> ((#[trigger] vk_hash_hex@[i]) as u32) < 128,
    ensures
        r is Ok <==> groth16_ok(proof@, public_inputs@, vk_hash_hex@, vk@),
        r matches Err(msg) ==> spec_verify_failed_prefix().is_prefix_of(msg@),
{
    match sp1_verifier::Groth16Verifier::verify(
        proof.as_slice(),
        public_inputs.as_slice(),
        vk_hash_hex.as_str(),
        vk.as_slice(),
    ) {
        Ok(()) => Ok(()),
        Err(e) => Err(format!("Proof verification failed: {}", e)),
    }
}

/// Verifies a Groth16 proof against its public inputs and verifying key.
///
/// Never fails a request: the boolean is the verifier's verdict, with an
/// empty message on success and the verifier's message, behind its fixed
/// prefix, on rejection.
pub fn verify_proof(
    proof: &Vec<u8>,
    public_inputs: &Vec<u8>,
    vk_hash: &Vec<u8>,
    vk: &Vec<u8>,
) -> (r: (bool, String))
    ensures
        r.0 == groth16_ok(proof@, public_inputs@, spec_key_hex(vk_hash@), vk@),
        r.0 ==> r.1@ == Seq::<char>::empty(),
        !r.0 ==> spec_verify_failed_prefix().is_prefix_of(r.1@) && r.1@.len() > 0,
{
    let vk_hash_hex = key_hex(vk_hash);
    proof {
        lemma_hex_lower_ascii(vk_hash@);
        assert(('0' as u32) < 128 && ('x' as u32) < 128);
        assert(forall|i: int|
            0 <= i < vk_hash_hex@.len() ==> ((#[trigger] vk_hash_hex@[i]) as u32) < 128);
    }
    match groth16_verify(proof, public_inputs, &vk_hash_hex, vk) {
        Ok(()) => (true, String::new()),
        Err(msg) => {
            proof {
                reveal_strlit("Proof verification failed: ");
                assert(spec_verify_failed_prefix().len() > 0);
            }
            (false, msg)
        },
    }
}

/// Parses the configured beneficiary address: exactly forty hex digits
/// giving a 20-byte address.
pub fn parse_beneficiary(s: &String) -> (r: Result<Vec<u8>, FacadeError>)
    ensures
        r is Ok <==> (spec_hex_decode(s@) matches Some(b) && b.len() == 20),
        r matches Ok(v) ==> Some(v@) == spec_hex_decode(s@) && v@.len() == 20,
        r matches Err(e) ==> e is BadAddress,
{
    match hex_decode(s) {
        Some(v) => {
            if v.len() == 20 {
                Ok(v)
            } else {
                Err(FacadeError::BadAddress)
            }
        },
        None => Err(FacadeError::BadAddress),
    }
}

} // verus!
