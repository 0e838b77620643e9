//! The indexer lookup: mapping a rollup block height to its DA inclusion
//! height and blob commitment. The decision logic is here — response
//! validation, commitment decoding, and the bounded retry policy — while the
//! HTTP transport stays outside and feeds events in.

use vstd::prelude::*;

verus! {

/// Error returned by an indexer lookup.
#[derive(Debug)]
pub enum IndexerError {
    /// The HTTP request itself failed.
    RequestError(String),
    /// The indexer knows no inclusion for the requested height, and the
    /// retries are exhausted.
    BlockNotFound,
    /// The indexer answered with an error, or with a body that cannot be
    /// used.
    ServerError(String),
    /// The indexer echoed a different rollup height than was requested.
    IndexerInconsistent,
}

/// A successful indexer body: the echoed rollup height, the DA inclusion
/// height, and the blob commitment in its base64 transport form.
pub struct InclusionHeightResponse {
    pub eth_block_number: u64,
    pub celestia_height: u64,
    pub blob_commitment: String,
}

/// What one outbound request came back as.
pub enum IndexerEvent {
    /// A well-formed success body.
    Found(InclusionHeightResponse),
    /// The indexer does not (yet) know the height.
    NotFound,
    /// Any other status, with the response text.
    Failed(String),
    /// The request itself failed, with the transport error text.
    Transport(String),
}

/// The lookup's retry policy: how often to retry a missing height, how long
/// to wait between tries, and the per-request timeout.
pub struct RetryPolicy {
    pub max_retries: u32,
    pub retry_delay_secs: u64,
    pub request_timeout_secs: u64,
}

impl Default for RetryPolicy {
    /// Ten retries, five seconds apart, ten seconds per request.
    fn default() -> (r: RetryPolicy)
        ensures
            r.max_retries == 10,
            r.retry_delay_secs == 5,
            r.request_timeout_secs == 10,
    {
        RetryPolicy { max_retries: 10, retry_delay_secs: 5, request_timeout_secs: 10 }
    }
}

/// What the lookup does after one event.
pub enum LookupStep {
    /// The lookup is done: the DA inclusion height and the decoded blob
    /// commitment.
    Success(u64, Vec<u8>),
    /// Ask again after this many seconds.
    RetryAfter(u64),
    /// The lookup failed.
    Fail(IndexerError),
}

/// The bytes of a string decoded as standard base64.
pub uninterp spec fn b64_standard_decode(s: Seq<char>) -> Option<Seq<u8>>;

/// Relies on base64's standard-alphabet engine: decodes exactly the strings
/// that are valid padded standard base64, to bytes that depend on the string
/// alone.
#[verifier::external_body]
pub fn base64_decode(s: &String) -> (r: Option<Vec<u8>>)
    ensures
        r matches Some(v) ==> b64_standard_decode(s@) == Some(v@),
        r is Some <==> b64_standard_decode(s@) is Some,
{
    base64::Engine::decode(&base64::engine::general_purpose::STANDARD, s.as_bytes()).ok()
}

/// Decides the lookup's next move from one request's outcome.
///
/// A success body must echo the requested height; its commitment must decode
/// as base64. A missing height is retried, with the policy's delay, until the
/// policy's retry budget is spent, and fails as not-found after that. Any
/// other response fails at once.
pub fn lookup_step(
    requested_height: u64,
    event: IndexerEvent,
    retries_so_far: u32,
    policy: &RetryPolicy,
) -> (r: LookupStep)
    ensures
        event matches IndexerEvent::Found(resp) ==> {
            &&& resp.eth_block_number != requested_height ==> (r matches LookupStep::Fail(e)
                && e is IndexerInconsistent)
            &&& (resp.eth_block_number == requested_height && b64_standard_decode(
                resp.blob_commitment@,
            ) is Some) ==> (r matches LookupStep::Success(h, c) && h == resp.celestia_height
                && Some(c@) == b64_standard_decode(resp.blob_commitment@))
            &&& (resp.eth_block_number == requested_height && b64_standard_decode(
                resp.blob_commitment@,
            ) is None) ==> (r matches LookupStep::Fail(e) && e is ServerError)
        },
        event is NotFound && retries_so_far < policy.max_retries ==> (r
            matches LookupStep::RetryAfter(d) && d == policy.retry_delay_secs),
        event is NotFound && retries_so_far >= policy.max_retries ==> (r
            matches LookupStep::Fail(e) && e is BlockNotFound),
        event matches IndexerEvent::Failed(text) ==> (r matches LookupStep::Fail(e) && e
            matches IndexerError::ServerError(t) && t == text),
        event matches IndexerEvent::Transport(text) ==> (r matches LookupStep::Fail(e) && e
            matches IndexerError::RequestError(t) && t == text),
{
    match event {
        IndexerEvent::Found(resp) => {
            if resp.eth_block_number != requested_height {
                return LookupStep::Fail(IndexerError::IndexerInconsistent);
            }
            match base64_decode(&resp.blob_commitment) {
                Some(commitment) => LookupStep::Success(resp.celestia_height, commitment),
                None => LookupStep::Fail(
                    IndexerError::ServerError(resp.blob_commitment),
                ),
            }
        },
        IndexerEvent::NotFound => {
            if retries_so_far < policy.max_retries {
                LookupStep::RetryAfter(policy.retry_delay_secs)
            } else {
                LookupStep::Fail(IndexerError::BlockNotFound)
            }
        },
        IndexerEvent::Failed(text) => LookupStep::Fail(IndexerError::ServerError(text)),
        IndexerEvent::Transport(text) => LookupStep::Fail(IndexerError::RequestError(text)),
    }
}

} // verus!
