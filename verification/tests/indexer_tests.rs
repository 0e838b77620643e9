use blevm_prover::{
    InclusionHeightResponse, IndexerError, IndexerEvent, LookupStep, RetryPolicy, lookup_step,
};
use base64::Engine;

fn found(height: u64, da_height: u64, commitment: &[u8]) -> IndexerEvent {
    IndexerEvent::Found(InclusionHeightResponse {
        eth_block_number: height,
        celestia_height: da_height,
        blob_commitment: base64::engine::general_purpose::STANDARD.encode(commitment),
    })
}

#[test]
fn retry_five_times_then_succeed() {
    let policy = RetryPolicy::default();
    let commitment = [7u8; 32];
    let mut events = vec![
        IndexerEvent::NotFound,
        IndexerEvent::NotFound,
        IndexerEvent::NotFound,
        IndexerEvent::NotFound,
        IndexerEvent::NotFound,
        found(42, 2988873, &commitment),
    ];
    let mut requests = 0u32;
    let mut retries = 0u32;
    let result = loop {
        let event = events.remove(0);
        requests += 1;
        match lookup_step(42, event, retries, &policy) {
            LookupStep::RetryAfter(delay) => {
                assert_eq!(delay, 5);
                retries += 1;
            },
            LookupStep::Success(h, c) => break (h, c),
            LookupStep::Fail(_) => panic!("lookup must not fail here"),
        }
    };
    assert_eq!(requests, 6);
    assert_eq!(result.0, 2988873);
    assert_eq!(result.1, commitment.to_vec());
}

#[test]
fn retries_exhaust_into_not_found() {
    let policy = RetryPolicy::default();
    let mut retries = 0u32;
    let mut requests = 0u32;
    loop {
        requests += 1;
        match lookup_step(42, IndexerEvent::NotFound, retries, &policy) {
            LookupStep::RetryAfter(_) => retries += 1,
            LookupStep::Fail(IndexerError::BlockNotFound) => break,
            _ => panic!("a missing height must only retry or fail as not found"),
        }
    }
    // ten retries after the first request: eleven requests in all
    assert_eq!(requests, 11);
}

#[test]
fn echo_mismatch_fails_at_once() {
    let policy = RetryPolicy::default();
    match lookup_step(42, found(43, 9, &[1u8; 32]), 0, &policy) {
        LookupStep::Fail(IndexerError::IndexerInconsistent) => {},
        _ => panic!("a wrong echoed height must fail the lookup"),
    }
}

#[test]
fn bad_base64_fails_as_server_error() {
    let policy = RetryPolicy::default();
    let event = IndexerEvent::Found(InclusionHeightResponse {
        eth_block_number: 42,
        celestia_height: 9,
        blob_commitment: "not-base64!".to_string(),
    });
    match lookup_step(42, event, 0, &policy) {
        LookupStep::Fail(IndexerError::ServerError(_)) => {},
        _ => panic!("an undecodable commitment must fail the lookup"),
    }
}

#[test]
fn other_statuses_fail_at_once() {
    let policy = RetryPolicy::default();
    match lookup_step(42, IndexerEvent::Failed("boom".to_string()), 0, &policy) {
        LookupStep::Fail(IndexerError::ServerError(text)) => assert_eq!(text, "boom"),
        _ => panic!("a server error must fail the lookup"),
    }
    match lookup_step(42, IndexerEvent::Transport("timeout".to_string()), 0, &policy) {
        LookupStep::Fail(IndexerError::RequestError(text)) => assert_eq!(text, "timeout"),
        _ => panic!("a transport error must fail the lookup"),
    }
}

#[test]
fn default_policy_matches_contract() {
    let policy = RetryPolicy::default();
    assert_eq!(policy.max_retries, 10);
    assert_eq!(policy.retry_delay_secs, 5);
    assert_eq!(policy.request_timeout_secs, 10);
}
