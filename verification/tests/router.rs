use peernet::router::{EthRequest, ForwardOutcome, RequestRouter};

#[test]
fn no_handler_discards_quietly() {
    let mut r = RequestRouter::new();
    let out = r.forward_eth_request(EthRequest::GetBlockHeaders { start: 1, limit: 10 });
    assert_eq!(out, ForwardOutcome::Discarded);
    assert_eq!(r.forward_transactions(0xabc), ForwardOutcome::Discarded);
}

#[test]
fn a_full_bounded_sink_applies_backpressure_without_loss() {
    // sink of capacity 1; two rapid inbound requests
    let mut r = RequestRouter::new();
    r.set_eth_request_handler(1);
    let first = EthRequest::GetBlockHeaders { start: 1, limit: 10 };
    let second = EthRequest::GetBlockBodies { hashes: vec![7, 8] };
    assert_eq!(r.forward_eth_request(first.clone()), ForwardOutcome::Delivered);
    // the consumer has not read the first yet: the second blocks, it is not dropped
    assert_eq!(r.forward_eth_request(second.clone()), ForwardOutcome::Blocked);
    // the consumer reads; the repeated forwarding step now completes
    assert_eq!(r.recv_eth_request(), Some(first));
    assert_eq!(r.forward_eth_request(second.clone()), ForwardOutcome::Delivered);
    assert_eq!(r.recv_eth_request(), Some(second));
    assert_eq!(r.recv_eth_request(), None);
}

#[test]
fn requests_arrive_in_forwarding_order() {
    let mut r = RequestRouter::new();
    r.set_eth_request_handler(4);
    let a = EthRequest::GetBlockHeaders { start: 1, limit: 1 };
    let b = EthRequest::GetBlockHeaders { start: 2, limit: 1 };
    let c = EthRequest::GetBlockBodies { hashes: vec![3] };
    r.forward_eth_request(a.clone());
    r.forward_eth_request(b.clone());
    r.forward_eth_request(c.clone());
    assert_eq!(r.recv_eth_request(), Some(a));
    assert_eq!(r.recv_eth_request(), Some(b));
    assert_eq!(r.recv_eth_request(), Some(c));
}

#[test]
fn transactions_are_never_dropped_and_keep_order() {
    let mut r = RequestRouter::new();
    r.set_transactions();
    for tx in 0..100u64 {
        assert_eq!(r.forward_transactions(tx), ForwardOutcome::Delivered);
    }
    for tx in 0..100u64 {
        assert_eq!(r.recv_transactions(), Some(tx));
    }
    assert_eq!(r.recv_transactions(), None);
}

#[test]
fn installing_a_handler_replaces_the_previous_one() {
    let mut r = RequestRouter::new();
    r.set_eth_request_handler(1);
    let a = EthRequest::GetBlockHeaders { start: 1, limit: 1 };
    r.forward_eth_request(a);
    r.set_eth_request_handler(2);
    // the new endpoint starts empty
    assert_eq!(r.recv_eth_request(), None);
}
