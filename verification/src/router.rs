use vstd::prelude::*;

verus! {

/// An inbound application-layer protocol request the router delivers to
/// the installed handler. The router only carries these; answering them
/// from chain data is the consumer's job.
#[derive(Clone, PartialEq, Eq, Debug)]
pub enum EthRequest {
    GetBlockHeaders { start: u64, limit: u64 },
    GetBlockBodies { hashes: Vec<u64> },
}

/// What became of one forwarded message.
#[derive(Clone, Copy, PartialEq, Eq, Structural, Debug)]
pub enum ForwardOutcome {
    /// Queued on the installed sink.
    Delivered,
    /// The bounded sink is full: backpressure. The message was not
    /// dropped; the forwarding step must be repeated once the consumer
    /// has drained, and the message waits at the protocol layer until
    /// then.
    Blocked,
    /// No handler is installed: dropped on purpose, worth at most a
    /// debug-level notice.
    Discarded,
}

/// The bounded endpoint protocol requests are handed to: a FIFO holding
/// at most `capacity` undelivered requests.
pub struct EthSink {
    pub buf: Vec<EthRequest>,
    pub capacity: usize,
}

/// The unbounded endpoint transaction gossip is handed to: a FIFO that
/// never refuses a message, trading memory growth for the guarantee that
/// gossip is never dropped on a slow consumer. Transactions are carried
/// by their hash; their contents are opaque to the router.
pub struct TxSink {
    pub buf: Vec<u64>,
}

/// Delivers inbound protocol requests and transaction gossip to channel
/// endpoints installed from outside, decoupling the orchestrator from
/// application logic. Each install replaces the previous endpoint.
pub struct RequestRouter {
    pub eth: Option<EthSink>,
    pub txs: Option<TxSink>,
}

impl RequestRouter {
    /// The bounded sink never holds more than its capacity.
    pub open spec fn wf(self) -> bool {
        match self.eth {
            Some(s) => s.buf@.len() <= s.capacity,
            None => true,
        }
    }

    pub fn new() -> (r: RequestRouter)
        ensures
            r.wf(),
            r.eth is None,
            r.txs is None,
    {
        RequestRouter { eth: None, txs: None }
    }

    /// Install (or replace) the protocol-request handler endpoint with
    /// the given capacity. Requests already queued on a replaced
    /// endpoint stay with its consumer; the new endpoint starts empty.
    pub fn set_eth_request_handler(&mut self, capacity: usize)
        requires
            old(self).wf(),
        ensures
            final(self).wf(),
            match final(self).eth {
                Some(s) => s.buf@ == Seq::<EthRequest>::empty() && s.capacity == capacity,
                None => false,
            },
            final(self).txs == old(self).txs,
    {
        self.eth = Some(EthSink { buf: Vec::new(), capacity });
    }

    /// Install (or replace) the transaction-gossip endpoint.
    pub fn set_transactions(&mut self)
        requires
            old(self).wf(),
        ensures
            final(self).wf(),
            match final(self).txs {
                Some(s) => s.buf@ == Seq::<u64>::empty(),
                None => false,
            },
            final(self).eth == old(self).eth,
    {
        self.txs = Some(TxSink { buf: Vec::new() });
    }

    /// Forward one inbound protocol request. With no handler it is
    /// discarded; with a full sink the step reports backpressure and
    /// changes nothing, so no request is ever silently lost.
    pub fn forward_eth_request(&mut self, req: EthRequest) -> (r: ForwardOutcome)
        requires
            old(self).wf(),
        ensures
            final(self).wf(),
            final(self).txs == old(self).txs,
            match old(self).eth {
                None => r == ForwardOutcome::Discarded && final(self).eth == old(self).eth,
                Some(s) => {
                    if s.buf@.len() >= s.capacity {
                        &&& r == ForwardOutcome::Blocked
                        &&& final(self).eth == old(self).eth
                    } else {
                        &&& r == ForwardOutcome::Delivered
                        &&& match final(self).eth {
                            Some(t) => t.capacity == s.capacity && t.buf@ == s.buf@.push(req),
                            None => false,
                        }
                    }
                },
            },
    {
        match &mut self.eth {
            None => ForwardOutcome::Discarded,
            Some(s) => {
                if s.buf.len() >= s.capacity {
                    ForwardOutcome::Blocked
                } else {
                    s.buf.push(req);
                    ForwardOutcome::Delivered
                }
            },
        }
    }

    /// The consumer side of the protocol-request endpoint: take the
    /// oldest undelivered request, in arrival order.
    pub fn recv_eth_request(&mut self) -> (r: Option<EthRequest>)
        requires
            old(self).wf(),
        ensures
            final(self).wf(),
            final(self).txs == old(self).txs,
            match old(self).eth {
                None => r is None && final(self).eth == old(self).eth,
                Some(s) => {
                    if s.buf@.len() == 0 {
                        r is None && final(self).eth == old(self).eth
                    } else {
                        &&& r == Some(s.buf@[0])
                        &&& match final(self).eth {
                            Some(t) => t.capacity == s.capacity && t.buf@ == s.buf@.subrange(
                                1,
                                s.buf@.len() as int,
                            ),
                            None => false,
                        }
                    }
                },
            },
    {
        match &mut self.eth {
            None => None,
            Some(s) => {
                if s.buf.len() == 0 {
                    None
                } else {
                    let req = s.buf.remove(0);
                    proof {
                        assert(s.buf@ =~= old(self).eth->Some_0.buf@.subrange(
                            1,
                            old(self).eth->Some_0.buf@.len() as int,
                        ));
                    }
                    Some(req)
                }
            },
        }
    }

    /// Forward one piece of transaction gossip. The sink is unbounded:
    /// with a handler installed the message is always delivered, never
    /// dropped and never subject to backpressure.
    pub fn forward_transactions(&mut self, tx: u64) -> (r: ForwardOutcome)
        requires
            old(self).wf(),
            match old(self).txs {
                Some(s) => s.buf@.len() < usize::MAX,
                None => true,
            },
        ensures
            final(self).wf(),
            final(self).eth == old(self).eth,
            match old(self).txs {
                None => r == ForwardOutcome::Discarded && final(self).txs == old(self).txs,
                Some(s) => r == ForwardOutcome::Delivered && match final(self).txs {
                    Some(t) => t.buf@ == s.buf@.push(tx),
                    None => false,
                },
            },
    {
        match &mut self.txs {
            None => ForwardOutcome::Discarded,
            Some(s) => {
                s.buf.push(tx);
                ForwardOutcome::Delivered
            },
        }
    }

    /// The consumer side of the transaction endpoint: take the oldest
    /// undelivered message, in arrival order.
    pub fn recv_transactions(&mut self) -> (r: Option<u64>)
        requires
            old(self).wf(),
        ensures
            final(self).wf(),
            final(self).eth == old(self).eth,
            match old(self).txs {
                None => r is None && final(self).txs == old(self).txs,
                Some(s) => {
                    if s.buf@.len() == 0 {
                        r is None && final(self).txs == old(self).txs
                    } else {
                        &&& r == Some(s.buf@[0])
                        &&& match final(self).txs {
                            Some(t) => t.buf@ == s.buf@.subrange(1, s.buf@.len() as int),
                            None => false,
                        }
                    }
                },
            },
    {
        match &mut self.txs {
            None => None,
            Some(s) => {
                if s.buf.len() == 0 {
                    None
                } else {
                    let tx = s.buf.remove(0);
                    proof {
                        assert(s.buf@ =~= old(self).txs->Some_0.buf@.subrange(
                            1,
                            old(self).txs->Some_0.buf@.len() as int,
                        ));
                    }
                    Some(tx)
                }
            },
        }
    }
}

} // verus!
