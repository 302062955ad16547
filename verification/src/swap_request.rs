//! Bob's swap negotiation behaviour: sends one swap request to Alice and
//! queues her response for the event loop.
//!
//! The transport is the host's; here is the queueing and dispatch logic the
//! behaviour performs on top of it.

use vstd::prelude::*;

verus! {

/// Timeout of one request/response exchange, in seconds.
pub const TIMEOUT: u64 = 60;

/// What Bob asks to swap.
#[derive(Clone, Copy, Debug, PartialEq, Eq, Structural)]
pub struct SwapRequest {
    /// The amount of Bitcoin to lock, in satoshi.
    pub btc_amount: u64,
}

/// Alice's terms for the swap.
#[derive(Clone, Copy, Debug, PartialEq, Eq, Structural)]
pub struct SwapResponse {
    /// The amount of Monero she locks, in piconero.
    pub xmr_amount: u64,
}

/// The event the behaviour emits to the swarm.
#[derive(Clone, Copy, Debug, PartialEq, Eq, Structural)]
pub struct OutEvent {
    pub swap_response: SwapResponse,
}

/// A response arriving from the request/response transport.
#[derive(Clone, Copy, Debug, PartialEq, Eq, Structural)]
pub enum TransportResponse {
    SwapResponse { swap_response: SwapResponse },
    Other,
}

/// One message of the request/response transport.
#[derive(Clone, Copy, Debug, PartialEq, Eq, Structural)]
pub enum TransportMessage {
    Request,
    Response { request_id: u64, response: TransportResponse },
}

/// What the request/response transport reports to the behaviour.
#[derive(Clone, Copy, Debug, PartialEq, Eq, Structural)]
pub enum RequestResponseEvent {
    Message { peer: u128, message: TransportMessage },
    InboundFailure { peer: u128 },
    OutboundFailure { peer: u128 },
    ResponseSent { peer: u128 },
}

/// The negotiation behaviour: a pending-event queue in front of the
/// request/response transport.
#[derive(Clone, Debug, PartialEq, Eq)]
pub struct Behaviour {
    events: Vec<OutEvent>,
    next_request_id: u64,
    request_timeout_secs: u64,
}

impl Behaviour {
    /// The queued events, oldest first.
    pub closed spec fn pending(self) -> Seq<OutEvent> {
        self.events@
    }

    /// The id the next outbound request will get.
    pub closed spec fn next_id(self) -> u64 {
        self.next_request_id
    }

    /// The configured request timeout in seconds.
    pub closed spec fn timeout_secs(self) -> u64 {
        self.request_timeout_secs
    }

    /// Sends the swap request to Alice over the transport and hands back the
    /// request id.
    pub fn send(&mut self, alice: u128, swap_request: SwapRequest) -> (r: Result<u64, ()>)
        requires
            old(self).next_id() < u64::MAX,
        ensures
            r == Result::<u64, ()>::Ok(old(self).next_id()),
            final(self).next_id() == old(self).next_id() + 1,
            final(self).pending() == old(self).pending(),
            final(self).timeout_secs() == old(self).timeout_secs(),
    {
        let id = self.next_request_id;
        self.next_request_id = self.next_request_id + 1;
        Ok(id)
    }

    /// Hands the oldest queued event to the swarm, if one is pending.
    pub fn poll(&mut self) -> (r: Option<OutEvent>)
        ensures
            old(self).pending().len() > 0 ==> r == Some(old(self).pending()[0])
                && final(self).pending() == old(self).pending().subrange(
                1,
                old(self).pending().len() as int,
            ),
            old(self).pending().len() == 0 ==> r is None
                && final(self).pending() == old(self).pending(),
            final(self).next_id() == old(self).next_id(),
            final(self).timeout_secs() == old(self).timeout_secs(),
    {
        if self.events.len() > 0 {
            let ev = self.events.remove(0);
            Some(ev)
        } else {
            None
        }
    }

    /// Takes one transport event: a swap response is queued for the swarm,
    /// failures and delivery notices are dropped.  Bob never serves requests,
    /// so an inbound request is outside this behaviour's contract.
    pub fn inject_event(&mut self, event: RequestResponseEvent)
        requires
            !matches!(event, RequestResponseEvent::Message {
                message: TransportMessage::Request, .. }),
        ensures
            final(self).pending() == old(self).pending() + match event {
                RequestResponseEvent::Message {
                    message: TransportMessage::Response {
                        response: TransportResponse::SwapResponse { swap_response },
                        ..
                    },
                    ..
                } => seq![OutEvent { swap_response }],
                _ => Seq::<OutEvent>::empty(),
            },
            final(self).next_id() == old(self).next_id(),
            final(self).timeout_secs() == old(self).timeout_secs(),
    {
        match event {
            RequestResponseEvent::Message {
                message: TransportMessage::Response {
                    response: TransportResponse::SwapResponse { swap_response },
                    ..
                },
                ..
            } => {
                self.events.push(OutEvent { swap_response });
                proof {
                    assert(self.events@ =~= old(self).events@ + seq![
                        OutEvent { swap_response },
                    ]);
                }
            },
            _ => {
                proof {
                    assert(self.events@ =~= old(self).events@ + Seq::<OutEvent>::empty());
                }
            },
        }
    }
}

impl Default for Behaviour {
    /// A fresh behaviour: empty queue, ids from zero, the default timeout.
    fn default() -> (r: Behaviour)
        ensures
            r.pending() == Seq::<OutEvent>::empty(),
            r.next_id() == 0,
            r.timeout_secs() == TIMEOUT,
    {
        Behaviour { events: Vec::new(), next_request_id: 0, request_timeout_secs: TIMEOUT }
    }
}

} // verus!
