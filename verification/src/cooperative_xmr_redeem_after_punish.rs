//! The cooperative Monero redeem protocol, used by Bob after the punish path
//! to ask Alice for her key share.
//!
//! The transport (request/response over the peer-to-peer layer) stays with
//! the host; here are the protocol identity, the message types over plain
//! values, and the dispatch of inbound messages to each side's events.

use crate::ed25519::Sc;
use vstd::prelude::*;

verus! {

/// The protocol identity.
#[derive(Clone, Copy, Debug, Default, PartialEq, Eq, Structural)]
pub struct CooperativeXmrRedeemProtocol;

impl CooperativeXmrRedeemProtocol {
    /// The protocol identifier on the wire.
    pub fn protocol_name(&self) -> (r: &'static str)
        ensures
            r@ == "/comit/xmr/btc/cooperative_xmr_redeem_after_punish/1.0.0"@,
    {
        "/comit/xmr/btc/cooperative_xmr_redeem_after_punish/1.0.0"
    }
}

/// Why Alice refuses a cooperative redeem.
#[derive(Clone, Copy, Debug, PartialEq, Eq, Structural)]
pub enum CooperativeXmrRedeemRejectReason {
    UnknownSwap,
    MaliciousRequest,
    SwapInvalidState,
}

impl CooperativeXmrRedeemRejectReason {
    /// A human-readable account of the rejection.
    pub fn message(&self) -> (r: &'static str)
        ensures
            *self == CooperativeXmrRedeemRejectReason::UnknownSwap ==> r@
                == "Alice does not have a record of the swap"@,
            *self == CooperativeXmrRedeemRejectReason::MaliciousRequest ==> r@
                == "Alice rejected the request because it deemed it malicious"@,
            *self == CooperativeXmrRedeemRejectReason::SwapInvalidState ==> r@
                == "Alice is in a state where a cooperative redeem is not possible"@,
    {
        match self {
            CooperativeXmrRedeemRejectReason::UnknownSwap =>
                "Alice does not have a record of the swap",
            CooperativeXmrRedeemRejectReason::MaliciousRequest =>
                "Alice rejected the request because it deemed it malicious",
            CooperativeXmrRedeemRejectReason::SwapInvalidState =>
                "Alice is in a state where a cooperative redeem is not possible",
        }
    }
}

/// Bob's request: the swap he wants the key share for.
#[derive(Clone, Copy, Debug, PartialEq, Eq, Structural)]
pub struct Request {
    pub swap_id: u128,
}

/// Alice's answer: the key share, or a reason.
#[derive(Clone, Copy, Debug, PartialEq, Eq)]
pub enum Response {
    Fullfilled { swap_id: u128, s_a: Sc },
    Rejected { swap_id: u128, reason: CooperativeXmrRedeemRejectReason },
}

/// Which direction a side serves the protocol in.
#[derive(Clone, Copy, Debug, PartialEq, Eq, Structural)]
pub enum ProtocolDirection {
    Inbound,
    Outbound,
}

/// The configured behaviour of one side of the protocol.
#[derive(Clone, Copy, Debug, PartialEq, Eq, Structural)]
pub struct Behaviour {
    pub direction: ProtocolDirection,
}

/// Alice answers cooperative redeem requests.
pub fn alice() -> (r: Behaviour)
    ensures
        r.direction == ProtocolDirection::Inbound,
{
    Behaviour { direction: ProtocolDirection::Inbound }
}

/// Bob sends cooperative redeem requests.
pub fn bob() -> (r: Behaviour)
    ensures
        r.direction == ProtocolDirection::Outbound,
{
    Behaviour { direction: ProtocolDirection::Outbound }
}

/// An inbound message of this protocol, as the transport hands it over.
#[derive(Clone, Copy, Debug, PartialEq, Eq)]
pub enum Message {
    Request { request: Request, channel_id: u64 },
    Response { response: Response, request_id: u64 },
}

/// What Alice's event loop makes of an inbound message.
#[derive(Clone, Copy, Debug, PartialEq, Eq)]
pub enum AliceOutEvent {
    CooperativeXmrRedeemRequested { swap_id: u128, channel_id: u64, peer: u128 },
    UnexpectedResponse { peer: u128 },
}

/// Dispatches an inbound message on Alice's side: a request carries the swap
/// id and the answer channel; a response is unexpected, since Alice only
/// serves this protocol.
pub fn alice_out_event(peer: u128, message: &Message) -> (r: AliceOutEvent)
    ensures
        match *message {
            Message::Request { request, channel_id } => r
                == AliceOutEvent::CooperativeXmrRedeemRequested {
                swap_id: request.swap_id,
                channel_id,
                peer,
            },
            Message::Response { .. } => r == AliceOutEvent::UnexpectedResponse { peer },
        },
{
    match message {
        Message::Request { request, channel_id } => AliceOutEvent::CooperativeXmrRedeemRequested {
            swap_id: request.swap_id,
            channel_id: *channel_id,
            peer,
        },
        Message::Response { .. } => AliceOutEvent::UnexpectedResponse { peer },
    }
}

/// What Bob's event loop makes of an inbound message.
#[derive(Clone, Copy, Debug, PartialEq, Eq)]
pub enum BobOutEvent {
    CooperativeXmrRedeemFulfilled { id: u64, swap_id: u128, s_a: Sc },
    CooperativeXmrRedeemRejected {
        id: u64,
        swap_id: u128,
        reason: CooperativeXmrRedeemRejectReason,
    },
    UnexpectedRequest { peer: u128 },
}

/// Dispatches an inbound message on Bob's side: a fulfilled response carries
/// Alice's key share, a rejected one the reason; a request is unexpected,
/// since Bob only asks.
pub fn bob_out_event(peer: u128, message: &Message) -> (r: BobOutEvent)
    ensures
        match *message {
            Message::Request { .. } => r == BobOutEvent::UnexpectedRequest { peer },
            Message::Response { response, request_id } => match response {
                Response::Fullfilled { swap_id, s_a } => r
                    == BobOutEvent::CooperativeXmrRedeemFulfilled {
                    id: request_id,
                    swap_id,
                    s_a,
                },
                Response::Rejected { swap_id, reason } => r
                    == BobOutEvent::CooperativeXmrRedeemRejected {
                    id: request_id,
                    swap_id,
                    reason,
                },
            },
        },
{
    match message {
        Message::Request { .. } => BobOutEvent::UnexpectedRequest { peer },
        Message::Response { response, request_id } => match response {
            Response::Fullfilled { swap_id, s_a } => BobOutEvent::CooperativeXmrRedeemFulfilled {
                id: *request_id,
                swap_id: *swap_id,
                s_a: *s_a,
            },
            Response::Rejected { swap_id, reason } => BobOutEvent::CooperativeXmrRedeemRejected {
                id: *request_id,
                swap_id: *swap_id,
                reason: *reason,
            },
        },
    }
}

/// Alice's decision on a cooperative redeem request after the punish path:
/// an unknown swap is rejected as such; a request from a peer other than the
/// swap's counterparty is deemed malicious; only a swap she has punished is
/// answered with her key share.
pub fn alice_decide_cooperative_redeem(
    swap_id: u128,
    from_peer: u128,
    swap_peer: Option<u128>,
    state: Option<crate::protocol::AliceState>,
    s_a: &Sc,
) -> (r: Response)
    ensures
        state is None ==> r == (Response::Rejected {
            swap_id,
            reason: CooperativeXmrRedeemRejectReason::UnknownSwap,
        }),
        state is Some && !(swap_peer == Some(from_peer)) ==> r == (Response::Rejected {
            swap_id,
            reason: CooperativeXmrRedeemRejectReason::MaliciousRequest,
        }),
        state == Some(crate::protocol::AliceState::BtcPunished) && swap_peer == Some(from_peer)
            ==> r == (Response::Fullfilled { swap_id, s_a: *s_a }),
        state is Some && !(state == Some(crate::protocol::AliceState::BtcPunished)) && swap_peer
            == Some(from_peer) ==> r == (Response::Rejected {
            swap_id,
            reason: CooperativeXmrRedeemRejectReason::SwapInvalidState,
        }),
{
    match state {
        None => Response::Rejected {
            swap_id,
            reason: CooperativeXmrRedeemRejectReason::UnknownSwap,
        },
        Some(s) => {
            let peer_ok = match swap_peer {
                Some(p) => p == from_peer,
                None => false,
            };
            if !peer_ok {
                Response::Rejected {
                    swap_id,
                    reason: CooperativeXmrRedeemRejectReason::MaliciousRequest,
                }
            } else if matches!(s, crate::protocol::AliceState::BtcPunished) {
                Response::Fullfilled { swap_id, s_a: *s_a }
            } else {
                Response::Rejected {
                    swap_id,
                    reason: CooperativeXmrRedeemRejectReason::SwapInvalidState,
                }
            }
        },
    }
}

} // verus!
