use swap_core::cooperative_xmr_redeem_after_punish::{
    alice, alice_decide_cooperative_redeem, alice_out_event, bob, bob_out_event, AliceOutEvent,
    BobOutEvent, CooperativeXmrRedeemProtocol, CooperativeXmrRedeemRejectReason, Message,
    ProtocolDirection, Request, Response,
};
use swap_core::protocol::AliceState;
use swap_core::ed25519::sc_from_u64;
use swap_core::swap_request::{
    Behaviour, OutEvent, RequestResponseEvent, SwapRequest, SwapResponse, TransportMessage,
    TransportResponse, TIMEOUT,
};

#[test]
fn protocol_name_is_stable() {
    let p = CooperativeXmrRedeemProtocol;
    assert_eq!(p.protocol_name(), "/comit/xmr/btc/cooperative_xmr_redeem_after_punish/1.0.0");
}

#[test]
fn alice_serves_inbound_and_bob_asks_outbound() {
    assert_eq!(alice().direction, ProtocolDirection::Inbound);
    assert_eq!(bob().direction, ProtocolDirection::Outbound);
}

#[test]
fn reject_reasons_have_messages() {
    assert_eq!(
        CooperativeXmrRedeemRejectReason::UnknownSwap.message(),
        "Alice does not have a record of the swap"
    );
    assert_eq!(
        CooperativeXmrRedeemRejectReason::MaliciousRequest.message(),
        "Alice rejected the request because it deemed it malicious"
    );
    assert_eq!(
        CooperativeXmrRedeemRejectReason::SwapInvalidState.message(),
        "Alice is in a state where a cooperative redeem is not possible"
    );
}

#[test]
fn alice_dispatches_requests_and_flags_responses() {
    let msg = Message::Request { request: Request { swap_id: 42 }, channel_id: 7 };
    assert_eq!(
        alice_out_event(5, &msg),
        AliceOutEvent::CooperativeXmrRedeemRequested { swap_id: 42, channel_id: 7, peer: 5 }
    );
    let msg = Message::Response {
        response: Response::Fullfilled { swap_id: 42, s_a: sc_from_u64(9) },
        request_id: 3,
    };
    assert_eq!(alice_out_event(5, &msg), AliceOutEvent::UnexpectedResponse { peer: 5 });
}

#[test]
fn bob_dispatches_responses_and_flags_requests() {
    let s_a = sc_from_u64(9);
    let msg = Message::Response {
        response: Response::Fullfilled { swap_id: 42, s_a },
        request_id: 3,
    };
    assert_eq!(
        bob_out_event(5, &msg),
        BobOutEvent::CooperativeXmrRedeemFulfilled { id: 3, swap_id: 42, s_a }
    );
    let msg = Message::Response {
        response: Response::Rejected {
            swap_id: 42,
            reason: CooperativeXmrRedeemRejectReason::UnknownSwap,
        },
        request_id: 3,
    };
    assert_eq!(
        bob_out_event(5, &msg),
        BobOutEvent::CooperativeXmrRedeemRejected {
            id: 3,
            swap_id: 42,
            reason: CooperativeXmrRedeemRejectReason::UnknownSwap,
        }
    );
    let msg = Message::Request { request: Request { swap_id: 42 }, channel_id: 7 };
    assert_eq!(bob_out_event(5, &msg), BobOutEvent::UnexpectedRequest { peer: 5 });
}

#[test]
fn behaviour_queues_swap_responses_in_order() {
    let mut b = Behaviour::default();
    assert_eq!(b.poll(), None);

    let id = b.send(1, SwapRequest { btc_amount: 1_000_000 }).unwrap();
    assert_eq!(id, 0);
    let id2 = b.send(1, SwapRequest { btc_amount: 2_000_000 }).unwrap();
    assert_eq!(id2, 1);

    b.inject_event(RequestResponseEvent::Message {
        peer: 1,
        message: TransportMessage::Response {
            request_id: id,
            response: TransportResponse::SwapResponse {
                swap_response: SwapResponse { xmr_amount: 10 },
            },
        },
    });
    b.inject_event(RequestResponseEvent::InboundFailure { peer: 1 });
    b.inject_event(RequestResponseEvent::OutboundFailure { peer: 1 });
    b.inject_event(RequestResponseEvent::ResponseSent { peer: 1 });
    b.inject_event(RequestResponseEvent::Message {
        peer: 1,
        message: TransportMessage::Response {
            request_id: id2,
            response: TransportResponse::SwapResponse {
                swap_response: SwapResponse { xmr_amount: 20 },
            },
        },
    });

    assert_eq!(b.poll(), Some(OutEvent { swap_response: SwapResponse { xmr_amount: 10 } }));
    assert_eq!(b.poll(), Some(OutEvent { swap_response: SwapResponse { xmr_amount: 20 } }));
    assert_eq!(b.poll(), None);
}

#[test]
fn behaviour_ignores_non_swap_responses() {
    let mut b = Behaviour::default();
    b.inject_event(RequestResponseEvent::Message {
        peer: 1,
        message: TransportMessage::Response {
            request_id: 0,
            response: TransportResponse::Other,
        },
    });
    assert_eq!(b.poll(), None);
}

#[test]
fn default_timeout_is_sixty_seconds() {
    assert_eq!(TIMEOUT, 60);
    let _ = Behaviour::default();
}

#[test]
fn alice_cooperative_redeem_decision() {
    let s_a = sc_from_u64(9);

    // Unknown swap.
    let r = alice_decide_cooperative_redeem(42, 5, None, None, &s_a);
    assert_eq!(
        r,
        Response::Rejected { swap_id: 42, reason: CooperativeXmrRedeemRejectReason::UnknownSwap }
    );

    // Request from the wrong peer.
    let r = alice_decide_cooperative_redeem(42, 5, Some(6), Some(AliceState::BtcPunished), &s_a);
    assert_eq!(
        r,
        Response::Rejected {
            swap_id: 42,
            reason: CooperativeXmrRedeemRejectReason::MaliciousRequest,
        }
    );

    // Swap not in the punished state.
    let r = alice_decide_cooperative_redeem(42, 5, Some(5), Some(AliceState::BtcLocked), &s_a);
    assert_eq!(
        r,
        Response::Rejected {
            swap_id: 42,
            reason: CooperativeXmrRedeemRejectReason::SwapInvalidState,
        }
    );

    // Punished swap, right peer: the key share is handed out.
    let r = alice_decide_cooperative_redeem(42, 5, Some(5), Some(AliceState::BtcPunished), &s_a);
    assert_eq!(r, Response::Fullfilled { swap_id: 42, s_a });
}
