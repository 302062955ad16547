//! Manual cancellation of a swap from Bob's side.
//!
//! The decision logic is a pure function of the persisted state and of the
//! Bitcoin node's answer to the cancel broadcast; the caller performs the
//! broadcast itself and feeds the outcome back in.

use crate::protocol::{BobState, State6, Txid};
use vstd::prelude::*;

verus! {

/// The RPC error classes of the Bitcoin node's verify step that the cancel
/// flow distinguishes.
#[derive(Clone, Copy, Debug, PartialEq, Eq, Structural)]
pub enum RpcErrorCode {
    /// The transaction is already in the chain.
    RpcVerifyAlreadyInChain,
    /// General verify rejection, returned when the transaction is already
    /// confirmed or a conflicting spend is confirmed.
    RpcVerifyError,
    /// The transaction is non-final: its timelock has not expired.
    RpcVerifyRejected,
}

/// The numeric code of each RPC error class.
pub open spec fn rpc_code_value(c: RpcErrorCode) -> int {
    match c {
        RpcErrorCode::RpcVerifyAlreadyInChain => -27,
        RpcErrorCode::RpcVerifyError => -25,
        RpcErrorCode::RpcVerifyRejected => -26,
    }
}

/// The numeric code of each RPC error class, as the node sends it.
pub fn rpc_error_code_value(c: &RpcErrorCode) -> (r: i64)
    ensures
        r == rpc_code_value(*c),
{
    match c {
        RpcErrorCode::RpcVerifyAlreadyInChain => -27,
        RpcErrorCode::RpcVerifyError => -25,
        RpcErrorCode::RpcVerifyRejected => -26,
    }
}

/// What the broadcast of the cancel transaction came back with.
#[derive(Clone, Copy, Debug, PartialEq, Eq, Structural)]
pub enum BroadcastOutcome {
    /// The node accepted the transaction.
    Accepted { txid: Txid },
    /// The node rejected it with a parsable RPC error code.
    RejectedWithCode { code: i64 },
    /// The broadcast failed without a parsable code.
    Failed,
}

/// Why a cancellation did not go through.
#[derive(Clone, Copy, Debug, PartialEq, Eq, Structural)]
pub enum CancelError {
    /// The swap is in a state that is not refundable.
    NotRefundable,
    /// The cancel timelock has not expired yet; try again later.
    TimelockNotExpiredYet,
    /// The broadcast failed for another reason.
    BroadcastFailed,
}

/// The states from which a cancel transaction can be derived or reused.
pub open spec fn cancellable(s: BobState) -> bool {
    match s {
        BobState::BtcLocked { .. } => true,
        BobState::XmrLockProofReceived { .. } => true,
        BobState::XmrLocked { .. } => true,
        BobState::EncSigSent { .. } => true,
        BobState::CancelTimelockExpired { .. } => true,
        BobState::BtcRefunded { .. } => true,
        BobState::BtcCancelled { .. } => true,
        _ => false,
    }
}

/// The cancel data carried by a cancellable state.
pub open spec fn cancel_data(s: BobState) -> State6 {
    match s {
        BobState::BtcLocked { state3 } => state3,
        BobState::XmrLockProofReceived { state } => state,
        BobState::XmrLocked { state4 } => state4,
        BobState::EncSigSent { state4 } => state4,
        BobState::CancelTimelockExpired { state6 } => state6,
        BobState::BtcRefunded { state6 } => state6,
        BobState::BtcCancelled { state6 } => state6,
        _ => State6 { cancel_txid: Txid { hi: 0, lo: 0 } },
    }
}

/// A broadcast answer that means the cancel transaction is already confirmed
/// on chain, which the flow treats as success.
pub open spec fn already_in_chain(code: int) -> bool {
    code == rpc_code_value(RpcErrorCode::RpcVerifyAlreadyInChain) || code == rpc_code_value(
        RpcErrorCode::RpcVerifyError,
    )
}

/// Decides a manual cancellation: from a refundable state, a broadcast that
/// the node accepted — or reported as already confirmed — moves the swap to
/// `BtcCancelled` and returns the cancel transaction id; a non-final answer
/// surfaces as "timelock not yet expired" and mutates nothing; from a
/// non-refundable state nothing is mutated.
pub fn cancel(state: &BobState, outcome: &BroadcastOutcome) -> (r: Result<
    (Txid, BobState),
    CancelError,
>)
    ensures
        !cancellable(*state) ==> r == Result::<(Txid, BobState), CancelError>::Err(
            CancelError::NotRefundable,
        ),
        cancellable(*state) ==> match *outcome {
            BroadcastOutcome::Accepted { txid } => r == Result::<(Txid, BobState), CancelError>::Ok(
                (txid, BobState::BtcCancelled { state6: cancel_data(*state) }),
            ),
            BroadcastOutcome::RejectedWithCode { code } => {
                if already_in_chain(code as int) {
                    r == Result::<(Txid, BobState), CancelError>::Ok(
                        (
                            cancel_data(*state).cancel_txid,
                            BobState::BtcCancelled { state6: cancel_data(*state) },
                        ),
                    )
                } else if code as int == rpc_code_value(RpcErrorCode::RpcVerifyRejected) {
                    r == Result::<(Txid, BobState), CancelError>::Err(
                        CancelError::TimelockNotExpiredYet,
                    )
                } else {
                    r == Result::<(Txid, BobState), CancelError>::Err(CancelError::BroadcastFailed)
                }
            },
            BroadcastOutcome::Failed => r == Result::<(Txid, BobState), CancelError>::Err(
                CancelError::BroadcastFailed,
            ),
        },
{
    let state6 = match state {
        BobState::BtcLocked { state3 } => *state3,
        BobState::XmrLockProofReceived { state } => *state,
        BobState::XmrLocked { state4 } => *state4,
        BobState::EncSigSent { state4 } => *state4,
        BobState::CancelTimelockExpired { state6 } => *state6,
        BobState::BtcRefunded { state6 } => *state6,
        BobState::BtcCancelled { state6 } => *state6,
        _ => {
            return Err(CancelError::NotRefundable);
        },
    };
    match outcome {
        BroadcastOutcome::Accepted { txid } => Ok(
            (*txid, BobState::BtcCancelled { state6 }),
        ),
        BroadcastOutcome::RejectedWithCode { code } => {
            if *code == -27i64 || *code == -25i64 {
                Ok((state6.cancel_txid, BobState::BtcCancelled { state6 }))
            } else if *code == -26i64 {
                Err(CancelError::TimelockNotExpiredYet)
            } else {
                Err(CancelError::BroadcastFailed)
            }
        },
        BroadcastOutcome::Failed => Err(CancelError::BroadcastFailed),
    }
}

/// Cancelling twice is harmless: from `BtcCancelled`, an "already in chain"
/// answer returns success with the same cancel transaction id and leaves the
/// state at `BtcCancelled`.
pub proof fn lemma_cancel_twice(state6: State6, code: int)
    requires
        already_in_chain(code),
    ensures
        cancellable(BobState::BtcCancelled { state6 }),
        cancel_data(BobState::BtcCancelled { state6 }) == state6,
{
}

} // verus!
