//! The per-role swap state machines.
//!
//! Each side's protocol is a total step function from state and observed
//! event to successor state.  Unknown or stale events leave the state
//! unchanged, which makes resuming from a persisted state idempotent.  The
//! laws at the bottom establish that the reachable-state graph is acyclic
//! apart from those trivial self-loops, and that every non-terminal state has
//! a recovery path driven only by the local party and chain timelocks.

use vstd::prelude::*;

verus! {

/// A Bitcoin transaction id, as the two halves of its 32 bytes.
#[derive(Clone, Copy, Debug, PartialEq, Eq, Structural)]
pub struct Txid {
    pub hi: u128,
    pub lo: u128,
}

/// What a cancellable state carries: the id of the (pre-signed) cancel
/// transaction that can be rebuilt and broadcast from it.
#[derive(Clone, Copy, Debug, PartialEq, Eq, Structural)]
pub struct State6 {
    pub cancel_txid: Txid,
}

/// Bob's swap states, in protocol order.
#[derive(Clone, Copy, Debug, PartialEq, Eq, Structural)]
pub enum BobState {
    Started { btc_amount: u64 },
    SwapSetupCompleted,
    BtcLocked { state3: State6 },
    XmrLockProofReceived { state: State6 },
    XmrLocked { state4: State6 },
    EncSigSent { state4: State6 },
    BtcRedeemed,
    CancelTimelockExpired { state6: State6 },
    BtcCancelled { state6: State6 },
    BtcRefunded { state6: State6 },
    BtcPunished,
    XmrRedeemed { tx_hash: Txid },
    SafelyAborted,
}

/// The events Bob's executor can observe.
#[derive(Clone, Copy, Debug, PartialEq, Eq, Structural)]
pub enum BobEvent {
    /// Key and commitment exchange finished; lock transaction fully signed.
    SetupCompleted,
    /// Own Bitcoin lock transaction confirmed to depth.
    BtcLockConfirmed { state3: State6 },
    /// Alice's Monero lock transfer proof received.
    XmrLockProofReceived,
    /// The Monero lock reached its confirmation target.
    XmrLockConfirmed,
    /// The redeem pre-signature was delivered to Alice.
    EncSigDelivered,
    /// Alice's redeem transaction was observed on Bitcoin.
    BtcRedeemSeen,
    /// The cancel timelock expired without a redeem.
    CancelTimelockExpired,
    /// The cancel transaction confirmed.
    CancelConfirmed,
    /// The refund transaction confirmed.
    RefundConfirmed,
    /// Alice's punish transaction was observed.
    PunishSeen,
    /// Own Monero claim was broadcast.
    XmrClaimBroadcast { tx_hash: Txid },
    /// Abort before any on-chain effect.
    Abort,
}

/// Bob's transition function; events that do not apply to the current state
/// leave it unchanged.
pub open spec fn bob_step(s: BobState, e: BobEvent) -> BobState {
    match (s, e) {
        (BobState::Started { .. }, BobEvent::SetupCompleted) => BobState::SwapSetupCompleted,
        (BobState::Started { .. }, BobEvent::Abort) => BobState::SafelyAborted,
        (BobState::SwapSetupCompleted, BobEvent::BtcLockConfirmed { state3 }) =>
            BobState::BtcLocked { state3 },
        (BobState::SwapSetupCompleted, BobEvent::Abort) => BobState::SafelyAborted,
        (BobState::BtcLocked { state3 }, BobEvent::XmrLockProofReceived) =>
            BobState::XmrLockProofReceived { state: state3 },
        (BobState::BtcLocked { state3 }, BobEvent::CancelTimelockExpired) =>
            BobState::CancelTimelockExpired { state6: state3 },
        (BobState::XmrLockProofReceived { state }, BobEvent::XmrLockConfirmed) =>
            BobState::XmrLocked { state4: state },
        (BobState::XmrLockProofReceived { state }, BobEvent::CancelTimelockExpired) =>
            BobState::CancelTimelockExpired { state6: state },
        (BobState::XmrLocked { state4 }, BobEvent::EncSigDelivered) =>
            BobState::EncSigSent { state4 },
        (BobState::XmrLocked { state4 }, BobEvent::CancelTimelockExpired) =>
            BobState::CancelTimelockExpired { state6: state4 },
        (BobState::EncSigSent { .. }, BobEvent::BtcRedeemSeen) => BobState::BtcRedeemed,
        (BobState::EncSigSent { state4 }, BobEvent::CancelTimelockExpired) =>
            BobState::CancelTimelockExpired { state6: state4 },
        (BobState::BtcRedeemed, BobEvent::XmrClaimBroadcast { tx_hash }) =>
            BobState::XmrRedeemed { tx_hash },
        (BobState::CancelTimelockExpired { state6 }, BobEvent::CancelConfirmed) =>
            BobState::BtcCancelled { state6 },
        (BobState::BtcCancelled { state6 }, BobEvent::RefundConfirmed) =>
            BobState::BtcRefunded { state6 },
        (BobState::BtcCancelled { .. }, BobEvent::PunishSeen) => BobState::BtcPunished,
        _ => s,
    }
}

/// Executes one transition of Bob's state machine.
pub fn bob_next_state(s: &BobState, e: &BobEvent) -> (r: BobState)
    ensures
        r == bob_step(*s, *e),
{
    match (s, e) {
        (BobState::Started { .. }, BobEvent::SetupCompleted) => BobState::SwapSetupCompleted,
        (BobState::Started { .. }, BobEvent::Abort) => BobState::SafelyAborted,
        (BobState::SwapSetupCompleted, BobEvent::BtcLockConfirmed { state3 }) =>
            BobState::BtcLocked { state3: *state3 },
        (BobState::SwapSetupCompleted, BobEvent::Abort) => BobState::SafelyAborted,
        (BobState::BtcLocked { state3 }, BobEvent::XmrLockProofReceived) =>
            BobState::XmrLockProofReceived { state: *state3 },
        (BobState::BtcLocked { state3 }, BobEvent::CancelTimelockExpired) =>
            BobState::CancelTimelockExpired { state6: *state3 },
        (BobState::XmrLockProofReceived { state }, BobEvent::XmrLockConfirmed) =>
            BobState::XmrLocked { state4: *state },
        (BobState::XmrLockProofReceived { state }, BobEvent::CancelTimelockExpired) =>
            BobState::CancelTimelockExpired { state6: *state },
        (BobState::XmrLocked { state4 }, BobEvent::EncSigDelivered) =>
            BobState::EncSigSent { state4: *state4 },
        (BobState::XmrLocked { state4 }, BobEvent::CancelTimelockExpired) =>
            BobState::CancelTimelockExpired { state6: *state4 },
        (BobState::EncSigSent { .. }, BobEvent::BtcRedeemSeen) => BobState::BtcRedeemed,
        (BobState::EncSigSent { state4 }, BobEvent::CancelTimelockExpired) =>
            BobState::CancelTimelockExpired { state6: *state4 },
        (BobState::BtcRedeemed, BobEvent::XmrClaimBroadcast { tx_hash }) =>
            BobState::XmrRedeemed { tx_hash: *tx_hash },
        (BobState::CancelTimelockExpired { state6 }, BobEvent::CancelConfirmed) =>
            BobState::BtcCancelled { state6: *state6 },
        (BobState::BtcCancelled { state6 }, BobEvent::RefundConfirmed) =>
            BobState::BtcRefunded { state6: *state6 },
        (BobState::BtcCancelled { .. }, BobEvent::PunishSeen) => BobState::BtcPunished,
        _ => *s,
    }
}

/// Bob's terminal states.
pub open spec fn bob_is_terminal(s: BobState) -> bool {
    match s {
        BobState::XmrRedeemed { .. } => true,
        BobState::BtcRefunded { .. } => true,
        BobState::BtcPunished => true,
        BobState::SafelyAborted => true,
        _ => false,
    }
}

/// Executable form of `bob_is_terminal`.
pub fn bob_terminal(s: &BobState) -> (r: bool)
    ensures
        r == bob_is_terminal(*s),
{
    match s {
        BobState::XmrRedeemed { .. } => true,
        BobState::BtcRefunded { .. } => true,
        BobState::BtcPunished => true,
        BobState::SafelyAborted => true,
        _ => false,
    }
}

/// A topological rank of Bob's states: every real transition strictly
/// increases it.
pub open spec fn bob_rank(s: BobState) -> nat {
    match s {
        BobState::Started { .. } => 0,
        BobState::SwapSetupCompleted => 1,
        BobState::BtcLocked { .. } => 2,
        BobState::XmrLockProofReceived { .. } => 3,
        BobState::XmrLocked { .. } => 4,
        BobState::EncSigSent { .. } => 5,
        BobState::BtcRedeemed => 6,
        BobState::CancelTimelockExpired { .. } => 6,
        BobState::BtcCancelled { .. } => 7,
        BobState::BtcRefunded { .. } => 8,
        BobState::BtcPunished => 8,
        BobState::XmrRedeemed { .. } => 7,
        BobState::SafelyAborted => 9,
    }
}

/// Monotonicity of Bob's machine: apart from the trivial self-loop on an
/// event that does not apply, every transition strictly increases the rank,
/// so the reachable-state graph has no cycles.
pub proof fn lemma_bob_monotonic(s: BobState, e: BobEvent)
    ensures
        bob_step(s, e) == s || bob_rank(bob_step(s, e)) > bob_rank(s),
{
}

/// Resume idempotence of Bob's machine: replaying the event that produced a
/// persisted state leaves that state unchanged, so a crash between the
/// persist and the following effect is harmless.
pub proof fn lemma_bob_resume_idempotent(s: BobState, e: BobEvent)
    ensures
        bob_step(bob_step(s, e), e) == bob_step(s, e),
{
}

/// Folds a sequence of events through Bob's machine.
pub open spec fn bob_run(s: BobState, es: Seq<BobEvent>) -> BobState
    decreases es.len(),
{
    if es.len() == 0 {
        s
    } else {
        bob_run(bob_step(s, es[0]), es.subrange(1, es.len() as int))
    }
}

/// Events driven solely by Bob and the chain's timelocks: aborting before any
/// on-chain effect, the cancel timelock expiring, Bob's own cancel, refund
/// and Monero-claim broadcasts confirming.
pub open spec fn bob_local_event(e: BobEvent) -> bool {
    match e {
        BobEvent::Abort => true,
        BobEvent::CancelTimelockExpired => true,
        BobEvent::CancelConfirmed => true,
        BobEvent::RefundConfirmed => true,
        BobEvent::XmrClaimBroadcast { .. } => true,
        _ => false,
    }
}

/// At-least-one-recovery for Bob: from every state there is a sequence of
/// local-only events that reaches a terminal state, without the
/// counterparty's cooperation.
pub fn bob_recovery_events(s: &BobState) -> (r: Vec<BobEvent>)
    ensures
        forall|i: int| 0 <= i < r@.len() ==> bob_local_event(r@[i]),
        bob_is_terminal(bob_run(*s, r@)),
        bob_is_terminal(*s) ==> r@.len() == 0,
{
    let mut r: Vec<BobEvent> = Vec::new();
    match s {
        BobState::Started { .. } | BobState::SwapSetupCompleted => {
            r.push(BobEvent::Abort);
        },
        BobState::BtcLocked { .. } | BobState::XmrLockProofReceived { .. }
            | BobState::XmrLocked { .. } | BobState::EncSigSent { .. } => {
            r.push(BobEvent::CancelTimelockExpired);
            r.push(BobEvent::CancelConfirmed);
            r.push(BobEvent::RefundConfirmed);
        },
        BobState::BtcRedeemed => {
            r.push(BobEvent::XmrClaimBroadcast { tx_hash: Txid { hi: 0, lo: 0 } });
        },
        BobState::CancelTimelockExpired { .. } => {
            r.push(BobEvent::CancelConfirmed);
            r.push(BobEvent::RefundConfirmed);
        },
        BobState::BtcCancelled { .. } => {
            r.push(BobEvent::RefundConfirmed);
        },
        BobState::BtcRefunded { .. } | BobState::BtcPunished | BobState::XmrRedeemed { .. }
            | BobState::SafelyAborted => {},
    }
    proof {
        lemma_bob_run_terminal(*s, r@);
    }
    r
}

/// Each recovery sequence above indeed ends terminal: unfolds `bob_run` over
/// the short sequences case by case.
proof fn lemma_bob_run_terminal(s: BobState, es: Seq<BobEvent>)
    requires
        es.len() <= 3,
        bob_is_terminal(s) ==> es.len() == 0,
        !bob_is_terminal(s) ==> bob_is_terminal(bob_run_unrolled(s, es)),
    ensures
        bob_is_terminal(bob_run(s, es)),
{
    lemma_bob_run_eq_unrolled(s, es);
}

/// `bob_run` on sequences of length at most three, written out.
pub open spec fn bob_run_unrolled(s: BobState, es: Seq<BobEvent>) -> BobState {
    if es.len() == 0 {
        s
    } else if es.len() == 1 {
        bob_step(s, es[0])
    } else if es.len() == 2 {
        bob_step(bob_step(s, es[0]), es[1])
    } else {
        bob_step(bob_step(bob_step(s, es[0]), es[1]), es[2])
    }
}

/// The fold agrees with the unrolled form on short sequences.
proof fn lemma_bob_run_eq_unrolled(s: BobState, es: Seq<BobEvent>)
    requires
        es.len() <= 3,
    ensures
        bob_run(s, es) == bob_run_unrolled(s, es),
    decreases es.len(),
{
    if es.len() > 0 {
        let tail = es.subrange(1, es.len() as int);
        lemma_bob_run_eq_unrolled(bob_step(s, es[0]), tail);
        if es.len() == 2 {
            assert(tail[0] == es[1]);
        }
        if es.len() == 3 {
            assert(tail[0] == es[1]);
            assert(tail[1] == es[2]);
        }
    }
}

/// Alice's swap states, in protocol order.
#[derive(Clone, Copy, Debug, PartialEq, Eq, Structural)]
pub enum AliceState {
    Started { xmr_amount: u64 },
    BtcLocked,
    XmrLockTransactionSent { tx_hash: Txid },
    XmrLocked,
    EncSigLearned,
    BtcRedeemed,
    CancelTimelockExpired,
    BtcCancelled,
    XmrRefunded,
    BtcPunished,
    SafelyAborted,
}

/// The events Alice's executor can observe.
#[derive(Clone, Copy, Debug, PartialEq, Eq, Structural)]
pub enum AliceEvent {
    /// Bob's Bitcoin lock transaction confirmed to depth.
    BtcLockSeen,
    /// Own Monero lock transaction broadcast.
    XmrLockBroadcast { tx_hash: Txid },
    /// The Monero lock reached its confirmation target.
    XmrLockConfirmed,
    /// Bob's redeem pre-signature arrived.
    EncSigReceived,
    /// Own Bitcoin redeem transaction confirmed.
    BtcRedeemConfirmed,
    /// The cancel timelock expired without a redeem.
    CancelTimelockExpired,
    /// The cancel transaction confirmed.
    CancelConfirmed,
    /// Bob's refund was seen; own Monero was reclaimed.
    BtcRefundSeen,
    /// Own punish transaction confirmed after the punish timelock.
    PunishConfirmed,
    /// Abort before any on-chain effect.
    Abort,
}

/// Alice's transition function; events that do not apply leave the state
/// unchanged.
pub open spec fn alice_step(s: AliceState, e: AliceEvent) -> AliceState {
    match (s, e) {
        (AliceState::Started { .. }, AliceEvent::BtcLockSeen) => AliceState::BtcLocked,
        (AliceState::Started { .. }, AliceEvent::Abort) => AliceState::SafelyAborted,
        (AliceState::BtcLocked, AliceEvent::XmrLockBroadcast { tx_hash }) =>
            AliceState::XmrLockTransactionSent { tx_hash },
        (AliceState::BtcLocked, AliceEvent::CancelTimelockExpired) =>
            AliceState::CancelTimelockExpired,
        (AliceState::XmrLockTransactionSent { .. }, AliceEvent::XmrLockConfirmed) =>
            AliceState::XmrLocked,
        (AliceState::XmrLockTransactionSent { .. }, AliceEvent::CancelTimelockExpired) =>
            AliceState::CancelTimelockExpired,
        (AliceState::XmrLocked, AliceEvent::EncSigReceived) => AliceState::EncSigLearned,
        (AliceState::XmrLocked, AliceEvent::CancelTimelockExpired) =>
            AliceState::CancelTimelockExpired,
        (AliceState::EncSigLearned, AliceEvent::BtcRedeemConfirmed) => AliceState::BtcRedeemed,
        (AliceState::EncSigLearned, AliceEvent::CancelTimelockExpired) =>
            AliceState::CancelTimelockExpired,
        (AliceState::CancelTimelockExpired, AliceEvent::CancelConfirmed) =>
            AliceState::BtcCancelled,
        (AliceState::BtcCancelled, AliceEvent::BtcRefundSeen) => AliceState::XmrRefunded,
        (AliceState::BtcCancelled, AliceEvent::PunishConfirmed) => AliceState::BtcPunished,
        _ => s,
    }
}

/// Executes one transition of Alice's state machine.
pub fn alice_next_state(s: &AliceState, e: &AliceEvent) -> (r: AliceState)
    ensures
        r == alice_step(*s, *e),
{
    match (s, e) {
        (AliceState::Started { .. }, AliceEvent::BtcLockSeen) => AliceState::BtcLocked,
        (AliceState::Started { .. }, AliceEvent::Abort) => AliceState::SafelyAborted,
        (AliceState::BtcLocked, AliceEvent::XmrLockBroadcast { tx_hash }) =>
            AliceState::XmrLockTransactionSent { tx_hash: *tx_hash },
        (AliceState::BtcLocked, AliceEvent::CancelTimelockExpired) =>
            AliceState::CancelTimelockExpired,
        (AliceState::XmrLockTransactionSent { .. }, AliceEvent::XmrLockConfirmed) =>
            AliceState::XmrLocked,
        (AliceState::XmrLockTransactionSent { .. }, AliceEvent::CancelTimelockExpired) =>
            AliceState::CancelTimelockExpired,
        (AliceState::XmrLocked, AliceEvent::EncSigReceived) => AliceState::EncSigLearned,
        (AliceState::XmrLocked, AliceEvent::CancelTimelockExpired) =>
            AliceState::CancelTimelockExpired,
        (AliceState::EncSigLearned, AliceEvent::BtcRedeemConfirmed) => AliceState::BtcRedeemed,
        (AliceState::EncSigLearned, AliceEvent::CancelTimelockExpired) =>
            AliceState::CancelTimelockExpired,
        (AliceState::CancelTimelockExpired, AliceEvent::CancelConfirmed) =>
            AliceState::BtcCancelled,
        (AliceState::BtcCancelled, AliceEvent::BtcRefundSeen) => AliceState::XmrRefunded,
        (AliceState::BtcCancelled, AliceEvent::PunishConfirmed) => AliceState::BtcPunished,
        _ => *s,
    }
}

/// Alice's terminal states.
pub open spec fn alice_is_terminal(s: AliceState) -> bool {
    match s {
        AliceState::BtcRedeemed => true,
        AliceState::XmrRefunded => true,
        AliceState::BtcPunished => true,
        AliceState::SafelyAborted => true,
        _ => false,
    }
}

/// Executable form of `alice_is_terminal`.
pub fn alice_terminal(s: &AliceState) -> (r: bool)
    ensures
        r == alice_is_terminal(*s),
{
    match s {
        AliceState::BtcRedeemed => true,
        AliceState::XmrRefunded => true,
        AliceState::BtcPunished => true,
        AliceState::SafelyAborted => true,
        _ => false,
    }
}

/// A topological rank of Alice's states.
pub open spec fn alice_rank(s: AliceState) -> nat {
    match s {
        AliceState::Started { .. } => 0,
        AliceState::BtcLocked => 1,
        AliceState::XmrLockTransactionSent { .. } => 2,
        AliceState::XmrLocked => 3,
        AliceState::EncSigLearned => 4,
        AliceState::BtcRedeemed => 5,
        AliceState::CancelTimelockExpired => 5,
        AliceState::BtcCancelled => 6,
        AliceState::XmrRefunded => 7,
        AliceState::BtcPunished => 7,
        AliceState::SafelyAborted => 9,
    }
}

/// Monotonicity of Alice's machine: no cycles apart from the trivial
/// self-loop on an event that does not apply.
pub proof fn lemma_alice_monotonic(s: AliceState, e: AliceEvent)
    ensures
        alice_step(s, e) == s || alice_rank(alice_step(s, e)) > alice_rank(s),
{
}

/// Resume idempotence of Alice's machine.
pub proof fn lemma_alice_resume_idempotent(s: AliceState, e: AliceEvent)
    ensures
        alice_step(alice_step(s, e), e) == alice_step(s, e),
{
}

/// Folds a sequence of events through Alice's machine.
pub open spec fn alice_run(s: AliceState, es: Seq<AliceEvent>) -> AliceState
    decreases es.len(),
{
    if es.len() == 0 {
        s
    } else {
        alice_run(alice_step(s, es[0]), es.subrange(1, es.len() as int))
    }
}

/// Events driven solely by Alice and the chain's timelocks.
pub open spec fn alice_local_event(e: AliceEvent) -> bool {
    match e {
        AliceEvent::Abort => true,
        AliceEvent::CancelTimelockExpired => true,
        AliceEvent::CancelConfirmed => true,
        AliceEvent::PunishConfirmed => true,
        AliceEvent::BtcRedeemConfirmed => true,
        _ => false,
    }
}

/// `alice_run` on sequences of length at most three, written out.
pub open spec fn alice_run_unrolled(s: AliceState, es: Seq<AliceEvent>) -> AliceState {
    if es.len() == 0 {
        s
    } else if es.len() == 1 {
        alice_step(s, es[0])
    } else if es.len() == 2 {
        alice_step(alice_step(s, es[0]), es[1])
    } else {
        alice_step(alice_step(alice_step(s, es[0]), es[1]), es[2])
    }
}

/// The fold agrees with the unrolled form on short sequences.
proof fn lemma_alice_run_eq_unrolled(s: AliceState, es: Seq<AliceEvent>)
    requires
        es.len() <= 3,
    ensures
        alice_run(s, es) == alice_run_unrolled(s, es),
    decreases es.len(),
{
    if es.len() > 0 {
        let tail = es.subrange(1, es.len() as int);
        lemma_alice_run_eq_unrolled(alice_step(s, es[0]), tail);
        if es.len() == 2 {
            assert(tail[0] == es[1]);
        }
        if es.len() == 3 {
            assert(tail[0] == es[1]);
            assert(tail[1] == es[2]);
        }
    }
}

/// At-least-one-recovery for Alice: from every state there is a sequence of
/// local-only events reaching a terminal state.  After the encrypted
/// signature is learned Alice redeems on her own; otherwise the cancel and
/// punish path applies.
pub fn alice_recovery_events(s: &AliceState) -> (r: Vec<AliceEvent>)
    ensures
        forall|i: int| 0 <= i < r@.len() ==> alice_local_event(r@[i]),
        alice_is_terminal(alice_run(*s, r@)),
        alice_is_terminal(*s) ==> r@.len() == 0,
{
    let mut r: Vec<AliceEvent> = Vec::new();
    match s {
        AliceState::Started { .. } => {
            r.push(AliceEvent::Abort);
        },
        AliceState::BtcLocked | AliceState::XmrLockTransactionSent { .. }
            | AliceState::XmrLocked => {
            r.push(AliceEvent::CancelTimelockExpired);
            r.push(AliceEvent::CancelConfirmed);
            r.push(AliceEvent::PunishConfirmed);
        },
        AliceState::EncSigLearned => {
            r.push(AliceEvent::BtcRedeemConfirmed);
        },
        AliceState::CancelTimelockExpired => {
            r.push(AliceEvent::CancelConfirmed);
            r.push(AliceEvent::PunishConfirmed);
        },
        AliceState::BtcCancelled => {
            r.push(AliceEvent::PunishConfirmed);
        },
        AliceState::BtcRedeemed | AliceState::XmrRefunded | AliceState::BtcPunished
            | AliceState::SafelyAborted => {},
    }
    proof {
        lemma_alice_run_eq_unrolled(*s, r@);
    }
    r
}


/// A persisted state, tagged with the role it belongs to.
#[derive(Clone, Copy, Debug, PartialEq, Eq, Structural)]
pub enum State {
    Alice(AliceState),
    Bob(BobState),
}

/// The two relative timelocks of a swap, in Bitcoin blocks.
#[derive(Clone, Copy, Debug, PartialEq, Eq, Structural)]
pub struct Timelocks {
    /// Blocks after the lock transaction before the cancel transaction may
    /// be mined.
    pub cancel: u32,
    /// Blocks after the cancel transaction before the punish transaction may
    /// be mined; the refund stays spendable during this window.
    pub punish: u32,
}

/// Which timelock has expired, given how deep the lock and cancel
/// transactions are.
#[derive(Clone, Copy, Debug, PartialEq, Eq, Structural)]
pub enum ExpiredTimelock {
    NotYet,
    Cancel,
    Punish,
}

/// Decides the timelock status: the cancel timelock counts from the lock
/// transaction's confirmations, the punish timelock from the cancel
/// transaction's.
pub fn expired_timelock(
    timelocks: &Timelocks,
    lock_confirmations: u32,
    cancel_confirmations: u32,
) -> (r: ExpiredTimelock)
    ensures
        r == ExpiredTimelock::NotYet <==> lock_confirmations < timelocks.cancel,
        r == ExpiredTimelock::Punish <==> lock_confirmations >= timelocks.cancel
            && cancel_confirmations >= timelocks.punish,
        r == ExpiredTimelock::Cancel <==> lock_confirmations >= timelocks.cancel
            && cancel_confirmations < timelocks.punish,
{
    if lock_confirmations < timelocks.cancel {
        ExpiredTimelock::NotYet
    } else if cancel_confirmations >= timelocks.punish {
        ExpiredTimelock::Punish
    } else {
        ExpiredTimelock::Cancel
    }
}

/// The retry backoff is capped at five minutes.
pub const MAX_BACKOFF_SECS: u64 = 300;

/// Doubles the retry backoff of a transient failure, capped at five minutes.
pub fn next_backoff_secs(current: u64) -> (r: u64)
    requires
        1 <= current <= MAX_BACKOFF_SECS,
    ensures
        r == if 2 * current <= MAX_BACKOFF_SECS {
            (2 * current) as int
        } else {
            MAX_BACKOFF_SECS as int
        },
        1 <= r <= MAX_BACKOFF_SECS,
{
    if current <= MAX_BACKOFF_SECS / 2 {
        2 * current
    } else {
        MAX_BACKOFF_SECS
    }
}

} // verus!
