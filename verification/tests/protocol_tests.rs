use swap_core::cancel::{cancel, rpc_error_code_value, BroadcastOutcome, CancelError, RpcErrorCode};
use swap_core::database::{migrate, open_db, DbBackend, DbError, Store, Swap};
use swap_core::protocol::{
    alice_next_state, alice_recovery_events, alice_terminal, bob_next_state, bob_recovery_events,
    bob_terminal, expired_timelock, next_backoff_secs, AliceEvent, AliceState, BobEvent, BobState,
    ExpiredTimelock, State, State6, Timelocks, Txid,
};

fn txid(n: u128) -> Txid {
    Txid { hi: n, lo: n + 1 }
}

fn state6(n: u128) -> State6 {
    State6 { cancel_txid: txid(n) }
}

fn run_bob(start: BobState, events: &[BobEvent]) -> BobState {
    let mut s = start;
    for e in events {
        s = bob_next_state(&s, e);
    }
    s
}

fn run_alice(start: AliceState, events: &[AliceEvent]) -> AliceState {
    let mut s = start;
    for e in events {
        s = alice_next_state(&s, e);
    }
    s
}

#[test]
fn happy_path_bob_redeems_xmr() {
    // Bob locks BTC, Alice locks XMR, Bob sends the encrypted signature,
    // Alice redeems, Bob extracts the share and claims the Monero.
    let end = run_bob(
        BobState::Started { btc_amount: 1_000_000 },
        &[
            BobEvent::SetupCompleted,
            BobEvent::BtcLockConfirmed { state3: state6(1) },
            BobEvent::XmrLockProofReceived,
            BobEvent::XmrLockConfirmed,
            BobEvent::EncSigDelivered,
            BobEvent::BtcRedeemSeen,
            BobEvent::XmrClaimBroadcast { tx_hash: txid(9) },
        ],
    );
    assert_eq!(end, BobState::XmrRedeemed { tx_hash: txid(9) });
    assert!(bob_terminal(&end));
}

#[test]
fn happy_path_alice_redeems_btc() {
    let end = run_alice(
        AliceState::Started { xmr_amount: 1_000_000_000_000 },
        &[
            AliceEvent::BtcLockSeen,
            AliceEvent::XmrLockBroadcast { tx_hash: txid(2) },
            AliceEvent::XmrLockConfirmed,
            AliceEvent::EncSigReceived,
            AliceEvent::BtcRedeemConfirmed,
        ],
    );
    assert_eq!(end, AliceState::BtcRedeemed);
    assert!(alice_terminal(&end));
}

#[test]
fn bob_refunds_when_xmr_never_locked() {
    // Alice never publishes the Monero lock; after the cancel timelock Bob
    // cancels and refunds.
    let end = run_bob(
        BobState::Started { btc_amount: 1_000_000 },
        &[
            BobEvent::SetupCompleted,
            BobEvent::BtcLockConfirmed { state3: state6(3) },
            BobEvent::CancelTimelockExpired,
            BobEvent::CancelConfirmed,
            BobEvent::RefundConfirmed,
        ],
    );
    assert_eq!(end, BobState::BtcRefunded { state6: state6(3) });
}

#[test]
fn bob_resumes_after_alice_redeemed() {
    // Bob goes offline after sending the encrypted signature; on resume his
    // executor observes the redeem and advances to XmrRedeemed.
    let mut store = Store::new();
    let id: u128 = 77;
    store.insert_latest_state(id, Swap::Bob(BobState::EncSigSent { state4: state6(4) }));

    let after_redeem =
        swap_core::database::resume_bob(&mut store, id, &BobEvent::BtcRedeemSeen).unwrap();
    assert_eq!(after_redeem, BobState::BtcRedeemed);
    assert_eq!(store.get_state(id), Some(Swap::Bob(BobState::BtcRedeemed)));

    let claimed = swap_core::database::resume_bob(
        &mut store,
        id,
        &BobEvent::XmrClaimBroadcast { tx_hash: txid(5) },
    )
    .unwrap();
    assert_eq!(claimed, BobState::XmrRedeemed { tx_hash: txid(5) });
}

#[test]
fn bob_punished_when_offline_past_punish_timelock() {
    // Alice cancels at the cancel timelock and punishes after the punish
    // timelock; Bob comes back to a punished swap.
    let alice_end = run_alice(
        AliceState::Started { xmr_amount: 1 },
        &[
            AliceEvent::BtcLockSeen,
            AliceEvent::XmrLockBroadcast { tx_hash: txid(6) },
            AliceEvent::XmrLockConfirmed,
            AliceEvent::CancelTimelockExpired,
            AliceEvent::CancelConfirmed,
            AliceEvent::PunishConfirmed,
        ],
    );
    assert_eq!(alice_end, AliceState::BtcPunished);

    let bob_end = run_bob(
        BobState::BtcCancelled { state6: state6(7) },
        &[BobEvent::PunishSeen],
    );
    assert_eq!(bob_end, BobState::BtcPunished);
}

#[test]
fn resume_is_idempotent_concrete() {
    // Replaying the event that produced a state leaves the state unchanged.
    let s = BobState::SwapSetupCompleted;
    let e = BobEvent::BtcLockConfirmed { state3: state6(8) };
    let once = bob_next_state(&s, &e);
    let twice = bob_next_state(&once, &e);
    assert_eq!(once, twice);
}

#[test]
fn recovery_paths_reach_terminal_states() {
    let states = [
        BobState::Started { btc_amount: 5 },
        BobState::SwapSetupCompleted,
        BobState::BtcLocked { state3: state6(1) },
        BobState::XmrLockProofReceived { state: state6(1) },
        BobState::XmrLocked { state4: state6(1) },
        BobState::EncSigSent { state4: state6(1) },
        BobState::BtcRedeemed,
        BobState::CancelTimelockExpired { state6: state6(1) },
        BobState::BtcCancelled { state6: state6(1) },
    ];
    for s in states {
        let events = bob_recovery_events(&s);
        let mut cur = s;
        for e in &events {
            cur = bob_next_state(&cur, e);
        }
        assert!(bob_terminal(&cur), "no recovery from {:?}", s);
    }
    let alice_states = [
        AliceState::Started { xmr_amount: 5 },
        AliceState::BtcLocked,
        AliceState::XmrLockTransactionSent { tx_hash: txid(1) },
        AliceState::XmrLocked,
        AliceState::EncSigLearned,
        AliceState::CancelTimelockExpired,
        AliceState::BtcCancelled,
    ];
    for s in alice_states {
        let events = alice_recovery_events(&s);
        let mut cur = s;
        for e in &events {
            cur = alice_next_state(&cur, e);
        }
        assert!(alice_terminal(&cur), "no recovery from {:?}", s);
    }
}

#[test]
fn cancel_from_non_refundable_state_fails_without_mutation() {
    let r = cancel(
        &BobState::Started { btc_amount: 5 },
        &BroadcastOutcome::Accepted { txid: txid(1) },
    );
    assert_eq!(r, Err(CancelError::NotRefundable));
    let r = cancel(&BobState::BtcRedeemed, &BroadcastOutcome::Failed);
    assert_eq!(r, Err(CancelError::NotRefundable));
}

#[test]
fn cancel_accepted_broadcast_moves_to_cancelled() {
    let r = cancel(
        &BobState::BtcLocked { state3: state6(2) },
        &BroadcastOutcome::Accepted { txid: txid(30) },
    );
    assert_eq!(r, Ok((txid(30), BobState::BtcCancelled { state6: state6(2) })));
}

#[test]
fn cancel_twice_returns_same_txid_and_state() {
    // The cancel transaction is already confirmed: the node answers
    // "already in chain" and the flow reports success with the derived id.
    let already = rpc_error_code_value(&RpcErrorCode::RpcVerifyAlreadyInChain);
    let r = cancel(
        &BobState::BtcCancelled { state6: state6(2) },
        &BroadcastOutcome::RejectedWithCode { code: already },
    );
    assert_eq!(r, Ok((txid(2), BobState::BtcCancelled { state6: state6(2) })));

    let verify_error = rpc_error_code_value(&RpcErrorCode::RpcVerifyError);
    let r = cancel(
        &BobState::BtcCancelled { state6: state6(2) },
        &BroadcastOutcome::RejectedWithCode { code: verify_error },
    );
    assert_eq!(r, Ok((txid(2), BobState::BtcCancelled { state6: state6(2) })));
}

#[test]
fn cancel_before_timelock_reports_not_yet_expired() {
    let rejected = rpc_error_code_value(&RpcErrorCode::RpcVerifyRejected);
    let r = cancel(
        &BobState::XmrLocked { state4: state6(2) },
        &BroadcastOutcome::RejectedWithCode { code: rejected },
    );
    assert_eq!(r, Err(CancelError::TimelockNotExpiredYet));
}

#[test]
fn cancel_unknown_error_fails() {
    let r = cancel(
        &BobState::XmrLocked { state4: state6(2) },
        &BroadcastOutcome::RejectedWithCode { code: -1 },
    );
    assert_eq!(r, Err(CancelError::BroadcastFailed));
    let r = cancel(&BobState::XmrLocked { state4: state6(2) }, &BroadcastOutcome::Failed);
    assert_eq!(r, Err(CancelError::BroadcastFailed));
}

#[test]
fn open_db_decides_backend_for_each_situation() {
    assert_eq!(open_db(true, false, false), Ok(DbBackend::MigrateThenSqlite));
    assert_eq!(open_db(false, false, false), Ok(DbBackend::Sqlite));
    assert_eq!(open_db(true, true, false), Ok(DbBackend::Sqlite));
    assert_eq!(open_db(false, true, false), Ok(DbBackend::Sqlite));
    assert_eq!(open_db(false, false, true), Err(DbError::SledMissing));
    assert_eq!(open_db(false, true, true), Err(DbError::SledMissing));
    assert_eq!(open_db(true, false, true), Ok(DbBackend::Sled));
    assert_eq!(open_db(true, true, true), Ok(DbBackend::Sled));
}

#[test]
fn store_insert_overwrites_latest_state() {
    let mut store = Store::new();
    store.insert_latest_state(1, Swap::Bob(BobState::SwapSetupCompleted));
    store.insert_latest_state(1, Swap::Bob(BobState::BtcRedeemed));
    store.insert_latest_state(2, Swap::Alice(AliceState::BtcLocked));
    assert_eq!(store.get_state(1), Some(Swap::Bob(BobState::BtcRedeemed)));
    assert_eq!(store.get_state(2), Some(Swap::Alice(AliceState::BtcLocked)));
    assert_eq!(store.get_state(3), None);
    assert_eq!(store.all().len(), 2);
}

#[test]
fn store_indices_round_trip() {
    let mut store = Store::new();
    store.insert_monero_address(1, 4242);
    store.insert_peer_id(1, 99);
    store.insert_address(99, 1111);
    store.insert_address(99, 2222);
    store.insert_address(98, 3333);
    assert_eq!(store.get_monero_address(1), Some(4242));
    assert_eq!(store.get_monero_address(2), None);
    assert_eq!(store.get_peer_id(1), Some(99));
    assert_eq!(store.get_addresses(99), vec![1111, 2222]);
    assert_eq!(store.get_addresses(98), vec![3333]);
    assert_eq!(store.get_addresses(97), Vec::<u128>::new());
}

#[test]
fn migration_preserves_all_rows_and_indices() {
    let mut store = Store::new();
    store.insert_latest_state(1, Swap::Bob(BobState::BtcRedeemed));
    store.insert_latest_state(2, Swap::Alice(AliceState::XmrLocked));
    store.insert_monero_address(1, 4242);
    store.insert_peer_id(2, 99);
    store.insert_address(99, 1111);
    let migrated = migrate(&store);
    assert_eq!(migrated.get_state(1), Some(Swap::Bob(BobState::BtcRedeemed)));
    assert_eq!(migrated.get_state(2), Some(Swap::Alice(AliceState::XmrLocked)));
    assert_eq!(migrated.get_monero_address(1), Some(4242));
    assert_eq!(migrated.get_peer_id(2), Some(99));
    assert_eq!(migrated.get_addresses(99), vec![1111]);
    assert_eq!(migrated.all().len(), 2);
}

#[test]
fn swap_role_names() {
    assert_eq!(Swap::Bob(BobState::BtcRedeemed).role_name(), "bob");
    assert_eq!(Swap::Alice(AliceState::BtcLocked).role_name(), "alice");
}

#[test]
fn state_conversions_round_trip() {
    let b = State::Bob(BobState::BtcRedeemed);
    let s: Swap = b.into();
    assert_eq!(s, Swap::Bob(BobState::BtcRedeemed));
    let back: State = s.into();
    assert_eq!(back, b);
    let from_bob: Swap = BobState::SafelyAborted.into();
    assert_eq!(from_bob, Swap::Bob(BobState::SafelyAborted));
    let from_alice: Swap = AliceState::SafelyAborted.into();
    assert_eq!(from_alice, Swap::Alice(AliceState::SafelyAborted));
}

#[test]
fn timelock_status_follows_confirmations() {
    let t = Timelocks { cancel: 72, punish: 72 };
    assert_eq!(expired_timelock(&t, 0, 0), ExpiredTimelock::NotYet);
    assert_eq!(expired_timelock(&t, 71, 0), ExpiredTimelock::NotYet);
    assert_eq!(expired_timelock(&t, 72, 0), ExpiredTimelock::Cancel);
    assert_eq!(expired_timelock(&t, 100, 71), ExpiredTimelock::Cancel);
    assert_eq!(expired_timelock(&t, 100, 72), ExpiredTimelock::Punish);
}

#[test]
fn backoff_doubles_and_caps_at_five_minutes() {
    assert_eq!(next_backoff_secs(1), 2);
    assert_eq!(next_backoff_secs(8), 16);
    assert_eq!(next_backoff_secs(150), 300);
    assert_eq!(next_backoff_secs(200), 300);
    assert_eq!(next_backoff_secs(300), 300);
}

#[test]
fn alice_resume_steps_and_persists() {
    let mut store = Store::new();
    let id: u128 = 88;
    store.insert_latest_state(id, Swap::Alice(AliceState::EncSigLearned));
    let next = swap_core::database::resume_alice(&mut store, id, &AliceEvent::BtcRedeemConfirmed)
        .unwrap();
    assert_eq!(next, AliceState::BtcRedeemed);
    assert_eq!(store.get_state(id), Some(Swap::Alice(AliceState::BtcRedeemed)));
    // A Bob event on an Alice row touches nothing.
    assert_eq!(swap_core::database::resume_bob(&mut store, id, &BobEvent::BtcRedeemSeen), None);
    assert_eq!(store.get_state(id), Some(Swap::Alice(AliceState::BtcRedeemed)));
}
