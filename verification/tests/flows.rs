use compass::audit::EventType;
use compass::evaluator::{Action, ActionPlan};
use compass::executor::{
    after_first_failure, bridge_deposit_amount, route_action, single_step, BridgeAction, BridgeFlow,
    ExecutionOutcome, FirstFailure, PlanNoteContent, PlanRun, RetryState, RetryStep, Route, TxStep,
};
use compass::model::{ChainId, ProtocolId, UserAddress, VenueRef};
use compass::recovery::{NoteContent, RecoveryAction, RecoveryFlow};
use compass::withdrawal::{WithdrawAction, WithdrawFlow, MINT_SETTLE_WAIT_SECS};

fn addr(b: u8) -> UserAddress {
    UserAddress::from_bytes([b; 20])
}

fn step_labels(steps: &[compass::withdrawal::WithdrawStep]) -> Vec<(String, &'static str, String)> {
    steps.iter().map(|s| (s.label.clone(), s.chain, s.tx_hash.clone())).collect()
}

#[test]
fn withdrawal_full_run() {
    let mut w = WithdrawFlow::start();
    assert_eq!(w.action(), WithdrawAction::ReadAaveBalance);
    w.on_aave_balance([3_000_000, 0, 0, 0]);
    assert_eq!(w.action(), WithdrawAction::WithdrawAllFromAave);
    w.on_tx_sent("0x01".to_string());
    assert_eq!(w.action(), WithdrawAction::AuthorizeDelegate);
    w.on_tx_sent("0x02".to_string());
    assert_eq!(w.action(), WithdrawAction::ReadUsdcBalance);
    w.on_usdc_balance([3_100_000, 0, 0, 0]);
    assert_eq!(w.action(), WithdrawAction::DepositToGateway { amount: [3_100_000, 0, 0, 0] });
    w.on_tx_sent("0x03".to_string());
    assert_eq!(w.action(), WithdrawAction::AttestBurnIntent { amount: [3_100_000, 0, 0, 0] });
    w.on_attested([0xab; 32]);
    assert_eq!(w.action(), WithdrawAction::MintOnArc);
    w.on_tx_sent("0x04".to_string());
    assert_eq!(w.action(), WithdrawAction::Wait { secs: MINT_SETTLE_WAIT_SECS });
    w.on_settled();
    assert_eq!(w.action(), WithdrawAction::Finish);
    let r = w.finish(addr(1), addr(2), addr(3));
    assert_eq!(r.aave_balance_6dec, "3000000");
    assert_eq!(r.bridged_6dec, "3100000");
    assert_eq!(r.arc_smart_account, format!("0x{}", "02".repeat(20)));
    let digest = format!("0x{}", "ab".repeat(32));
    assert_eq!(
        step_labels(&r.steps),
        vec![
            ("aave_withdraw".to_string(), "arbitrum_sepolia", "0x01".to_string()),
            ("gateway_delegate_authorized".to_string(), "arbitrum_sepolia", "0x02".to_string()),
            ("gateway_deposit".to_string(), "arbitrum_sepolia", "0x03".to_string()),
            ("burn_intent_attested".to_string(), "arbitrum_sepolia", digest),
            ("mint_on_arc".to_string(), "arc", "0x04".to_string()),
        ]
    );
}

#[test]
fn withdrawal_with_nothing_to_bridge() {
    let mut w = WithdrawFlow::start();
    w.on_aave_balance([0; 4]);
    assert_eq!(w.action(), WithdrawAction::AuthorizeDelegate);
    w.on_delegate_failed();
    w.on_usdc_balance([0; 4]);
    assert_eq!(w.action(), WithdrawAction::Finish);
    let r = w.finish(addr(1), addr(2), addr(3));
    assert_eq!(r.aave_balance_6dec, "0");
    assert_eq!(r.bridged_6dec, "0");
    assert!(r.steps.is_empty());
}

#[test]
fn recovery_with_supply() {
    let mut f = RecoveryFlow::start([5_000_000, 0, 0, 0], true);
    assert!(matches!(f.action(), RecoveryAction::ResolveAccounts));
    let start = f.on_accounts(addr(1), addr(2));
    assert_eq!(start.event_type, EventType::ExecutorActionStart);
    assert!(matches!(start.content, NoteContent::Start { amount: [5_000_000, 0, 0, 0], .. }));
    assert!(matches!(f.action(), RecoveryAction::RecordStart));
    f.on_start_recorded(41);
    match f.action() {
        RecoveryAction::AttestIntent { from, to, amount } => {
            assert_eq!((from, to, amount), (addr(1), addr(2), [5_000_000, 0, 0, 0]));
        }
        other => panic!("expected the intent, got {other:?}"),
    }
    let note = f.on_attested([0x01; 32]);
    let digest = format!("0x{}", "01".repeat(32));
    assert_eq!(note.chain, Some(ChainId::Arc));
    assert_eq!(note.tx_hash.as_deref(), Some(digest.as_str()));
    match &note.content {
        NoteContent::Substep { label, start_event_id, digest: d } => {
            assert_eq!(*label, "recovery_attestation");
            assert_eq!(*start_event_id, 41);
            assert_eq!(d.as_deref(), Some(digest.as_str()));
        }
        _ => panic!("expected a substep note"),
    }
    let notes = f.on_minted("0xmint".to_string());
    assert_eq!(notes.len(), 1);
    assert_eq!(notes[0].chain, Some(ChainId::ArbitrumSepolia));
    assert!(matches!(f.action(), RecoveryAction::Wait { secs: 8 }));
    f.on_waited();
    assert!(matches!(f.action(), RecoveryAction::SupplyAave { amount: [5_000_000, 0, 0, 0] }));
    let notes = f.on_supplied("0xsupply".to_string());
    assert_eq!(notes.len(), 2);
    assert_eq!(notes[1].event_type, EventType::ExecutorActionDone);
    match &notes[1].content {
        NoteContent::Done { intent_digest, mint_tx, supply_tx, start_event_id } => {
            assert_eq!(intent_digest, &digest);
            assert_eq!(mint_tx, "0xmint");
            assert_eq!(supply_tx.as_deref(), Some("0xsupply"));
            assert_eq!(*start_event_id, 41);
        }
        _ => panic!("expected the closing note"),
    }
    let r = f.finish();
    assert_eq!(r.intent_digest, digest);
    assert_eq!(r.mint_tx, "0xmint");
    assert_eq!(r.supply_tx.as_deref(), Some("0xsupply"));
}

#[test]
fn recovery_without_supply_closes_after_mint() {
    let mut f = RecoveryFlow::start([1, 0, 0, 0], false);
    f.on_accounts(addr(1), addr(2));
    f.on_start_recorded(1);
    f.on_attested([0; 32]);
    let notes = f.on_minted("0xm".to_string());
    assert_eq!(notes.len(), 2);
    assert!(matches!(notes[1].content, NoteContent::Done { supply_tx: None, .. }));
    assert!(matches!(f.action(), RecoveryAction::Finish));
    assert!(f.finish().supply_tx.is_none());
}

fn venue(chain: ChainId, protocol: ProtocolId) -> VenueRef {
    VenueRef { chain, protocol }
}

#[test]
fn cross_chain_action_rejected_by_dispatcher() {
    let action = Action {
        from: venue(ChainId::ArbitrumSepolia, ProtocolId::Idle),
        to: venue(ChainId::Arc, ProtocolId::AaveV3),
        amount: [1, 0, 0, 0],
    };
    let refused = route_action(&action).err().unwrap();
    assert_eq!(refused.from, action.from);
    assert_eq!(refused.to, action.to);
}

#[test]
fn routes_of_actions() {
    let supply = Action {
        from: venue(ChainId::ArbitrumSepolia, ProtocolId::Idle),
        to: venue(ChainId::ArbitrumSepolia, ProtocolId::AaveV3),
        amount: [10, 0, 0, 0],
    };
    assert_eq!(route_action(&supply).ok(), Some(Route::AaveSupply { chain: ChainId::ArbitrumSepolia }));
    let bridged = Action {
        from: venue(ChainId::Arc, ProtocolId::Idle),
        to: venue(ChainId::ArbitrumSepolia, ProtocolId::AaveV3),
        amount: [10, 0, 0, 0],
    };
    assert_eq!(route_action(&bridged).ok(), Some(Route::ArcIdleToArbitrumAave { amount: [10, 0, 0, 0] }));
    let unsupported = Action {
        from: venue(ChainId::ArbitrumSepolia, ProtocolId::Idle),
        to: venue(ChainId::Arc, ProtocolId::AaveV3),
        amount: [10, 0, 0, 0],
    };
    assert!(route_action(&unsupported).is_err());
    let s = single_step(Route::AaveWithdraw { chain: ChainId::Arc, amount: [3, 0, 0, 0] }, "0x9".to_string());
    assert_eq!((s.label.as_str(), s.chain, s.tx_hash.as_str()), ("aave_withdraw", ChainId::Arc, "0x9"));
}

#[test]
fn bridged_move_steps() {
    assert_eq!(bridge_deposit_amount([1_000_000, 0, 0, 0]), [1_010_000, 0, 0, 0]);
    let mut b = BridgeFlow::start([1_000_000, 0, 0, 0]);
    assert_eq!(b.action(), BridgeAction::DepositToGateway { amount: [1_010_000, 0, 0, 0] });
    b.on_tx_sent("0xd".to_string());
    assert_eq!(b.action(), BridgeAction::AttestIntent { amount: [1_000_000, 0, 0, 0] });
    b.on_attested([0xcd; 32]);
    assert_eq!(b.action(), BridgeAction::MintOnArbitrum);
    b.on_tx_sent("0xm".to_string());
    assert_eq!(b.action(), BridgeAction::Wait { secs: 8 });
    b.on_waited();
    assert_eq!(b.action(), BridgeAction::SupplyAave);
    b.on_tx_sent("0xs".to_string());
    assert_eq!(b.action(), BridgeAction::Finish);
    let steps = b.finish();
    let seen: Vec<(&str, ChainId)> = steps.iter().map(|s| (s.label.as_str(), s.chain)).collect();
    assert_eq!(
        seen,
        vec![
            ("gateway_deposit", ChainId::Arc),
            ("burn_intent_attested", ChainId::Arc),
            ("mint_destination", ChainId::ArbitrumSepolia),
            ("aave_supply", ChainId::ArbitrumSepolia),
        ]
    );
    assert_eq!(steps[1].tx_hash, format!("0x{}", "cd".repeat(32)));
}

fn step(label: &str, tx: &str) -> TxStep {
    TxStep { label: label.to_string(), chain: ChainId::Arc, tx_hash: tx.to_string() }
}

fn two_action_plan() -> ActionPlan {
    let a = Action {
        from: venue(ChainId::Arc, ProtocolId::Idle),
        to: venue(ChainId::Arc, ProtocolId::AaveV3),
        amount: [1, 0, 0, 0],
    };
    ActionPlan { actions: vec![a, a] }
}

#[test]
fn plan_run_completes_with_all_hashes() {
    let plan = two_action_plan();
    let mut run = PlanRun::new(&plan, 7);
    let mut count = 0;
    let mut notes = Vec::new();
    while let Some(_a) = run.next_action() {
        notes.push(run.start_note());
        count += 1;
        run.on_started(100 + count);
        let steps = vec![step("x", &format!("0x{count}a")), step("y", &format!("0x{count}b"))];
        notes.extend(run.on_dispatched(&steps));
    }
    match run.finish() {
        ExecutionOutcome::Completed { tx_hashes } => {
            assert_eq!(tx_hashes, vec!["0x1a", "0x1b", "0x2a", "0x2b"]);
        }
        other => panic!("expected completion, got {other:?}"),
    }
    // Per action: the start, one note per step, then the end.
    let kinds: Vec<EventType> = notes.iter().map(|n| n.event_type).collect();
    let one = [
        EventType::ExecutorActionStart,
        EventType::ExecutorSubstep,
        EventType::ExecutorSubstep,
        EventType::ExecutorActionDone,
    ];
    assert_eq!(kinds, [one, one].concat());
    assert!(notes.iter().all(|n| n.policy_version == 7 && n.chain == ChainId::Arc));
    assert_eq!(notes[1].tx_hash.as_deref(), Some("0x1a"));
    match &notes[2].content {
        PlanNoteContent::Substep { label, start_event_id } => {
            assert_eq!(label, "y");
            assert_eq!(*start_event_id, 101);
        }
        other => panic!("expected a step note, got {other:?}"),
    }
    match &notes[7].content {
        PlanNoteContent::Done { action, steps, start_event_id } => {
            assert_eq!(*action, plan.actions[1]);
            assert_eq!(steps.len(), 2);
            assert_eq!(steps[1].tx_hash, "0x2b");
            assert_eq!(*start_event_id, 102);
        }
        other => panic!("expected a closing note, got {other:?}"),
    }
    assert!(matches!(notes[4].content, PlanNoteContent::Start { .. }));
    assert!(notes[4].tx_hash.is_none());
}

#[test]
fn plan_run_stops_at_first_failure() {
    let plan = two_action_plan();
    let mut run = PlanRun::new(&plan, 3);
    assert!(run.next_action().is_some());
    run.on_started(1);
    assert!(run.next_action().is_none());
    run.on_dispatched(&vec![step("aave_supply", "0x1")]);
    run.on_started(4);
    let (outcome, note) = run.fail("boom".to_string());
    match outcome {
        ExecutionOutcome::PartialFailure { tx_hashes, error } => {
            assert_eq!(tx_hashes, vec!["0x1"]);
            assert_eq!(error, "boom");
        }
        other => panic!("expected a partial failure, got {other:?}"),
    }
    assert_eq!(note.event_type, EventType::ExecutorActionDone);
    assert_eq!(note.policy_version, 3);
    match note.content {
        PlanNoteContent::Failed { error, start_event_id, .. } => {
            assert_eq!(error, "boom");
            assert_eq!(start_event_id, 4);
        }
        other => panic!("expected a failure note, got {other:?}"),
    }
}

#[test]
fn transfer_retry_decisions() {
    assert_eq!(after_first_failure("x: Signer is not authorized"), FirstFailure::AuthorizeThenRetry);
    assert_eq!(after_first_failure("Insufficient balance for depositor 0x1"), FirstFailure::Retry);
    assert_eq!(after_first_failure("timeout"), FirstFailure::Fail);
    let mut r = RetryState::start();
    assert_eq!(r.backoff_secs, 2);
    let lag = "Insufficient balance for depositor";
    assert_eq!(r.after_failure(lag, 0), RetryStep::Sleep { secs: 2 });
    assert_eq!(r.after_failure(lag, 2_000_000_000), RetryStep::Sleep { secs: 4 });
    assert_eq!(r.after_failure(lag, 6_000_000_000), RetryStep::Sleep { secs: 8 });
    assert_eq!(r.after_failure(lag, 14_000_000_000), RetryStep::Sleep { secs: 15 });
    assert_eq!(r.backoff_secs, 15);
    assert_eq!(r.after_failure(lag, 50_000_000_000), RetryStep::Fail);
    assert_eq!(r.after_failure("other", 0), RetryStep::Fail);
}
