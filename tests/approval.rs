use nft_approval::error::ApprovalError;
use nft_approval::manager::{ApprovalConfig, ApprovalManager};
use nft_approval::notifier::{PendingCall, ReceiverOutcome};

const CONTRACT: &str = "nft.test.near";
const OWNER: &str = "test.near";
const ALICE: &str = "alice.test.near";
const RECEIVER: &str = "approval-receiver.test.near";
const TGAS: u64 = 1_000_000_000_000;
const BYTE_COST: u128 = 10_000_000_000_000_000_000;

fn config() -> ApprovalConfig {
    ApprovalConfig {
        max_approvals: 3,
        storage_byte_cost: BYTE_COST,
        gas_for_approve: 15 * TGAS,
        min_gas_for_receiver: 5 * TGAS,
    }
}

fn manager_with(tokens: &[&str]) -> ApprovalManager {
    let mut m = ApprovalManager::new(CONTRACT, config());
    for t in tokens {
        assert!(m.mint(t, OWNER));
    }
    m
}

/// The receiver contract of the scenarios: a fixed answer for "return-now", else the message.
fn receiver_answer(call: &PendingCall) -> ReceiverOutcome {
    if call.msg == "return-now" {
        ReceiverOutcome::Returned("cool".to_string())
    } else {
        ReceiverOutcome::Returned(call.msg.clone())
    }
}

fn approve_with_message(m: &mut ApprovalManager, token: &str, msg: &str) -> Result<String, ApprovalError> {
    let out = m
        .approve(OWNER, token, RECEIVER, 450_000_000_000_000_000_000, 150 * TGAS, Some(msg.to_string()))
        .unwrap();
    let call = out.pending.expect("a message asks for a notification");
    m.resolve_approve(CONTRACT, receiver_answer(&call))
}

#[test]
fn test_simple_approve() {
    let mut m = manager_with(&["0"]);
    let out = m.approve(OWNER, "0", ALICE, 5_950_000_000_000_000_000_000, 30 * TGAS, None).unwrap();
    assert_eq!(out.approval_id, 1);
    assert!(out.pending.is_none());
    assert!(m.is_approved("0", ALICE, None));
    assert!(m.is_approved("0", ALICE, Some(1)));
    assert!(!m.is_approved("0", ALICE, Some(2)));
}

#[test]
fn test_approval_simple_call() {
    let mut m = manager_with(&["1"]);
    assert_eq!(approve_with_message(&mut m, "1", "return-now"), Ok("cool".to_string()));
    let msg = "test message";
    assert_eq!(approve_with_message(&mut m, "1", msg), Ok(msg.to_string()));
}

#[test]
fn pending_call_carries_the_grant() {
    let mut m = manager_with(&["1"]);
    let out = m
        .approve(OWNER, "1", RECEIVER, 450_000_000_000_000_000_000, 150 * TGAS, Some("hi".to_string()))
        .unwrap();
    let call = out.pending.unwrap();
    assert_eq!(call.receiver_id, RECEIVER);
    assert_eq!(call.owner_id, OWNER);
    assert_eq!(call.token_id, "1");
    assert_eq!(call.approval_id, out.approval_id);
    assert_eq!(call.msg, "hi");
    assert_eq!(call.gas, 135 * TGAS);
    // the approval is recorded before the receiver is called
    assert!(m.is_approved("1", RECEIVER, Some(1)));
}

#[test]
fn unapproved_until_approved() {
    let mut m = manager_with(&["0"]);
    assert!(!m.is_approved("0", ALICE, None));
    assert!(!m.is_approved("missing", ALICE, None));
    m.approve(OWNER, "0", ALICE, 5_950_000_000_000_000_000_000, 0, None).unwrap();
    assert!(m.is_approved("0", ALICE, None));
    assert!(!m.is_approved("0", RECEIVER, None));
}

#[test]
fn reapproval_gets_greater_id_and_stale_id_fails() {
    let mut m = manager_with(&["0"]);
    let deposit = 5_950_000_000_000_000_000_000;
    let first = m.approve(OWNER, "0", ALICE, deposit, 0, None).unwrap().approval_id;
    let second = m.approve(OWNER, "0", ALICE, deposit, 0, None).unwrap().approval_id;
    assert_eq!((first, second), (1, 2));
    assert!(m.is_approved("0", ALICE, Some(2)));
    assert!(!m.is_approved("0", ALICE, Some(1)));
    m.revoke(OWNER, "0", ALICE).unwrap();
    let third = m.approve(OWNER, "0", ALICE, deposit, 0, None).unwrap().approval_id;
    assert_eq!(third, 3);
    assert_eq!(m.next_approval_id("0"), 4);
}

#[test]
fn deposit_covers_storage_and_rest_is_refunded() {
    let mut m = manager_with(&["0"]);
    // "alice.test.near" is 15 characters, plus 12 bytes of entry overhead
    let needed = 27 * BYTE_COST;
    let out = m.approve(OWNER, "0", ALICE, needed + 5, 0, None).unwrap();
    assert_eq!(out.refund, 5);
    // re-approving takes no new storage
    let again = m.approve(OWNER, "0", ALICE, 7, 0, None).unwrap();
    assert_eq!(again.refund, 7);
}

#[test]
fn insufficient_deposit_refused_without_change() {
    let mut m = manager_with(&["0"]);
    let needed = 27 * BYTE_COST;
    assert_eq!(m.approve(OWNER, "0", ALICE, needed - 1, 0, None), Err(ApprovalError::InsufficientDeposit));
    assert!(!m.is_approved("0", ALICE, None));
    assert_eq!(m.next_approval_id("0"), 1);
    assert!(m.approve(OWNER, "0", ALICE, needed, 0, None).is_ok());
}

#[test]
fn non_owner_cannot_approve() {
    let mut m = manager_with(&["0"]);
    assert_eq!(
        m.approve(ALICE, "0", ALICE, 5_950_000_000_000_000_000_000, 0, None),
        Err(ApprovalError::NotOwner)
    );
    assert!(!m.is_approved("0", ALICE, None));
    assert_eq!(m.next_approval_id("0"), 1);
    assert_eq!(m.approval_count("0"), 0);
}

#[test]
fn unknown_token_not_found() {
    let mut m = manager_with(&["0"]);
    assert_eq!(m.approve(OWNER, "9", ALICE, 1, 0, None), Err(ApprovalError::TokenNotFound));
    assert_eq!(m.revoke(OWNER, "9", ALICE), Err(ApprovalError::TokenNotFound));
    assert_eq!(m.revoke_all(OWNER, "9"), Err(ApprovalError::TokenNotFound));
    assert_eq!(m.transfer_ownership("9", ALICE), Err(ApprovalError::TokenNotFound));
}

#[test]
fn too_many_approvals() {
    let mut m = manager_with(&["0"]);
    let deposit = 5_950_000_000_000_000_000_000;
    for a in ["a.near", "b.near", "c.near"] {
        m.approve(OWNER, "0", a, deposit, 0, None).unwrap();
    }
    assert_eq!(m.approve(OWNER, "0", "d.near", deposit, 0, None), Err(ApprovalError::TooManyApprovals));
    // an account already approved does not count again
    assert_eq!(m.approve(OWNER, "0", "b.near", deposit, 0, None).unwrap().approval_id, 4);
    assert_eq!(m.approval_count("0"), 3);
}

#[test]
fn insufficient_gas_with_message() {
    let mut m = manager_with(&["1"]);
    let deposit = 450_000_000_000_000_000_000;
    assert_eq!(
        m.approve(OWNER, "1", RECEIVER, deposit, 19 * TGAS, Some("x".to_string())),
        Err(ApprovalError::InsufficientGas)
    );
    assert!(!m.is_approved("1", RECEIVER, None));
    // without a message no budget is reserved
    assert!(m.approve(OWNER, "1", RECEIVER, deposit, 0, None).is_ok());
    let out = m.approve(OWNER, "1", RECEIVER, deposit, 20 * TGAS, Some("x".to_string())).unwrap();
    assert_eq!(out.pending.unwrap().gas, 5 * TGAS);
}

#[test]
fn revoke_removes_one_approval() {
    let mut m = manager_with(&["0"]);
    let deposit = 5_950_000_000_000_000_000_000;
    m.approve(OWNER, "0", ALICE, deposit, 0, None).unwrap();
    m.approve(OWNER, "0", RECEIVER, deposit, 0, None).unwrap();
    assert_eq!(m.revoke(ALICE, "0", RECEIVER), Err(ApprovalError::NotOwner));
    assert_eq!(m.revoke(OWNER, "0", ALICE), Ok(()));
    assert!(!m.is_approved("0", ALICE, None));
    assert!(m.is_approved("0", RECEIVER, Some(2)));
    assert_eq!(m.revoke(OWNER, "0", ALICE), Err(ApprovalError::ApprovalDoesNotExist));
}

#[test]
fn revoke_all_clears_and_is_idempotent() {
    let mut m = manager_with(&["0"]);
    assert_eq!(m.revoke_all(OWNER, "0"), Ok(()));
    let deposit = 5_950_000_000_000_000_000_000;
    m.approve(OWNER, "0", ALICE, deposit, 0, None).unwrap();
    m.approve(OWNER, "0", RECEIVER, deposit, 0, None).unwrap();
    assert_eq!(m.revoke_all(ALICE, "0"), Err(ApprovalError::NotOwner));
    assert_eq!(m.revoke_all(OWNER, "0"), Ok(()));
    assert_eq!(m.approval_count("0"), 0);
    assert_eq!(m.revoke_all(OWNER, "0"), Ok(()));
    assert_eq!(m.next_approval_id("0"), 3);
}

#[test]
fn transfer_clears_approvals_and_keeps_counter() {
    let mut m = manager_with(&["0"]);
    let deposit = 5_950_000_000_000_000_000_000;
    m.approve(OWNER, "0", ALICE, deposit, 0, None).unwrap();
    assert_eq!(m.transfer_ownership("0", ALICE), Ok(()));
    assert_eq!(m.owner_of("0"), Some(ALICE.to_string()));
    assert!(!m.is_approved("0", ALICE, None));
    assert_eq!(m.approve(OWNER, "0", RECEIVER, deposit, 0, None), Err(ApprovalError::NotOwner));
    assert_eq!(m.approve(ALICE, "0", RECEIVER, deposit, 0, None).unwrap().approval_id, 2);
}

#[test]
fn mint_twice_refused() {
    let mut m = manager_with(&["0"]);
    assert!(!m.mint("0", ALICE));
    assert_eq!(m.owner_of("0"), Some(OWNER.to_string()));
    assert_eq!(m.owner_of("1"), None);
}

#[test]
fn callback_outcomes() {
    let m = manager_with(&[]);
    assert_eq!(m.resolve_approve(CONTRACT, ReceiverOutcome::Returned("\"ok\"".to_string())), Ok("\"ok\"".to_string()));
    assert_eq!(m.resolve_approve(CONTRACT, ReceiverOutcome::ReturnedNothing), Ok("null".to_string()));
    assert_eq!(m.resolve_approve(CONTRACT, ReceiverOutcome::Failed), Err(ApprovalError::ReceiverCallFailed));
    assert_eq!(
        m.resolve_approve(ALICE, ReceiverOutcome::Returned("x".to_string())),
        Err(ApprovalError::UnauthorizedCallback)
    );
}

#[test]
fn receiver_failure_keeps_approval() {
    let mut m = manager_with(&["1"]);
    let out = m
        .approve(OWNER, "1", RECEIVER, 450_000_000_000_000_000_000, 150 * TGAS, Some("boom".to_string()))
        .unwrap();
    assert!(out.pending.is_some());
    assert_eq!(m.resolve_approve(CONTRACT, ReceiverOutcome::Failed), Err(ApprovalError::ReceiverCallFailed));
    assert!(m.is_approved("1", RECEIVER, Some(out.approval_id)));
}

#[test]
fn error_names() {
    assert_eq!(ApprovalError::NotOwner.name(), "NotOwner");
    assert_eq!(ApprovalError::UnauthorizedCallback.name(), "UnauthorizedCallback");
    assert_eq!(ApprovalError::ApprovalDoesNotExist.name(), "ApprovalDoesNotExist");
}
