use sorosim::address::Addr;
use sorosim::multisig::{MultisigContract, MultisigError, Transaction, TxStatus};

fn addr(s: &str) -> Addr {
    Addr::new(s.to_string())
}

fn wallet() -> (MultisigContract, Addr, Addr, Addr) {
    let mut w = MultisigContract::new();
    let (o1, o2, o3) = (addr("owner1"), addr("owner2"), addr("owner3"));
    w.initialize(vec![o1.clone(), o2.clone(), o3.clone()], 2).unwrap();
    (w, o1, o2, o3)
}

#[test]
fn multisig_initialize_checks() {
    let mut w = MultisigContract::new();
    assert_eq!(w.get_threshold(), Err(MultisigError::NotInitialized));
    assert_eq!(w.is_owner(&addr("x")), Err(MultisigError::NotInitialized));
    assert_eq!(w.initialize(vec![], 1), Err(MultisigError::OwnersEmpty));
    assert_eq!(w.initialize(vec![addr("a")], 0), Err(MultisigError::InvalidThreshold));
    assert_eq!(w.initialize(vec![addr("a")], 2), Err(MultisigError::InvalidThreshold));
    assert_eq!(w.initialize(vec![addr("a"), addr("b")], 2), Ok(()));
    assert_eq!(w.initialize(vec![addr("a")], 1), Err(MultisigError::AlreadyInitialized));
    assert_eq!(w.get_threshold(), Ok(2));
    assert_eq!(w.get_owners().unwrap().len(), 2);
    assert_eq!(w.is_owner(&addr("b")), Ok(true));
    assert_eq!(w.is_owner(&addr("c")), Ok(false));
}

#[test]
fn multisig_propose_approve_execute() {
    let (mut w, o1, o2, _o3) = wallet();
    let tx_id = w.propose(&o1, addr("recipient"), 1000).unwrap();
    assert_eq!(tx_id, 0);
    assert_eq!(w.total_transactions(), 1);
    assert_eq!(w.get_approval_count(tx_id), Ok(1));
    assert_eq!(w.is_threshold_met(tx_id), Ok(false));
    assert_eq!(w.execute(tx_id), Err(MultisigError::ThresholdNotMet));
    assert_eq!(w.approve(tx_id, &o2), Ok(()));
    assert_eq!(w.get_approval_count(tx_id), Ok(2));
    assert_eq!(w.is_threshold_met(tx_id), Ok(true));
    assert_eq!(w.execute(tx_id), Ok(()));
    let tx = w.get_transaction(tx_id).unwrap();
    assert_eq!(tx.status, TxStatus::Executed);
    assert_eq!(tx.amount, 1000);
    assert_eq!(tx.to.text(), "recipient");
    assert_eq!(w.execute(tx_id), Err(MultisigError::NotPending));
}

#[test]
fn multisig_approval_refusals() {
    let (mut w, o1, o2, _o3) = wallet();
    assert_eq!(w.propose(&addr("stranger"), addr("r"), 5), Err(MultisigError::NotAnOwner));
    let tx_id = w.propose(&o1, addr("r"), 5).unwrap();
    assert_eq!(w.approve(tx_id, &o1), Err(MultisigError::AlreadyApproved));
    assert_eq!(w.approve(tx_id, &addr("stranger")), Err(MultisigError::NotAnOwner));
    assert_eq!(w.approve(9, &o2), Err(MultisigError::TransactionNotFound));
    assert_eq!(w.get_approval_count(tx_id), Ok(1));
}

#[test]
fn multisig_cancel_only_by_proposer() {
    let (mut w, o1, o2, o3) = wallet();
    let tx_id = w.propose(&o1, addr("r"), 5).unwrap();
    assert_eq!(w.cancel(tx_id, &o2), Err(MultisigError::NotProposer));
    assert_eq!(w.cancel(tx_id, &o1), Ok(()));
    assert_eq!(w.get_transaction(tx_id).unwrap().status, TxStatus::Cancelled);
    assert_eq!(w.approve(tx_id, &o3), Err(MultisigError::NotPending));
    assert_eq!(w.cancel(tx_id, &o1), Err(MultisigError::NotPending));
    assert_eq!(w.cancel(4, &o1), Err(MultisigError::TransactionNotFound));
}

#[test]
fn multisig_ids_are_sequential() {
    let (mut w, o1, o2, _o3) = wallet();
    assert_eq!(w.propose(&o1, addr("r"), 1), Ok(0));
    assert_eq!(w.propose(&o2, addr("r"), 2), Ok(1));
    assert_eq!(w.total_transactions(), 2);
    assert_eq!(w.get_transaction(1).unwrap().proposer.text(), "owner2");
    assert!(matches!(w.get_transaction(2), Err(MultisigError::TransactionNotFound)));
}

#[test]
fn multisig_error_messages() {
    assert_eq!(MultisigError::ThresholdNotMet.message(), "threshold not met");
    assert_eq!(MultisigError::InvalidThreshold.message(), "invalid threshold");
}

fn tx(id: u64, approvals: Vec<&str>) -> Transaction {
    Transaction {
        id,
        proposer: addr(approvals[0]),
        to: addr("dest"),
        amount: 50,
        approvals: approvals.into_iter().map(addr).collect(),
        status: TxStatus::Pending,
    }
}

fn owners() -> Vec<Addr> {
    vec![addr("owner1"), addr("owner2"), addr("owner3")]
}

#[test]
fn multisig_restore_checks_the_wallet_invariant() {
    let mut w = MultisigContract::restore(Some((owners(), 2)), vec![tx(0, vec!["owner1"])]).unwrap();
    assert_eq!(w.get_approval_count(0), Ok(1));
    assert_eq!(w.approve(0, &addr("owner2")), Ok(()));
    assert_eq!(w.execute(0), Ok(()));
    assert!(MultisigContract::restore(None, vec![]).is_some());
    assert!(MultisigContract::restore(None, vec![tx(0, vec!["owner1"])]).is_none());
    assert!(MultisigContract::restore(Some((owners(), 4)), vec![]).is_none());
    assert!(MultisigContract::restore(Some((owners(), 0)), vec![]).is_none());
    assert!(MultisigContract::restore(Some((owners(), 2)), vec![tx(1, vec!["owner1"])]).is_none());
    assert!(MultisigContract::restore(Some((owners(), 2)), vec![tx(0, vec!["owner1", "owner1"])]).is_none());
    assert!(MultisigContract::restore(Some((owners(), 2)), vec![tx(0, vec!["stranger"])]).is_none());
    let mut odd = tx(0, vec!["owner1", "owner2"]);
    odd.proposer = addr("owner2");
    assert!(MultisigContract::restore(Some((owners(), 2)), vec![odd]).is_none());
}
