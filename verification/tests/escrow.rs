use sorosim::address::Addr;
use sorosim::escrow::{Escrow, EscrowContract, EscrowError, EscrowStatus};

fn addr(s: &str) -> Addr {
    Addr::new(s.to_string())
}

fn or_panic<T>(r: Result<T, EscrowError>) -> T {
    match r {
        Ok(v) => v,
        Err(e) => panic!("{}", e.message()),
    }
}

#[test]
fn test_deposit() {
    let now = 100;
    let mut client = EscrowContract::new();
    let depositor = addr("depositor");
    let beneficiary = addr("beneficiary");

    let release_time = 200;
    let escrow_id = or_panic(client.deposit(depositor, beneficiary, 1000, release_time, now));

    assert_eq!(escrow_id, 0);
    assert_eq!(client.total_escrows(), 1);

    let escrow = or_panic(client.get_escrow(escrow_id));
    assert_eq!(escrow.amount, 1000);
    assert_eq!(escrow.release_time, 200);
    assert_eq!(escrow.status, EscrowStatus::Active);
}

#[test]
#[should_panic(expected = "amount must be positive")]
fn test_deposit_zero_amount() {
    let now = 100;
    let mut client = EscrowContract::new();
    or_panic(client.deposit(addr("depositor"), addr("beneficiary"), 0, 200, now));
}

#[test]
#[should_panic(expected = "release time must be in the future")]
fn test_deposit_past_release_time() {
    let now = 100;
    let mut client = EscrowContract::new();
    or_panic(client.deposit(addr("depositor"), addr("beneficiary"), 1000, 50, now));
}

#[test]
fn test_release() {
    let mut client = EscrowContract::new();
    let release_time = 200;
    let escrow_id = or_panic(client.deposit(addr("depositor"), addr("beneficiary"), 1000, release_time, 100));

    or_panic(client.release(escrow_id, 201));

    let escrow = or_panic(client.get_escrow(escrow_id));
    assert_eq!(escrow.status, EscrowStatus::Released);
}

#[test]
#[should_panic(expected = "release time not reached")]
fn test_release_before_time() {
    let mut client = EscrowContract::new();
    let release_time = 200;
    let escrow_id = or_panic(client.deposit(addr("depositor"), addr("beneficiary"), 1000, release_time, 100));
    or_panic(client.release(escrow_id, 100));
}

#[test]
fn test_refund() {
    let mut client = EscrowContract::new();
    let depositor = addr("depositor");
    let release_time = 200;
    let escrow_id = or_panic(client.deposit(depositor.clone(), addr("beneficiary"), 1000, release_time, 100));

    or_panic(client.refund(escrow_id, &depositor, 100));

    let escrow = or_panic(client.get_escrow(escrow_id));
    assert_eq!(escrow.status, EscrowStatus::Refunded);
}

#[test]
#[should_panic(expected = "release time reached, use release instead")]
fn test_refund_after_release_time() {
    let mut client = EscrowContract::new();
    let depositor = addr("depositor");
    let release_time = 200;
    let escrow_id = or_panic(client.deposit(depositor.clone(), addr("beneficiary"), 1000, release_time, 100));
    or_panic(client.refund(escrow_id, &depositor, 201));
}

#[test]
#[should_panic(expected = "escrow not active")]
fn test_release_after_refund() {
    let mut client = EscrowContract::new();
    let depositor = addr("depositor");
    let release_time = 200;
    let escrow_id = or_panic(client.deposit(depositor.clone(), addr("beneficiary"), 1000, release_time, 100));
    or_panic(client.refund(escrow_id, &depositor, 100));
    or_panic(client.release(escrow_id, 201));
}

#[test]
fn test_can_release() {
    let mut client = EscrowContract::new();
    let release_time = 200;
    let escrow_id = or_panic(client.deposit(addr("depositor"), addr("beneficiary"), 1000, release_time, 100));

    assert_eq!(or_panic(client.can_release(escrow_id, 100)), false);
    assert_eq!(or_panic(client.can_release(escrow_id, 200)), true);

    or_panic(client.release(escrow_id, 200));
    assert_eq!(or_panic(client.can_release(escrow_id, 200)), false);
}

#[test]
fn test_multiple_escrows() {
    let mut client = EscrowContract::new();
    let depositor = addr("depositor");
    let escrow_id1 = or_panic(client.deposit(depositor.clone(), addr("beneficiary1"), 1000, 200, 100));
    let escrow_id2 = or_panic(client.deposit(depositor.clone(), addr("beneficiary2"), 2000, 300, 100));

    assert_eq!(escrow_id1, 0);
    assert_eq!(escrow_id2, 1);
    assert_eq!(client.total_escrows(), 2);

    assert_eq!(or_panic(client.get_escrow(escrow_id1)).amount, 1000);
    assert_eq!(or_panic(client.get_escrow(escrow_id2)).amount, 2000);
}

#[test]
fn lib_test_complex_scenario() {
    let mut client = EscrowContract::new();
    let depositor = addr("depositor");
    let escrow_id1 = or_panic(client.deposit(depositor.clone(), addr("beneficiary1"), 1000, 200, 100));
    let escrow_id2 = or_panic(client.deposit(depositor.clone(), addr("beneficiary2"), 2000, 300, 100));

    or_panic(client.refund(escrow_id1, &depositor, 100));
    assert_eq!(or_panic(client.get_escrow(escrow_id1)).status, EscrowStatus::Refunded);

    or_panic(client.release(escrow_id2, 301));
    assert_eq!(or_panic(client.get_escrow(escrow_id2)).status, EscrowStatus::Released);
}

#[test]
fn escrow_refund_by_other_address_refused() {
    let mut client = EscrowContract::new();
    let id = or_panic(client.deposit(addr("depositor"), addr("beneficiary"), 5, 200, 100));
    assert_eq!(client.refund(id, &addr("mallory"), 100), Err(EscrowError::NotDepositor));
    assert_eq!(or_panic(client.get_escrow(id)).status, EscrowStatus::Active);
}

#[test]
fn escrow_unknown_id_refused() {
    let mut client = EscrowContract::new();
    assert!(matches!(client.get_escrow(0), Err(EscrowError::EscrowNotFound)));
    assert_eq!(client.release(3, 10), Err(EscrowError::EscrowNotFound));
    assert_eq!(client.refund(3, &addr("a"), 10), Err(EscrowError::EscrowNotFound));
    assert_eq!(client.can_release(3, 10), Err(EscrowError::EscrowNotFound));
}

#[test]
fn escrow_settled_stays_settled() {
    let mut client = EscrowContract::new();
    let depositor = addr("depositor");
    let id = or_panic(client.deposit(depositor.clone(), addr("beneficiary"), 9, 200, 100));
    or_panic(client.release(id, 250));
    assert_eq!(client.release(id, 260), Err(EscrowError::NotActive));
    assert_eq!(client.refund(id, &depositor, 150), Err(EscrowError::NotActive));
    assert_eq!(or_panic(client.get_escrow(id)).status, EscrowStatus::Released);
}

#[test]
fn escrow_release_exactly_at_release_time() {
    let mut client = EscrowContract::new();
    let depositor = addr("depositor");
    let id = or_panic(client.deposit(depositor.clone(), addr("beneficiary"), 9, 200, 199));
    assert_eq!(client.refund(id, &depositor, 200), Err(EscrowError::ReleaseTimeReached));
    assert_eq!(client.release(id, 200), Ok(()));
}

#[test]
fn escrow_error_messages() {
    assert_eq!(EscrowError::EscrowNotFound.message(), "escrow does not exist");
    assert_eq!(EscrowError::NotDepositor.message(), "not the depositor");
}

fn record(id: u64, amount: i128) -> Escrow {
    Escrow {
        id,
        depositor: addr("depositor"),
        beneficiary: addr("beneficiary"),
        amount,
        release_time: 200,
        status: EscrowStatus::Active,
    }
}

#[test]
fn escrow_restore_checks_ids_and_amounts() {
    let mut escrows = EscrowContract::restore(vec![record(0, 5), record(1, 7)]).unwrap();
    assert_eq!(escrows.total_escrows(), 2);
    assert_eq!(escrows.release(1, 200), Ok(()));
    assert_eq!(escrows.get_escrow(1).unwrap().status, EscrowStatus::Released);
    assert!(EscrowContract::restore(vec![record(1, 5)]).is_none());
    assert!(EscrowContract::restore(vec![record(0, 0)]).is_none());
}
