use sorosim::address::Addr;
use sorosim::arith::ArithFault;
use sorosim::token::{TokenContract, TokenError};

fn addr(s: &str) -> Addr {
    Addr::new(s.to_string())
}

fn or_panic(r: Result<(), TokenError>) {
    if let Err(e) = r {
        panic!("{}", e.message());
    }
}

#[test]
fn test_mint() {
    let mut client = TokenContract::new();
    let user = addr("user");
    client.mint(&user, 1000);
    assert_eq!(client.balance(&user), 1000);
}

#[test]
fn test_multiple_mints() {
    let mut client = TokenContract::new();
    let user = addr("user");
    client.mint(&user, 500);
    client.mint(&user, 300);
    client.mint(&user, 200);
    assert_eq!(client.balance(&user), 1000);
}

#[test]
fn test_balance_zero_by_default() {
    let client = TokenContract::new();
    let user = addr("user");
    assert_eq!(client.balance(&user), 0);
}

#[test]
fn test_transfer() {
    let mut client = TokenContract::new();
    let from = addr("from");
    let to = addr("to");
    client.mint(&from, 1000);
    or_panic(client.transfer(&from, &to, 300));
    assert_eq!(client.balance(&from), 700);
    assert_eq!(client.balance(&to), 300);
}

#[test]
fn test_transfer_full_balance() {
    let mut client = TokenContract::new();
    let from = addr("from");
    let to = addr("to");
    client.mint(&from, 1000);
    or_panic(client.transfer(&from, &to, 1000));
    assert_eq!(client.balance(&from), 0);
    assert_eq!(client.balance(&to), 1000);
}

#[test]
#[should_panic(expected = "insufficient balance")]
fn test_transfer_insufficient_balance() {
    let mut client = TokenContract::new();
    let from = addr("from");
    let to = addr("to");
    client.mint(&from, 100);
    or_panic(client.transfer(&from, &to, 200));
}

#[test]
fn test_approve() {
    let mut client = TokenContract::new();
    let owner = addr("owner");
    let spender = addr("spender");
    client.approve(&owner, &spender, 500);
    assert_eq!(client.allowance(&owner, &spender), 500);
}

#[test]
fn test_allowance_zero_by_default() {
    let client = TokenContract::new();
    let owner = addr("owner");
    let spender = addr("spender");
    assert_eq!(client.allowance(&owner, &spender), 0);
}

#[test]
fn test_transfer_from() {
    let mut client = TokenContract::new();
    let owner = addr("owner");
    let spender = addr("spender");
    let recipient = addr("recipient");
    client.mint(&owner, 1000);
    client.approve(&owner, &spender, 500);
    or_panic(client.transfer_from(&spender, &owner, &recipient, 300));
    assert_eq!(client.balance(&owner), 700);
    assert_eq!(client.balance(&recipient), 300);
    assert_eq!(client.allowance(&owner, &spender), 200);
}

#[test]
fn test_transfer_from_full_allowance() {
    let mut client = TokenContract::new();
    let owner = addr("owner");
    let spender = addr("spender");
    let recipient = addr("recipient");
    client.mint(&owner, 1000);
    client.approve(&owner, &spender, 500);
    or_panic(client.transfer_from(&spender, &owner, &recipient, 500));
    assert_eq!(client.balance(&owner), 500);
    assert_eq!(client.balance(&recipient), 500);
    assert_eq!(client.allowance(&owner, &spender), 0);
}

#[test]
#[should_panic(expected = "insufficient allowance")]
fn test_transfer_from_insufficient_allowance() {
    let mut client = TokenContract::new();
    let owner = addr("owner");
    let spender = addr("spender");
    let recipient = addr("recipient");
    client.mint(&owner, 1000);
    client.approve(&owner, &spender, 100);
    or_panic(client.transfer_from(&spender, &owner, &recipient, 200));
}

#[test]
#[should_panic(expected = "insufficient balance")]
fn test_transfer_from_insufficient_balance() {
    let mut client = TokenContract::new();
    let owner = addr("owner");
    let spender = addr("spender");
    let recipient = addr("recipient");
    client.mint(&owner, 100);
    client.approve(&owner, &spender, 500);
    or_panic(client.transfer_from(&spender, &owner, &recipient, 200));
}

#[test]
fn test_multiple_approvals() {
    let mut client = TokenContract::new();
    let owner = addr("owner");
    let spender1 = addr("spender1");
    let spender2 = addr("spender2");
    client.approve(&owner, &spender1, 300);
    client.approve(&owner, &spender2, 500);
    assert_eq!(client.allowance(&owner, &spender1), 300);
    assert_eq!(client.allowance(&owner, &spender2), 500);
}

#[test]
fn test_approve_overwrite() {
    let mut client = TokenContract::new();
    let owner = addr("owner");
    let spender = addr("spender");
    client.approve(&owner, &spender, 300);
    client.approve(&owner, &spender, 500);
    assert_eq!(client.allowance(&owner, &spender), 500);
}

#[test]
fn test_complex_scenario() {
    let mut client = TokenContract::new();
    let alice = addr("alice");
    let bob = addr("bob");
    let charlie = addr("charlie");
    client.mint(&alice, 1000);
    client.mint(&bob, 500);

    or_panic(client.transfer(&alice, &bob, 200));
    assert_eq!(client.balance(&alice), 800);
    assert_eq!(client.balance(&bob), 700);

    client.approve(&bob, &charlie, 300);
    or_panic(client.transfer_from(&charlie, &bob, &alice, 150));

    assert_eq!(client.balance(&alice), 950);
    assert_eq!(client.balance(&bob), 550);
    assert_eq!(client.allowance(&bob, &charlie), 150);
}

#[test]
fn token_refusals_leave_ledger_unchanged() {
    let mut client = TokenContract::new();
    let alice = addr("alice");
    let bob = addr("bob");
    client.mint(&alice, 100);
    assert_eq!(client.transfer(&alice, &bob, 101), Err(TokenError::InsufficientBalance));
    assert_eq!(client.balance(&alice), 100);
    assert_eq!(client.balance(&bob), 0);
    assert_eq!(
        client.transfer_from(&bob, &alice, &bob, 1),
        Err(TokenError::InsufficientAllowance)
    );
    assert_eq!(client.balance(&alice), 100);
}

#[test]
fn token_transfer_conserves_total_between_two_accounts() {
    let mut client = TokenContract::new();
    let alice = addr("alice");
    let bob = addr("bob");
    client.mint(&alice, 640);
    client.mint(&bob, 17);
    assert_eq!(client.transfer(&alice, &bob, 333), Ok(()));
    assert_eq!(client.balance(&alice) + client.balance(&bob), 657);
}

#[test]
fn token_self_transfer_keeps_balance() {
    let mut client = TokenContract::new();
    let alice = addr("alice");
    client.mint(&alice, 100);
    assert_eq!(client.transfer(&alice, &alice, 40), Ok(()));
    assert_eq!(client.balance(&alice), 100);
    assert_eq!(client.transfer(&alice, &alice, 101), Err(TokenError::InsufficientBalance));
}

#[test]
fn token_self_transfer_from_spends_only_allowance() {
    let mut client = TokenContract::new();
    let (alice, bob) = (addr("alice"), addr("bob"));
    client.mint(&alice, 100);
    client.approve(&alice, &bob, 60);
    assert_eq!(client.transfer_from(&bob, &alice, &alice, 40), Ok(()));
    assert_eq!(client.balance(&alice), 100);
    assert_eq!(client.allowance(&alice, &bob), 20);
}

#[test]
fn token_faults_follow_the_checks() {
    let mut client = TokenContract::new();
    let (alice, bob) = (addr("alice"), addr("bob"));
    client.mint(&alice, i128::MAX);
    client.mint(&bob, 1);
    assert_eq!(client.transfer_faults(&alice, &alice, 5), None);
    assert_eq!(client.transfer_faults(&bob, &alice, 1), Some(ArithFault::AddOverflow));
    assert_eq!(client.transfer_faults(&bob, &alice, 2), None);
    assert_eq!(client.transfer_faults(&alice, &bob, -1), Some(ArithFault::SubOverflow));
    assert_eq!(client.transfer_from_faults(&bob, &bob, &alice, 1), None);
    client.approve(&bob, &alice, 1);
    assert_eq!(client.transfer_from_faults(&alice, &bob, &alice, 1), Some(ArithFault::AddOverflow));
}

#[test]
fn token_negative_mint_lowers_balance() {
    let mut client = TokenContract::new();
    let alice = addr("alice");
    client.mint(&alice, 100);
    client.mint(&alice, -30);
    assert_eq!(client.balance(&alice), 70);
}

#[test]
fn token_error_messages() {
    assert_eq!(TokenError::InsufficientBalance.message(), "insufficient balance");
    assert_eq!(TokenError::InsufficientAllowance.message(), "insufficient allowance");
}
