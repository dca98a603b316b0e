use sorosim::address::Addr;
use sorosim::arith::ArithFault;
use sorosim::auth::{AuthContract, AuthError, Role};
use sorosim::callee::{CalleeContract, CalleeError};
use sorosim::caller::{CallerContract, CallerError};
use sorosim::events::{EventData, EventsContract, Status, Topic};
use sorosim::nft::{NftContract, NftError};
use sorosim::oracle::{OracleContract, OracleError};
use sorosim::storage::{StorageContract, StorageError};

fn addr(s: &str) -> Addr {
    Addr::new(s.to_string())
}

#[test]
fn nft_mint_and_transfer() {
    let mut nft = NftContract::new();
    let alice = addr("alice");
    let bob = addr("bob");
    assert_eq!(nft.mint(alice.clone()), 0);
    assert_eq!(nft.mint(alice.clone()), 1);
    assert_eq!(nft.total_supply(), 2);
    assert_eq!(nft.owner_of(1).unwrap().text(), "alice");
    assert_eq!(nft.transfer(1, &bob, alice.clone()), Err(NftError::NotOwner));
    assert_eq!(nft.transfer(1, &alice, bob.clone()), Ok(()));
    assert_eq!(nft.owner_of(1).unwrap().text(), "bob");
    assert_eq!(nft.owner_of(0).unwrap().text(), "alice");
    assert_eq!(nft.owner_of(2).err(), Some(NftError::TokenNotFound));
    assert_eq!(nft.transfer(5, &alice, bob), Err(NftError::TokenNotFound));
    assert_eq!(NftError::TokenNotFound.message(), "token does not exist");
}

#[test]
fn oracle_prices() {
    let mut oracle = OracleContract::new();
    let admin = addr("admin");
    let btc = "BTC".to_string();
    assert_eq!(oracle.set_price(&admin, btc.clone(), 5, 2, 10), Err(OracleError::NotInitialized));
    assert_eq!(oracle.initialize(admin.clone()), Ok(()));
    assert_eq!(oracle.initialize(addr("other")), Err(OracleError::AlreadyInitialized));
    assert_eq!(oracle.get_price(&btc), Err(OracleError::PriceNotSet));
    assert!(!oracle.has_price(&btc));
    assert_eq!(oracle.set_price(&addr("other"), btc.clone(), 5, 2, 10), Err(OracleError::NotAdmin));
    assert_eq!(oracle.set_price(&admin, btc.clone(), -1, 2, 10), Err(OracleError::NegativePrice));
    assert_eq!(oracle.set_price(&admin, btc.clone(), 5_000_000, 2, 10), Ok(()));
    assert!(oracle.has_price(&btc));
    assert_eq!(oracle.get_price(&btc), Ok(5_000_000));
    let data = oracle.get_price_data(&btc).unwrap();
    assert_eq!(data.decimals, 2);
    assert_eq!(data.timestamp, 10);
    assert_eq!(data.asset, "BTC");
    assert_eq!(oracle.get_price_age(&btc, 25), Ok(15));
    assert_eq!(oracle.get_price_age(&btc, 3), Ok(0));
    assert_eq!(oracle.get_admin().unwrap().text(), "admin");
    assert_eq!(oracle.transfer_admin(&addr("other"), addr("x")), Err(OracleError::NotAdmin));
    assert_eq!(oracle.transfer_admin(&admin, addr("new")), Ok(()));
    assert_eq!(oracle.get_admin().unwrap().text(), "new");
    assert_eq!(oracle.set_price(&admin, btc, 1, 2, 30), Err(OracleError::NotAdmin));
}

#[test]
fn auth_roles_and_pause() {
    let mut c = AuthContract::new();
    let admin = addr("admin");
    let user = addr("user");
    let modr = addr("moderator");
    assert_eq!(c.get_admin().err(), Some(AuthError::NotInitialized));
    assert_eq!(c.pause(&admin), Err(AuthError::NotInitialized));
    assert_eq!(c.initialize(admin.clone()), Ok(()));
    assert_eq!(c.initialize(user.clone()), Err(AuthError::AlreadyInitialized));
    assert_eq!(c.get_role(&admin), Role::Admin);
    assert_eq!(c.get_role(&user), Role::User);

    c.set_balance(&user, 10);
    assert_eq!(c.get_balance(&user), 10);
    assert_eq!(c.admin_set_balance(&user, &user, 99), Err(AuthError::NotAdmin));
    assert_eq!(c.admin_set_balance(&admin, &user, 20), Ok(()));
    assert_eq!(c.get_balance(&user), 20);

    assert_eq!(c.moderate_set_balance(&modr, &user, 30), Err(AuthError::InsufficientPermissions));
    assert_eq!(c.grant_role(&user, &modr, Role::Moderator), Err(AuthError::NotAdmin));
    assert_eq!(c.grant_role(&admin, &modr, Role::Moderator), Ok(()));
    assert_eq!(c.moderate_set_balance(&modr, &user, 30), Ok(()));
    assert_eq!(c.get_balance(&user), 30);

    assert_eq!(c.multi_auth_transfer(&admin, &user, &modr, 31), Err(AuthError::InsufficientBalance));
    assert_eq!(c.multi_auth_transfer(&admin, &user, &modr, 12), Ok(()));
    assert_eq!((c.get_balance(&user), c.get_balance(&modr)), (18, 12));

    assert_eq!(c.pausable_operation(&user), Ok(()));
    assert_eq!(c.get_balance(&user), 19);
    assert!(!c.is_paused());
    assert_eq!(c.pause(&user), Err(AuthError::NotAdmin));
    assert_eq!(c.pause(&admin), Ok(()));
    assert!(c.is_paused());
    assert_eq!(c.pausable_operation(&user), Err(AuthError::Paused));
    assert_eq!(c.get_balance(&user), 19);
    assert_eq!(c.unpause(&admin), Ok(()));
    assert_eq!(c.pausable_operation(&user), Ok(()));
    assert_eq!(c.get_balance(&user), 20);
    assert_eq!(AuthError::Paused.message(), "contract is paused");
}

#[test]
fn storage_three_kinds_of_entries() {
    let mut s = StorageContract::new();
    let admin = addr("admin");
    let user = addr("user");
    assert_eq!(s.get_init_time(), 0);
    assert_eq!(s.get_admin().err(), Some(StorageError::NotInitialized));
    assert_eq!(s.initialize(admin.clone(), 42), Ok(()));
    assert_eq!(s.initialize(admin, 43), Err(StorageError::AlreadyInitialized));
    assert_eq!(s.get_init_time(), 42);
    assert_eq!(s.increment_counter(), 1);

    s.set_balance(&user, 7);
    assert_eq!(s.get_balance(&user), 7);

    let none = s.get_user_data(&user);
    assert_eq!((none.name.as_str(), none.score, none.active), ("NONE", 0, false));
    assert!(!s.has_user_data(&user));
    s.set_user_data(&user, "alice".to_string(), 12, true);
    assert!(s.has_user_data(&user));
    let d = s.get_user_data(&user);
    assert_eq!((d.name.as_str(), d.score, d.active), ("alice", 12, true));
    s.remove_user_data(&user);
    assert!(!s.has_user_data(&user));

    assert!(!s.has_session(&user));
    s.set_session(&user, 5);
    assert!(s.has_session(&user));
    assert_eq!(s.get_session(&user), 5);
    s.set_cache("k".to_string(), 9);
    assert_eq!(s.get_cache(&"k".to_string()), 9);
    assert_eq!(s.get_cache(&"missing".to_string()), 0);

    s.process_transaction(&user, 100);
    assert_eq!(s.get_storage_summary(&user), (2, 107, 100));
    assert_eq!(s.get_cache(&"LAST_TX".to_string()), 2);
}

#[test]
fn callee_and_caller() {
    let mut callee = CalleeContract::new();
    let admin = addr("admin");
    assert_eq!(callee.get_stats().err(), Some(CalleeError::NotInitialized));
    assert_eq!(callee.initialize(admin.clone()), Ok(()));
    assert_eq!(callee.initialize(admin.clone()), Err(CalleeError::AlreadyInitialized));
    assert_eq!(CalleeContract::multiply(6, 7), Ok(42));
    assert_eq!(CalleeContract::multiply(i128::MAX, 2), Err(CalleeError::Overflow));

    let mut caller = CallerContract::new();
    assert_eq!(caller.call_get_counter(&callee), Err(CallerError::NotInitialized));
    assert_eq!(caller.initialize(addr("callee")), Ok(()));
    assert_eq!(caller.initialize(addr("callee")), Err(CallerError::AlreadyInitialized));
    assert_eq!(caller.get_callee().unwrap().text(), "callee");

    assert_eq!(caller.call_get_counter(&callee), Ok(0));
    assert_eq!(caller.call_increment(&mut callee), Ok(1));
    assert_eq!(caller.call_add_value(&mut callee, 10), Ok(11));
    assert_eq!(caller.call_sequence(&mut callee, 5), Ok((11, 12, 17)));
    assert_eq!(caller.call_multiply(3, 4), Ok(12));
    assert_eq!(
        caller.call_multiply(i128::MAX, 3),
        Err(CallerError::Callee(CalleeError::Overflow))
    );
    assert_eq!(caller.call_and_process(&mut callee, 3, 4), Ok(29));
    assert_eq!(callee.get_counter(), 29);

    let user = addr("user");
    callee.set_balance(&user, 8);
    assert_eq!(caller.call_get_balance(&callee, &user), Ok(8));
    let (c, a) = caller.call_get_stats(&callee).unwrap();
    assert_eq!((c, a.text().as_str()), (29, "admin"));
    let data = caller.call_get_data(&callee, &addr("caller")).unwrap();
    assert_eq!((data.value, data.caller.text().as_str()), (29, "caller"));

    assert_eq!(callee.reset_counter(&user), Err(CalleeError::NotAdmin));
    assert_eq!(callee.reset_counter(&admin), Ok(()));
    assert_eq!(callee.get_counter(), 0);
    assert_eq!(CallerError::Callee(CalleeError::Overflow).message(), "overflow");
}

fn topic_names(topics: &[Topic]) -> Vec<String> {
    topics
        .iter()
        .map(|t| match t {
            Topic::Sym(s) => s.clone(),
            Topic::Address(a) => format!("@{}", a.text()),
        })
        .collect()
}

#[test]
fn events_emitted() {
    let simple = EventsContract::emit_simple();
    assert_eq!(simple.len(), 1);
    assert_eq!(topic_names(&simple[0].topics), vec!["SIMPLE"]);
    assert!(matches!(simple[0].data, EventData::Unit));

    let t = EventsContract::emit_transfer(addr("a"), addr("b"), 5);
    assert_eq!(topic_names(&t[0].topics), vec!["TRANSFER", "@a", "@b"]);
    assert!(matches!(t[0].data, EventData::I128(5)));

    let m = EventsContract::emit_multiple(addr("u"), 9);
    assert_eq!(m.len(), 3);
    assert_eq!(topic_names(&m[0].topics), vec!["START"]);
    assert_eq!(topic_names(&m[1].topics), vec!["PROCESS"]);
    assert_eq!(topic_names(&m[2].topics), vec!["COMPLETE", "@u"]);
    assert!(matches!(m[2].data, EventData::I128(9)));

    let s = EventsContract::emit_status_change(Status::Active, Status::Paused);
    assert!(matches!(s[0].data, EventData::StatusChange(Status::Active, Status::Paused)));

    let v = EventsContract::emit_with_vec(vec![1, 2, 3]);
    match &v[0].data {
        EventData::I128List(xs) => assert_eq!(xs, &vec![1, 2, 3]),
        _ => panic!("wrong data"),
    }

    let mt = EventsContract::emit_multi_topic("X".to_string(), "Y".to_string(), 1);
    assert_eq!(topic_names(&mt[0].topics), vec!["MULTI", "X", "Y"]);

    let tw = EventsContract::transfer_with_events(addr("a"), addr("b"), 3);
    assert_eq!(tw.len(), 2);
    assert_eq!(topic_names(&tw[0].topics), vec!["TX_START"]);
    assert!(matches!(tw[0].data, EventData::TransferTuple(_, _, 3)));
    assert_eq!(topic_names(&tw[1].topics), vec!["TRANSFER", "@a", "@b"]);

    assert!(matches!(EventsContract::emit_with_u64(7)[0].data, EventData::U64(7)));
    assert!(matches!(EventsContract::emit_with_u32(7)[0].data, EventData::U32(7)));
    assert!(matches!(EventsContract::emit_with_bool(true)[0].data, EventData::Bool(true)));
    assert!(matches!(EventsContract::emit_with_value(-4)[0].data, EventData::I128(-4)));
}

#[test]
fn auth_overflow_only_after_admin_and_balance_checks() {
    let mut access = AuthContract::new();
    let admin = addr("admin");
    let (a, b) = (addr("a"), addr("b"));
    access.initialize(admin.clone()).unwrap();
    access.set_balance(&a, 10);
    access.set_balance(&b, i128::MAX);
    assert_eq!(access.multi_auth_transfer_faults(&addr("mallory"), &a, &b, 5), None);
    assert_eq!(access.multi_auth_transfer(&addr("mallory"), &a, &b, 5), Err(AuthError::NotAdmin));
    assert_eq!(access.multi_auth_transfer_faults(&admin, &a, &b, 50), None);
    assert_eq!(access.multi_auth_transfer_faults(&admin, &a, &b, 5), Some(ArithFault::AddOverflow));
    assert_eq!(access.multi_auth_transfer_faults(&admin, &b, &b, 5), None);
}

#[test]
fn auth_self_transfer_keeps_balance() {
    let mut access = AuthContract::new();
    let admin = addr("admin");
    let a = addr("a");
    access.initialize(admin.clone()).unwrap();
    access.set_balance(&a, 70);
    assert_eq!(access.multi_auth_transfer(&admin, &a, &a, 30), Ok(()));
    assert_eq!(access.get_balance(&a), 70);
}

#[test]
fn nft_restore_keeps_owners_by_id() {
    let mut nft = NftContract::restore(vec![addr("a"), addr("b")]);
    assert_eq!(nft.total_supply(), 2);
    assert_eq!(nft.owner_of(1).unwrap().text(), "b");
    assert_eq!(nft.mint(addr("c")), 2);
    assert_eq!(nft.transfer(0, &addr("b"), addr("c")), Err(NftError::NotOwner));
}
