use kudo_bank::ledger::Ledger;
use kudo_bank::principal::Principal;
use kudo_bank::service::{AuthOutcome, KudoBankContract, KudoError};
use kudo_bank::store::{LedgerStore, StoreError, WriteOutcome};

fn principal(bytes: &[u8]) -> Principal {
    Principal::new(bytes.to_vec())
}

#[test]
fn test_kudo_bank() {
    let mut store = LedgerStore::new();
    let user_1 = principal(&[1, 2, 3]);
    let user_2 = principal(&[4, 5, 6]);

    let event = KudoBankContract::give_kudos(
        &mut store,
        &user_1,
        &user_2,
        AuthOutcome::Proved,
        WriteOutcome::Accepted,
    )
    .unwrap();

    assert_eq!(KudoBankContract::get_kudos(&store, &user_2), 1);
    assert_eq!(KudoBankContract::get_kudos(&store, &user_1), 0);

    KudoBankContract::give_kudos(
        &mut store,
        &user_1,
        &user_2,
        AuthOutcome::Proved,
        WriteOutcome::Accepted,
    )
    .unwrap();

    assert_eq!(KudoBankContract::get_kudos(&store, &user_2), 2);

    assert!(event.from.same_as(&user_1) && event.to.same_as(&user_2));
}

#[test]
fn never_referenced_principal_reads_zero() {
    let store = LedgerStore::new();
    let user_3 = principal(&[9, 9, 9]);
    assert_eq!(KudoBankContract::get_kudos(&store, &user_3), 0);
}

#[test]
fn unauthorized_credit_fails_and_changes_nothing() {
    let mut store = LedgerStore::new();
    let user_1 = principal(&[1]);
    let user_2 = principal(&[2]);

    KudoBankContract::give_kudos(
        &mut store,
        &user_1,
        &user_2,
        AuthOutcome::Proved,
        WriteOutcome::Accepted,
    )
    .unwrap();
    let before = KudoBankContract::get_kudos(&store, &user_2);

    let result = KudoBankContract::give_kudos(
        &mut store,
        &user_1,
        &user_2,
        AuthOutcome::Denied,
        WriteOutcome::Accepted,
    );

    let err = match result {
        Err(e) => e,
        Ok(_) => panic!("a credit without proof of control must fail"),
    };
    assert_eq!(err, KudoError::Unauthorized);
    assert_eq!(KudoBankContract::get_kudos(&store, &user_2), before);
    assert_eq!(before, 1);
}

#[test]
fn rejected_write_fails_and_changes_nothing() {
    let mut store = LedgerStore::new();
    let user_1 = principal(&[1]);
    let user_2 = principal(&[2]);

    KudoBankContract::give_kudos(
        &mut store,
        &user_1,
        &user_2,
        AuthOutcome::Proved,
        WriteOutcome::Accepted,
    )
    .unwrap();

    let result = KudoBankContract::give_kudos(
        &mut store,
        &user_1,
        &user_2,
        AuthOutcome::Proved,
        WriteOutcome::Rejected,
    );

    let err = match result {
        Err(e) => e,
        Ok(_) => panic!("a rejected write must fail the credit"),
    };
    assert_eq!(err, KudoError::Store(StoreError::WriteFailed));
    assert_eq!(KudoBankContract::get_kudos(&store, &user_2), 1);
}

#[test]
fn credit_at_counter_maximum_is_rejected() {
    let mut store = LedgerStore::new();
    let user_1 = principal(&[1]);
    let user_2 = principal(&[2]);

    let mut ledger = Ledger::new();
    ledger.set_count(&user_2, u32::MAX);
    store.save(ledger, WriteOutcome::Accepted).unwrap();

    let result = KudoBankContract::give_kudos(
        &mut store,
        &user_1,
        &user_2,
        AuthOutcome::Proved,
        WriteOutcome::Accepted,
    );

    let err = match result {
        Err(e) => e,
        Ok(_) => panic!("a credit at the counter maximum must fail"),
    };
    assert_eq!(err, KudoError::ArithmeticOverflow);
    assert_eq!(KudoBankContract::get_kudos(&store, &user_2), u32::MAX);
}

#[test]
fn self_credit_is_permitted() {
    let mut store = LedgerStore::new();
    let user_1 = principal(&[7]);

    KudoBankContract::give_kudos(
        &mut store,
        &user_1,
        &user_1,
        AuthOutcome::Proved,
        WriteOutcome::Accepted,
    )
    .unwrap();

    assert_eq!(KudoBankContract::get_kudos(&store, &user_1), 1);
}

#[test]
fn equal_identity_bytes_name_the_same_principal() {
    let mut store = LedgerStore::new();
    let giver = principal(&[1]);
    let handle_a = principal(&[42, 42]);
    let handle_b = principal(&[42, 42]);
    assert!(handle_a.same_as(&handle_b));

    KudoBankContract::give_kudos(
        &mut store,
        &giver,
        &handle_a,
        AuthOutcome::Proved,
        WriteOutcome::Accepted,
    )
    .unwrap();

    assert_eq!(KudoBankContract::get_kudos(&store, &handle_b), 1);
}

#[test]
fn repeated_reads_return_identical_values() {
    let mut store = LedgerStore::new();
    let user_1 = principal(&[1]);
    let user_2 = principal(&[2]);

    KudoBankContract::give_kudos(
        &mut store,
        &user_1,
        &user_2,
        AuthOutcome::Proved,
        WriteOutcome::Accepted,
    )
    .unwrap();

    let first = KudoBankContract::get_kudos(&store, &user_2);
    let second = KudoBankContract::get_kudos(&store, &user_2);
    assert_eq!(first, second);
    assert_eq!(first, 1);
}

#[test]
fn save_and_load_round_trip_preserves_counts() {
    let mut store = LedgerStore::new();
    let user_1 = principal(&[1]);
    let user_2 = principal(&[2]);

    let mut ledger = Ledger::new();
    ledger.set_count(&user_1, 5);
    ledger.set_count(&user_2, 8);
    store.save(ledger, WriteOutcome::Accepted).unwrap();

    let loaded = store.load();
    assert_eq!(loaded.count(&user_1), 5);
    assert_eq!(loaded.count(&user_2), 8);
    assert_eq!(loaded.len(), 2);
}

#[test]
fn ledger_set_count_overwrites_and_leaves_others_alone() {
    let mut ledger = Ledger::new();
    let user_1 = principal(&[1]);
    let user_2 = principal(&[2]);
    assert_eq!(ledger.count(&user_1), 0);

    ledger.set_count(&user_1, 3);
    ledger.set_count(&user_2, 4);
    ledger.set_count(&user_1, 6);

    assert_eq!(ledger.count(&user_1), 6);
    assert_eq!(ledger.count(&user_2), 4);
    assert_eq!(ledger.len(), 2);

    let (row_principal, row_count) = ledger.entry_at(0);
    assert!(row_principal.same_as(&user_1));
    assert_eq!(row_count, 6);
}

#[test]
fn principal_bytes_and_identity() {
    let user = principal(&[10, 20, 30]);
    assert_eq!(user.bytes().as_slice(), &[10, 20, 30]);
    assert!(user.same_as(&user.duplicate()));
    assert!(!user.same_as(&principal(&[10, 20])));
}
