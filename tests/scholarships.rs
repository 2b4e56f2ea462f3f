use descholar::{
    check_received, check_sent, funding_required, Address, ApplicationStatus, BalanceChange,
    DescholarContract, Error,
};

const FUTURE: u64 = 1_900_000_000;

fn addr(key: &str) -> Address {
    Address::new(key.to_string())
}

fn change(before: i128, after: i128) -> BalanceChange {
    BalanceChange { before, after }
}

/// A store holding one scholarship ("Math Grant", 100 per grant, `count` grants)
/// posted by "creator", with custody starting at zero.
fn store_with_grant(count: u64) -> DescholarContract {
    let mut c = DescholarContract::new();
    let total = 100 * count as i128;
    let id = c.post_scholarship(
        addr("creator"),
        "Math Grant".to_string(),
        "algebra".to_string(),
        100,
        count,
        FUTURE,
        change(0, total),
    );
    assert_eq!(id, Ok(1));
    c
}

#[test]
fn test_post_scholarship_success() {
    let mut c = DescholarContract::new();
    let result = c.post_scholarship(
        addr("admin"),
        "Scholarship1".to_string(),
        "Scholarship Details".to_string(),
        100,
        10,
        1672531199,
        change(0, 1000),
    );
    assert!(result.is_ok());
    let scholarships = c.get_scholarships();
    assert_eq!(scholarships.len(), 1);
    assert_eq!(scholarships[0].name, "Scholarship1");
}

#[test]
fn post_offers_every_grant_and_escrows_exact_total() {
    let mut c = DescholarContract::new();
    let r = c.post_scholarship(
        addr("creator"),
        "Math Grant".to_string(),
        "algebra".to_string(),
        100,
        5,
        FUTURE,
        change(7, 507),
    );
    assert_eq!(r, Ok(1));
    let s = &c.get_scholarships()[0];
    assert_eq!(s.id, 1);
    assert_eq!(s.grants_remaining, 5);
    assert_eq!(s.number_of_grants, 5);
    assert_eq!(s.grant_amount, 100);
    assert_eq!(s.end_date, FUTURE);
    assert_eq!(s.creator, addr("creator"));
    assert_eq!(s.details, "algebra");
}

#[test]
fn post_ids_count_up_from_one() {
    let mut c = store_with_grant(1);
    let r = c.post_scholarship(
        addr("other"),
        "Physics".to_string(),
        "mechanics".to_string(),
        3,
        2,
        FUTURE,
        change(100, 106),
    );
    assert_eq!(r, Ok(2));
    assert_eq!(c.scholarship_count(), 2);
}

#[test]
fn post_short_escrow_is_refused() {
    let mut c = DescholarContract::new();
    let r = c.post_scholarship(
        addr("creator"),
        "Math Grant".to_string(),
        "algebra".to_string(),
        100,
        5,
        FUTURE,
        change(0, 499),
    );
    assert_eq!(r, Err(Error::InsufficientFunds));
    assert_eq!(c.scholarship_count(), 0);
}

#[test]
fn post_invalid_amounts_are_refused() {
    let mut c = DescholarContract::new();
    for (amount, count) in [(0i128, 5u64), (-10, 5), (100, 0)] {
        let r = c.post_scholarship(
            addr("creator"),
            "Bad".to_string(),
            "bad".to_string(),
            amount,
            count,
            FUTURE,
            change(0, 0),
        );
        assert_eq!(r, Err(Error::InvalidAmount));
    }
    assert_eq!(c.scholarship_count(), 0);
}

#[test]
fn post_total_overflow_is_invalid() {
    let mut c = DescholarContract::new();
    let r = c.post_scholarship(
        addr("creator"),
        "Huge".to_string(),
        "huge".to_string(),
        i128::MAX,
        2,
        FUTURE,
        change(0, 0),
    );
    assert_eq!(r, Err(Error::InvalidAmount));
    assert_eq!(c.scholarship_count(), 0);
}

#[test]
fn funding_required_values() {
    assert_eq!(funding_required(100, 5), Ok(500));
    assert_eq!(funding_required(1, 1), Ok(1));
    assert_eq!(funding_required(0, 5), Err(Error::InvalidAmount));
    assert_eq!(funding_required(-1, 5), Err(Error::InvalidAmount));
    assert_eq!(funding_required(5, 0), Err(Error::InvalidAmount));
    assert_eq!(funding_required(i128::MAX / 2 + 1, 2), Err(Error::InvalidAmount));
    assert_eq!(funding_required(i128::MAX, 1), Ok(i128::MAX));
}

#[test]
fn balance_checks() {
    assert_eq!(check_received(change(10, 510), 500), Ok(()));
    assert_eq!(check_received(change(10, 10), 500), Err(Error::InsufficientFunds));
    assert_eq!(check_received(change(i128::MAX, i128::MAX), 1), Err(Error::InsufficientFunds));
    assert_eq!(check_sent(change(500, 400), 100), Ok(()));
    assert_eq!(check_sent(change(500, 500), 100), Err(Error::InsufficientFunds));
    assert_eq!(check_sent(change(i128::MIN, i128::MIN), 1), Err(Error::InsufficientFunds));
}

#[test]
fn apply_creates_pending_application() {
    let mut c = store_with_grant(5);
    let r = c.apply(addr("alice"), 1, "Alice".to_string(), "essay".to_string(), 1000);
    assert_eq!(r, Ok(()));
    let apps = c.get_applications();
    assert_eq!(apps.len(), 1);
    assert_eq!(apps[0].scholarship_id, 1);
    assert_eq!(apps[0].applicant, addr("alice"));
    assert_eq!(apps[0].name, "Alice");
    assert_eq!(apps[0].details, "essay");
    assert_eq!(apps[0].status, ApplicationStatus::Pending);
}

#[test]
fn second_apply_is_refused() {
    let mut c = store_with_grant(5);
    assert_eq!(c.apply(addr("alice"), 1, "Alice".to_string(), "one".to_string(), 10), Ok(()));
    let r = c.apply(addr("alice"), 1, "Alice".to_string(), "two".to_string(), 20);
    assert_eq!(r, Err(Error::AlreadyApplied));
    assert_eq!(c.get_applications().len(), 1);
    assert_eq!(c.get_applications()[0].details, "one");
}

#[test]
fn apply_after_decision_is_still_refused() {
    let mut c = store_with_grant(5);
    assert_eq!(c.apply(addr("alice"), 1, "Alice".to_string(), "one".to_string(), 10), Ok(()));
    assert_eq!(c.reject_applicant(1, &addr("alice"), &addr("creator")), Ok(()));
    let r = c.apply(addr("alice"), 1, "Alice".to_string(), "two".to_string(), 20);
    assert_eq!(r, Err(Error::AlreadyApplied));
    assert_eq!(c.get_applications().len(), 1);
}

#[test]
fn apply_after_end_date_is_refused() {
    let mut c = store_with_grant(5);
    let r = c.apply(addr("alice"), 1, "Alice".to_string(), "late".to_string(), FUTURE + 1);
    assert_eq!(r, Err(Error::ScholarshipExpired));
    assert!(c.get_applications().is_empty());
    let on_time = c.apply(addr("alice"), 1, "Alice".to_string(), "on time".to_string(), FUTURE);
    assert_eq!(on_time, Ok(()));
}

#[test]
fn apply_to_unknown_scholarship_is_refused() {
    let mut c = store_with_grant(5);
    for id in [0u64, 2, u64::MAX] {
        let r = c.apply(addr("alice"), id, "Alice".to_string(), "x".to_string(), 1);
        assert_eq!(r, Err(Error::ScholarshipNotFound));
    }
    assert!(c.get_applications().is_empty());
}

#[test]
fn approve_by_non_creator_is_refused() {
    let mut c = store_with_grant(5);
    c.apply(addr("alice"), 1, "Alice".to_string(), "x".to_string(), 1).unwrap();
    assert_eq!(
        c.check_approval(1, &addr("alice"), &addr("mallory")),
        Err(Error::Unauthorized)
    );
    let r = c.approve_applicant(1, &addr("alice"), &addr("mallory"), change(500, 400), change(0, 100));
    assert_eq!(r, Err(Error::Unauthorized));
    assert_eq!(c.get_applications()[0].status, ApplicationStatus::Pending);
    assert_eq!(c.get_scholarships()[0].grants_remaining, 5);
    let r = c.reject_applicant(1, &addr("alice"), &addr("mallory"));
    assert_eq!(r, Err(Error::Unauthorized));
    assert_eq!(c.get_applications()[0].status, ApplicationStatus::Pending);
}

#[test]
fn decided_application_is_not_approved_again() {
    let mut c = store_with_grant(5);
    c.apply(addr("alice"), 1, "Alice".to_string(), "x".to_string(), 1).unwrap();
    c.apply(addr("bob"), 1, "Bob".to_string(), "y".to_string(), 1).unwrap();
    let creator = addr("creator");
    assert_eq!(c.approve_applicant(1, &addr("alice"), &creator, change(500, 400), change(0, 100)), Ok(()));
    assert_eq!(c.reject_applicant(1, &addr("bob"), &creator), Ok(()));

    assert_eq!(c.check_approval(1, &addr("alice"), &creator), Err(Error::ApplicationNotFound));
    assert_eq!(
        c.approve_applicant(1, &addr("alice"), &creator, change(400, 300), change(100, 200)),
        Err(Error::ApplicationNotFound)
    );
    assert_eq!(
        c.approve_applicant(1, &addr("bob"), &creator, change(400, 300), change(0, 100)),
        Err(Error::ApplicationNotFound)
    );
    assert_eq!(c.reject_applicant(1, &addr("alice"), &creator), Err(Error::ApplicationNotFound));
    assert_eq!(c.get_scholarships()[0].grants_remaining, 4);
    assert_eq!(c.get_applications()[0].status, ApplicationStatus::Approved);
    assert_eq!(c.get_applications()[1].status, ApplicationStatus::Rejected);
}

#[test]
fn successful_approval_changes_all_four() {
    let mut c = store_with_grant(5);
    c.apply(addr("alice"), 1, "Alice".to_string(), "x".to_string(), 1).unwrap();
    let creator = addr("creator");
    assert_eq!(c.check_approval(1, &addr("alice"), &creator), Ok(100));
    let r = c.approve_applicant(1, &addr("alice"), &creator, change(500, 400), change(20, 120));
    assert_eq!(r, Ok(()));
    assert_eq!(c.get_applications()[0].status, ApplicationStatus::Approved);
    assert_eq!(c.get_scholarships()[0].grants_remaining, 4);
}

#[test]
fn failed_transfer_leaves_approval_undone() {
    let mut c = store_with_grant(5);
    c.apply(addr("alice"), 1, "Alice".to_string(), "x".to_string(), 1).unwrap();
    let creator = addr("creator");
    let attempts = [
        (change(500, 500), change(0, 0)),
        (change(500, 400), change(0, 0)),
        (change(500, 500), change(0, 100)),
        (change(500, 450), change(0, 50)),
    ];
    for (custody, recipient) in attempts {
        let r = c.approve_applicant(1, &addr("alice"), &creator, custody, recipient);
        assert_eq!(r, Err(Error::InsufficientFunds));
        assert_eq!(c.get_applications()[0].status, ApplicationStatus::Pending);
        assert_eq!(c.get_scholarships()[0].grants_remaining, 5);
    }
}

#[test]
fn approval_without_remaining_grants_is_refused() {
    let mut c = store_with_grant(1);
    c.apply(addr("alice"), 1, "Alice".to_string(), "x".to_string(), 1).unwrap();
    c.apply(addr("bob"), 1, "Bob".to_string(), "y".to_string(), 1).unwrap();
    let creator = addr("creator");
    assert_eq!(c.approve_applicant(1, &addr("alice"), &creator, change(100, 0), change(0, 100)), Ok(()));
    assert_eq!(c.check_approval(1, &addr("bob"), &creator), Err(Error::InsufficientFunds));
    let r = c.approve_applicant(1, &addr("bob"), &creator, change(0, -100), change(0, 100));
    assert_eq!(r, Err(Error::InsufficientFunds));
    assert_eq!(c.get_applications()[1].status, ApplicationStatus::Pending);
    assert_eq!(c.reject_applicant(1, &addr("bob"), &creator), Ok(()));
}

#[test]
fn decisions_on_missing_records() {
    let mut c = store_with_grant(5);
    let creator = addr("creator");
    assert_eq!(
        c.approve_applicant(9, &addr("alice"), &creator, change(0, 0), change(0, 0)),
        Err(Error::ScholarshipNotFound)
    );
    assert_eq!(c.reject_applicant(0, &addr("alice"), &creator), Err(Error::ScholarshipNotFound));
    assert_eq!(
        c.approve_applicant(1, &addr("alice"), &creator, change(500, 400), change(0, 100)),
        Err(Error::ApplicationNotFound)
    );
    assert_eq!(c.reject_applicant(1, &addr("alice"), &creator), Err(Error::ApplicationNotFound));
}

#[test]
fn end_to_end_math_grant() {
    let mut c = DescholarContract::new();
    let creator = addr("creator");
    let alice = addr("alice");
    let mut custody: i128 = 0;
    let mut alice_balance: i128 = 0;

    let total = funding_required(100, 5).unwrap();
    let id = c
        .post_scholarship(
            creator.clone(),
            "Math Grant".to_string(),
            "…".to_string(),
            100,
            5,
            FUTURE,
            change(custody, custody + total),
        )
        .unwrap();
    custody += total;
    assert_eq!(id, 1);
    assert_eq!(custody, 500);

    c.apply(alice.clone(), 1, "Alice".to_string(), "…".to_string(), 1000).unwrap();
    let apps = c.get_applications();
    assert_eq!(apps.len(), 1);
    assert_eq!(apps[0].status, ApplicationStatus::Pending);

    let grant = c.check_approval(1, &alice, &creator).unwrap();
    assert_eq!(grant, 100);
    let r = c.approve_applicant(
        1,
        &alice,
        &creator,
        change(custody, custody - grant),
        change(alice_balance, alice_balance + grant),
    );
    assert_eq!(r, Ok(()));
    custody -= grant;
    alice_balance += grant;
    assert_eq!(c.get_applications()[0].status, ApplicationStatus::Approved);
    assert_eq!(c.get_scholarships()[0].grants_remaining, 4);
    assert_eq!(alice_balance, 100);
    assert_eq!(custody, 400);

    assert_eq!(c.check_approval(1, &alice, &creator), Err(Error::ApplicationNotFound));
    let again = c.approve_applicant(1, &alice, &creator, change(400, 300), change(100, 200));
    assert_eq!(again, Err(Error::ApplicationNotFound));
    assert_eq!(c.get_scholarships()[0].grants_remaining, 4);
    assert_eq!(c.get_applications().len(), 1);
    assert_eq!(c.get_applications()[0].status, ApplicationStatus::Approved);
}

#[test]
fn queries_filter_by_owner_and_scholarship() {
    let mut c = store_with_grant(5);
    c.post_scholarship(
        addr("other"),
        "Art".to_string(),
        "painting".to_string(),
        10,
        1,
        FUTURE,
        change(500, 510),
    )
    .unwrap();
    c.post_scholarship(
        addr("creator"),
        "Chemistry".to_string(),
        "labs".to_string(),
        10,
        1,
        FUTURE,
        change(510, 520),
    )
    .unwrap();
    c.apply(addr("alice"), 1, "Alice".to_string(), "a".to_string(), 1).unwrap();
    c.apply(addr("alice"), 2, "Alice".to_string(), "b".to_string(), 1).unwrap();
    c.apply(addr("bob"), 1, "Bob".to_string(), "c".to_string(), 1).unwrap();

    let mine = c.get_my_scholarships(&addr("creator"));
    assert_eq!(mine.len(), 2);
    assert_eq!(mine[0].name, "Math Grant");
    assert_eq!(mine[1].name, "Chemistry");
    assert!(c.get_my_scholarships(&addr("nobody")).is_empty());

    let alices = c.get_my_applications(&addr("alice"));
    assert_eq!(alices.len(), 2);
    assert_eq!(alices[0].details, "a");
    assert_eq!(alices[1].details, "b");

    let to_first = c.get_applications_frm_schlrship(1);
    assert_eq!(to_first.len(), 2);
    assert_eq!(to_first[0].applicant, addr("alice"));
    assert_eq!(to_first[1].applicant, addr("bob"));
    assert!(c.get_applications_frm_schlrship(3).is_empty());
}

#[test]
fn restore_accepts_saved_records() {
    let mut c = store_with_grant(2);
    c.apply(addr("alice"), 1, "Alice".to_string(), "a".to_string(), 1).unwrap();
    c.approve_applicant(1, &addr("alice"), &addr("creator"), change(200, 100), change(0, 100)).unwrap();
    let back = DescholarContract::restore(c.get_scholarships(), c.get_applications());
    let back = back.expect("saved records are consistent");
    assert_eq!(back.get_scholarships()[0].grants_remaining, 1);
    assert_eq!(back.get_applications()[0].status, ApplicationStatus::Approved);
    assert!(DescholarContract::restore(Vec::new(), Vec::new()).is_some());
}

#[test]
fn restore_refuses_corrupt_records() {
    let mut c = store_with_grant(2);
    c.apply(addr("alice"), 1, "Alice".to_string(), "a".to_string(), 1).unwrap();

    let mut bad_id = c.get_scholarships();
    bad_id[0].id = 2;
    assert!(DescholarContract::restore(bad_id, c.get_applications()).is_none());

    let mut unaccounted = c.get_scholarships();
    unaccounted[0].grants_remaining = 1;
    assert!(DescholarContract::restore(unaccounted, c.get_applications()).is_none());

    let mut duplicated = c.get_applications();
    duplicated.push(duplicated[0].clone());
    assert!(DescholarContract::restore(c.get_scholarships(), duplicated).is_none());

    let mut dangling = c.get_applications();
    dangling[0].scholarship_id = 7;
    assert!(DescholarContract::restore(c.get_scholarships(), dangling).is_none());
}

#[test]
fn address_and_status_helpers() {
    let a = addr("GABC");
    assert_eq!(a.as_str(), "GABC");
    assert!(a.same(&addr("GABC")));
    assert!(!a.same(&addr("GABD")));
    assert!(!ApplicationStatus::Pending.is_decided());
    assert!(ApplicationStatus::Approved.is_decided());
    assert!(ApplicationStatus::Rejected.is_decided());
}
