use vstd::prelude::*;
use crate::escrow::{received, sent};
use crate::state::{for_pair, ContractState};
use crate::types::{Address, ApplicationStatus, BalanceChange, Error};

verus! {

/// Posting succeeds exactly when the grant is positive, at least one grant is
/// offered, the total fits, and custody grew by exactly
/// `grant_amount * number_of_grants`; the new scholarship then has all its
/// grants available. A non-positive grant or zero grants is refused with
/// `InvalidAmount` and changes nothing.
pub proof fn lemma_post_escrows_exact_total(
    st: ContractState,
    caller: Address,
    name: String,
    details: String,
    grant_amount: i128,
    number_of_grants: u64,
    end_date: u64,
    custody: BalanceChange,
)
    requires
        st.wf(),
        st.scholarships.len() < u64::MAX,
    ensures
        ({
            let (next, r) = st.post(
                caller,
                name,
                details,
                grant_amount,
                number_of_grants,
                end_date,
                custody,
            );
            &&& r is Ok <==> {
                &&& grant_amount > 0
                &&& number_of_grants > 0
                &&& grant_amount * number_of_grants <= i128::MAX
                &&& received(custody, grant_amount * number_of_grants)
            }
            &&& r is Ok ==> {
                &&& next.scholarships.len() == st.scholarships.len() + 1
                &&& next.exists_scholarship(r->Ok_0)
                &&& next.scholarship(r->Ok_0).grants_remaining == number_of_grants
                &&& next.scholarship(r->Ok_0).grant_amount == grant_amount
                &&& next.applications == st.applications
            }
            &&& (grant_amount <= 0 || number_of_grants == 0) ==> r == Err::<u64, Error>(
                Error::InvalidAmount,
            ) && next == st
            &&& r is Err ==> next == st
        }),
{
    if grant_amount > 0 && number_of_grants > 0 {
        assert(grant_amount * number_of_grants > 0) by (nonlinear_arith)
            requires
                grant_amount > 0,
                number_of_grants > 0,
        ;
    }
}

/// Once an application of `caller` to `sid` has been accepted, a second one by
/// the same applicant before the end date is refused with `AlreadyApplied`,
/// and the applications stay as they were.
pub proof fn lemma_second_apply_refused(
    st: ContractState,
    caller: Address,
    again: Address,
    sid: u64,
    name: String,
    details: String,
    now: u64,
    name2: String,
    details2: String,
    now2: u64,
)
    requires
        st.wf(),
        st.apply(caller, sid, name, details, now).1 is Ok,
        again@ == caller@,
        now2 <= st.scholarship(sid).end_date,
    ensures
        ({
            let first = st.apply(caller, sid, name, details, now).0;
            &&& first.applications.len() == st.applications.len() + 1
            &&& first.apply(again, sid, name2, details2, now2) == (
                first,
                Err::<(), Error>(Error::AlreadyApplied),
            )
        }),
{
    let first = st.apply(caller, sid, name, details, now).0;
    let j = st.applications.len() as int;
    assert(for_pair(first.applications[j], sid, again));
}

/// Applying to an existing scholarship after its end date is refused with
/// `ScholarshipExpired`, and no application is created.
pub proof fn lemma_apply_after_end_date_refused(
    st: ContractState,
    caller: Address,
    sid: u64,
    name: String,
    details: String,
    now: u64,
)
    requires
        st.exists_scholarship(sid),
        now > st.scholarship(sid).end_date,
    ensures
        st.apply(caller, sid, name, details, now) == (st, Err::<(), Error>(Error::ScholarshipExpired)),
{
}

/// Only the creator may approve: anyone else is refused with `Unauthorized`
/// before any payment is asked for, whatever balances are reported, and
/// nothing changes.
pub proof fn lemma_approve_needs_creator(
    st: ContractState,
    sid: u64,
    applicant: Address,
    caller: Address,
    custody: BalanceChange,
    recipient: BalanceChange,
)
    requires
        st.exists_scholarship(sid),
        caller@ != st.scholarship(sid).creator@,
    ensures
        st.approval_check(sid, applicant, caller) == Err::<i128, Error>(Error::Unauthorized),
        st.approve(sid, applicant, caller, custody, recipient) == (
            st,
            Err::<(), Error>(Error::Unauthorized),
        ),
{
}

/// A decided application is never approved again: the creator's approval
/// of an Approved or Rejected application is refused as already processed
/// (`ApplicationNotFound`) before any payment is asked for, and nothing
/// changes.
pub proof fn lemma_decided_application_not_paid_again(
    st: ContractState,
    sid: u64,
    applicant: Address,
    caller: Address,
    custody: BalanceChange,
    recipient: BalanceChange,
    j: int,
)
    requires
        st.wf(),
        st.exists_scholarship(sid),
        caller@ == st.scholarship(sid).creator@,
        0 <= j < st.applications.len(),
        for_pair(st.applications[j], sid, applicant),
        st.applications[j].status != ApplicationStatus::Pending,
    ensures
        st.approval_check(sid, applicant, caller) == Err::<i128, Error>(Error::ApplicationNotFound),
        st.approve(sid, applicant, caller, custody, recipient) == (
            st,
            Err::<(), Error>(Error::ApplicationNotFound),
        ),
        st.reject(sid, applicant, caller) == (st, Err::<(), Error>(Error::ApplicationNotFound)),
{
    assert forall|k: int|
        0 <= k < st.applications.len() && #[trigger] for_pair(
            st.applications[k],
            sid,
            applicant,
        ) implies st.applications[k].status != ApplicationStatus::Pending by {
        st.lemma_pair_unique(j, k, sid, applicant);
    }
}

/// An approval either happens whole or not at all. When it succeeds the
/// application is Approved, one grant fewer remains, custody shrank and the
/// applicant's balance grew by exactly the grant. When the reported balances
/// show any other movement the approval is refused with `InsufficientFunds`;
/// on any refusal nothing changes.
pub proof fn lemma_approval_all_or_nothing(
    st: ContractState,
    sid: u64,
    applicant: Address,
    caller: Address,
    custody: BalanceChange,
    recipient: BalanceChange,
)
    requires
        st.wf(),
    ensures
        ({
            let (next, r) = st.approve(sid, applicant, caller, custody, recipient);
            &&& r is Ok ==> {
                let amount = st.scholarship(sid).grant_amount;
                &&& st.approval_check(sid, applicant, caller) == Ok::<i128, Error>(amount)
                &&& sent(custody, amount as int)
                &&& received(recipient, amount as int)
                &&& next.scholarship(sid).grants_remaining == st.scholarship(sid).grants_remaining
                    - 1
                &&& next.scholarships.len() == st.scholarships.len()
                &&& next.applications.len() == st.applications.len()
                &&& forall|k: int|
                    0 <= k < next.applications.len() ==> (#[trigger] for_pair(
                        next.applications[k],
                        sid,
                        applicant,
                    ) <==> for_pair(st.applications[k], sid, applicant))
                &&& forall|k: int|
                    0 <= k < next.applications.len() && #[trigger] for_pair(
                        next.applications[k],
                        sid,
                        applicant,
                    ) ==> next.applications[k].status == ApplicationStatus::Approved
                &&& st.has_pending(sid, applicant)
            }
            &&& (st.approval_check(sid, applicant, caller) is Ok && !(sent(
                custody,
                st.scholarship(sid).grant_amount as int,
            ) && received(recipient, st.scholarship(sid).grant_amount as int))) ==> r == Err::<
                (),
                Error,
            >(Error::InsufficientFunds)
            &&& r is Err ==> next == st
        }),
{
}

} // verus!
