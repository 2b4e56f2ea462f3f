use vstd::prelude::*;
use crate::escrow::{check_received, check_sent, funding_required};
use crate::state::{
    addressed_to, approved_count, created_by, for_pair, lemma_count_absent, lemma_count_bounded,
    lemma_count_push, lemma_count_update, submitted_by, ContractState,
};
use crate::types::{Address, Application, ApplicationStatus, BalanceChange, Error, Scholarship};

verus! {

/// The contract's store: every scholarship and every application, owned by
/// one value and changed only through the operations below. An operation that
/// returns `Err` leaves the store as it was.
pub struct DescholarContract {
    scholarships: Vec<Scholarship>,
    applications: Vec<Application>,
}

impl View for DescholarContract {
    type V = ContractState;

    closed spec fn view(&self) -> ContractState {
        ContractState { scholarships: self.scholarships@, applications: self.applications@ }
    }
}

impl DescholarContract {
    /// The store's invariant; see `ContractState::wf`.
    pub open spec fn wf(&self) -> bool {
        self@.wf()
    }

    /// An empty store.
    pub fn new() -> (r: DescholarContract)
        ensures
            r.wf(),
            r@ == ContractState::empty(),
    {
        let r = DescholarContract { scholarships: Vec::new(), applications: Vec::new() };
        assert(r@ =~= ContractState::empty());
        r
    }

    /// The number of scholarships posted so far.
    pub fn scholarship_count(&self) -> (r: usize)
        ensures
            r == self@.scholarships.len(),
    {
        self.scholarships.len()
    }

    /// The position of `who`'s application to `sid`, whatever its status.
    fn find_application(&self, sid: u64, who: &Address) -> (r: Option<usize>)
        ensures
            match r {
                Some(j) => j < self@.applications.len() && for_pair(self@.applications[j as int], sid, *who),
                None => !self@.has_applied(sid, *who),
            },
    {
        let mut j: usize = 0;
        while j < self.applications.len()
            invariant
                j <= self.applications@.len(),
                forall|k: int| 0 <= k < j ==> !#[trigger] for_pair(self.applications@[k], sid, *who),
            decreases self.applications@.len() - j,
        {
            let a = &self.applications[j];
            if a.scholarship_id == sid && a.applicant.same(who) {
                return Some(j);
            }
            j += 1;
        }
        None
    }

    /// Posts a scholarship whose escrow the creator `caller` has already paid;
    /// `custody` is the contract's balance around that payment. On success
    /// the new scholarship gets the next id, starting at 1, with all its
    /// grants available.
    pub fn post_scholarship(
        &mut self,
        caller: Address,
        name: String,
        details: String,
        grant_amount: i128,
        number_of_grants: u64,
        end_date: u64,
        custody: BalanceChange,
    ) -> (r: Result<u64, Error>)
        requires
            old(self).wf(),
            old(self)@.scholarships.len() < u64::MAX,
        ensures
            final(self).wf(),
            (final(self)@, r) == old(self)@.post(
                caller,
                name,
                details,
                grant_amount,
                number_of_grants,
                end_date,
                custody,
            ),
    {
        let total = match funding_required(grant_amount, number_of_grants) {
            Ok(t) => t,
            Err(e) => return Err(e),
        };
        match check_received(custody, total) {
            Ok(()) => {},
            Err(e) => return Err(e),
        }
        let id = self.scholarships.len() as u64 + 1;
        let s = Scholarship {
            id,
            name,
            details,
            grant_amount,
            number_of_grants,
            grants_remaining: number_of_grants,
            end_date,
            creator: caller,
        };
        proof {
            lemma_count_absent(self.applications@, id);
        }
        self.scholarships.push(s);
        Ok(id)
    }

    /// `caller` applies to scholarship `scholarship_id` at ledger time `now`.
    pub fn apply(
        &mut self,
        caller: Address,
        scholarship_id: u64,
        name: String,
        details: String,
        now: u64,
    ) -> (r: Result<(), Error>)
        requires
            old(self).wf(),
        ensures
            final(self).wf(),
            (final(self)@, r) == old(self)@.apply(caller, scholarship_id, name, details, now),
    {
        if scholarship_id == 0 || scholarship_id > self.scholarships.len() as u64 {
            return Err(Error::ScholarshipNotFound);
        }
        let idx = (scholarship_id - 1) as usize;
        if now > self.scholarships[idx].end_date {
            return Err(Error::ScholarshipExpired);
        }
        if self.find_application(scholarship_id, &caller).is_some() {
            return Err(Error::AlreadyApplied);
        }
        let a = Application {
            scholarship_id,
            applicant: caller,
            name,
            details,
            status: ApplicationStatus::Pending,
        };
        let ghost old_apps = self.applications@;
        proof {
            assert forall|i: int| 0 <= i < self.scholarships@.len() implies #[trigger] approved_count(
                old_apps.push(a),
                self.scholarships@[i].id,
            ) == approved_count(old_apps, self.scholarships@[i].id) by {
                lemma_count_push(old_apps, a, self.scholarships@[i].id);
            }
        }
        self.applications.push(a);
        Ok(())
    }
    /// Finds scholarship `sid` and `applicant`'s pending application to it,
    /// after checking that `caller` created that scholarship.
    fn check_decision(&self, sid: u64, applicant: &Address, caller: &Address) -> (r: Result<
        (usize, usize),
        Error,
    >)
        requires
            self.wf(),
        ensures
            match r {
                Ok((idx, j)) => {
                    &&& self@.decision_check(sid, *applicant, *caller) is Ok
                    &&& idx + 1 == sid
                    &&& idx < self@.scholarships.len()
                    &&& j < self@.applications.len()
                    &&& for_pair(self@.applications[j as int], sid, *applicant)
                    &&& self@.applications[j as int].status == ApplicationStatus::Pending
                },
                Err(e) => self@.decision_check(sid, *applicant, *caller) == Err::<(), Error>(e),
            },
    {
        if sid == 0 || sid > self.scholarships.len() as u64 {
            return Err(Error::ScholarshipNotFound);
        }
        let idx = (sid - 1) as usize;
        if !self.scholarships[idx].creator.same(caller) {
            return Err(Error::Unauthorized);
        }
        match self.find_application(sid, applicant) {
            None => Err(Error::ApplicationNotFound),
            Some(j) => {
                if self.applications[j].status.is_decided() {
                    proof {
                        assert forall|k: int|
                            0 <= k < self@.applications.len() && #[trigger] for_pair(
                                self@.applications[k],
                                sid,
                                *applicant,
                            ) implies self@.applications[k].status != ApplicationStatus::Pending by {
                            self@.lemma_pair_unique(j as int, k, sid, *applicant);
                        }
                    }
                    Err(Error::ApplicationNotFound)
                } else {
                    Ok((idx, j))
                }
            },
        }
    }

    /// The grant that approving `applicant`'s application to `scholarship_id`
    /// would pay, or why `caller` may not approve it now. Nothing changes.
    pub fn check_approval(&self, scholarship_id: u64, applicant: &Address, caller: &Address) -> (r:
        Result<i128, Error>)
        requires
            self.wf(),
        ensures
            r == self@.approval_check(scholarship_id, *applicant, *caller),
    {
        match self.check_decision(scholarship_id, applicant, caller) {
            Err(e) => Err(e),
            Ok((idx, _)) => {
                let s = &self.scholarships[idx];
                if s.grants_remaining == 0 {
                    Err(Error::InsufficientFunds)
                } else {
                    Ok(s.grant_amount)
                }
            },
        }
    }

    /// `caller` approves `applicant`'s application to `scholarship_id`, after
    /// the grant was paid out of custody: `custody` is the contract's balance
    /// and `recipient` the applicant's, each around that payment. On success the
    /// application is Approved and one grant fewer remains; otherwise nothing
    /// changes.
    pub fn approve_applicant(
        &mut self,
        scholarship_id: u64,
        applicant: &Address,
        caller: &Address,
        custody: BalanceChange,
        recipient: BalanceChange,
    ) -> (r: Result<(), Error>)
        requires
            old(self).wf(),
        ensures
            final(self).wf(),
            (final(self)@, r) == old(self)@.approve(
                scholarship_id,
                *applicant,
                *caller,
                custody,
                recipient,
            ),
    {
        let (idx, j) = match self.check_decision(scholarship_id, applicant, caller) {
            Ok(found) => found,
            Err(e) => return Err(e),
        };
        if self.scholarships[idx].grants_remaining == 0 {
            return Err(Error::InsufficientFunds);
        }
        let amount = self.scholarships[idx].grant_amount;
        match check_sent(custody, amount) {
            Ok(()) => {},
            Err(e) => return Err(e),
        }
        match check_received(recipient, amount) {
            Ok(()) => {},
            Err(e) => return Err(e),
        }
        let ghost pre = self@;
        let ghost decided = Application {
            status: ApplicationStatus::Approved,
            ..pre.applications[j as int]
        };
        proof {
            pre.lemma_decide_one(j as int, scholarship_id, *applicant, ApplicationStatus::Approved);
            assert forall|i: int| 0 <= i < pre.scholarships.len() implies #[trigger] approved_count(
                pre.applications.update(j as int, decided),
                pre.scholarships[i].id,
            ) == approved_count(pre.applications, pre.scholarships[i].id) + (if i == idx {
                1nat
            } else {
                0nat
            }) by {
                assert(pre.scholarships[i].id == i + 1);
                lemma_count_update(pre.applications, j as int, decided, pre.scholarships[i].id);
            }
        }
        self.applications[j].status = ApplicationStatus::Approved;
        self.scholarships[idx].grants_remaining = self.scholarships[idx].grants_remaining - 1;
        proof {
            assert(self@.applications =~= pre.applications.update(j as int, decided));
            assert(self@.scholarships =~= pre.scholarships.update(
                idx as int,
                Scholarship {
                    grants_remaining: (pre.scholarships[idx as int].grants_remaining - 1) as u64,
                    ..pre.scholarships[idx as int]
                },
            ));
        }
        Ok(())
    }

    /// `caller` rejects `applicant`'s application to `scholarship_id`. No
    /// funds move.
    pub fn reject_applicant(&mut self, scholarship_id: u64, applicant: &Address, caller: &Address) -> (r:
        Result<(), Error>)
        requires
            old(self).wf(),
        ensures
            final(self).wf(),
            (final(self)@, r) == old(self)@.reject(scholarship_id, *applicant, *caller),
    {
        let j = match self.check_decision(scholarship_id, applicant, caller) {
            Ok((_, j)) => j,
            Err(e) => return Err(e),
        };
        let ghost pre = self@;
        let ghost decided = Application {
            status: ApplicationStatus::Rejected,
            ..pre.applications[j as int]
        };
        proof {
            pre.lemma_decide_one(j as int, scholarship_id, *applicant, ApplicationStatus::Rejected);
            assert forall|i: int| 0 <= i < pre.scholarships.len() implies #[trigger] approved_count(
                pre.applications.update(j as int, decided),
                pre.scholarships[i].id,
            ) == approved_count(pre.applications, pre.scholarships[i].id) by {
                lemma_count_update(pre.applications, j as int, decided, pre.scholarships[i].id);
            }
        }
        self.applications[j].status = ApplicationStatus::Rejected;
        proof {
            assert(self@.applications =~= pre.applications.update(j as int, decided));
        }
        Ok(())
    }
    /// Counts the approved applications to scholarship `sid`.
    fn count_approved(apps: &Vec<Application>, sid: u64) -> (r: u64)
        ensures
            r == approved_count(apps@, sid),
    {
        let mut count: u64 = 0;
        let mut j: usize = 0;
        while j < apps.len()
            invariant
                j <= apps@.len(),
                count == approved_count(apps@.take(j as int), sid),
                count <= j,
            decreases apps@.len() - j,
        {
            proof {
                assert(apps@.take(j + 1).drop_last() =~= apps@.take(j as int));
                lemma_count_bounded(apps@.take(j as int), sid);
            }
            if apps[j].scholarship_id == sid && apps[j].status == ApplicationStatus::Approved {
                count = count + 1;
            }
            j += 1;
        }
        assert(apps@.take(j as int) =~= apps@);
        count
    }

    /// Rebuilds a store from records read back from storage. `None` when the
    /// records break the store's invariant: ids not numbered from 1 in order,
    /// a grant or grant count that is not positive, grants remaining that do
    /// not account for the approvals, an application to an unknown
    /// scholarship, or two applications by one applicant to one scholarship.
    pub fn restore(scholarships: Vec<Scholarship>, applications: Vec<Application>) -> (r: Option<
        DescholarContract,
    >)
        ensures
            r is Some <==> (ContractState { scholarships: scholarships@, applications: applications@ }).wf(),
            r is Some ==> r->0@ == (ContractState {
                scholarships: scholarships@,
                applications: applications@,
            }),
    {
        let ghost st = ContractState { scholarships: scholarships@, applications: applications@ };
        let mut i: usize = 0;
        while i < scholarships.len()
            invariant
                st == (ContractState { scholarships: scholarships@, applications: applications@ }),
                i <= scholarships@.len(),
                forall|k: int| 0 <= k < i ==> #[trigger] scholarships@[k].id == k + 1,
                forall|k: int| 0 <= k < i ==> st.sound_scholarship(#[trigger] scholarships@[k]),
            decreases scholarships@.len() - i,
        {
            let s = &scholarships[i];
            if s.id != i as u64 + 1 || s.grant_amount <= 0 || s.number_of_grants == 0
                || s.grants_remaining > s.number_of_grants {
                assert(!st.wf()) by {
                    assert(!st.sound_scholarship(st.scholarships[i as int])
                        || st.scholarships[i as int].id != i + 1);
                }
                return None;
            }
            let approved = Self::count_approved(&applications, s.id);
            if s.number_of_grants - s.grants_remaining != approved {
                assert(!st.wf()) by {
                    assert(!st.sound_scholarship(st.scholarships[i as int]));
                }
                return None;
            }
            i += 1;
        }
        let mut k: usize = 0;
        while k < applications.len()
            invariant
                st == (ContractState { scholarships: scholarships@, applications: applications@ }),
                k <= applications@.len(),
                forall|j: int|
                    0 <= j < k ==> 1 <= #[trigger] applications@[j].scholarship_id
                        <= scholarships@.len(),
                forall|j: int, m: int|
                    0 <= j < m < k ==> !for_pair(
                        #[trigger] applications@[j],
                        applications@[m].scholarship_id,
                        #[trigger] applications@[m].applicant,
                    ),
            decreases applications@.len() - k,
        {
            let a = &applications[k];
            if a.scholarship_id == 0 || a.scholarship_id > scholarships.len() as u64 {
                assert(!st.wf()) by {
                    assert(!(1 <= st.applications[k as int].scholarship_id <= st.scholarships.len()));
                }
                return None;
            }
            let mut j: usize = 0;
            while j < k
                invariant
                    st == (ContractState { scholarships: scholarships@, applications: applications@ }),
                    k < applications@.len(),
                    j <= k,
                    forall|m: int|
                        0 <= m < j ==> !for_pair(
                            #[trigger] applications@[m],
                            applications@[k as int].scholarship_id,
                            applications@[k as int].applicant,
                        ),
                decreases k - j,
            {
                let b = &applications[j];
                let same_pair = b.scholarship_id == applications[k].scholarship_id
                    && b.applicant.same(&applications[k].applicant);
                if same_pair {
                    assert(!st.wf()) by {
                        assert(for_pair(
                            st.applications[j as int],
                            st.applications[k as int].scholarship_id,
                            st.applications[k as int].applicant,
                        ));
                    }
                    return None;
                }
                j += 1;
            }
            k += 1;
        }
        let r = DescholarContract { scholarships, applications };
        assert(r@ =~= st);
        Some(r)
    }

    /// Every scholarship, in order of posting.
    pub fn get_scholarships(&self) -> (r: Vec<Scholarship>)
        ensures
            r@ == self@.scholarships,
    {
        let mut out: Vec<Scholarship> = Vec::new();
        let mut i: usize = 0;
        while i < self.scholarships.len()
            invariant
                i <= self.scholarships@.len(),
                out@ == self.scholarships@.take(i as int),
            decreases self.scholarships@.len() - i,
        {
            out.push(self.scholarships[i].clone());
            proof {
                assert(self.scholarships@.take(i + 1) =~= self.scholarships@.take(i as int).push(
                    self.scholarships@[i as int],
                ));
            }
            i += 1;
        }
        assert(self.scholarships@.take(i as int) =~= self.scholarships@);
        out
    }

    /// The scholarships that `address` created, in order of posting.
    pub fn get_my_scholarships(&self, address: &Address) -> (r: Vec<Scholarship>)
        ensures
            r@ == self@.scholarships.filter(created_by(*address)),
    {
        let ghost all = self.scholarships@;
        let mut out: Vec<Scholarship> = Vec::new();
        let mut i: usize = 0;
        while i < self.scholarships.len()
            invariant
                all == self.scholarships@,
                i <= all.len(),
                out@ == all.take(i as int).filter(created_by(*address)),
            decreases all.len() - i,
        {
            proof {
                assert(all.take(i + 1) =~= all.take(i as int).push(all[i as int]));
                all.take(i as int).lemma_filter_push(all[i as int], created_by(*address));
            }
            if self.scholarships[i].creator.same(address) {
                out.push(self.scholarships[i].clone());
            }
            i += 1;
        }
        assert(all.take(i as int) =~= all);
        out
    }

    /// Every application, in order of submission.
    pub fn get_applications(&self) -> (r: Vec<Application>)
        ensures
            r@ == self@.applications,
    {
        let mut out: Vec<Application> = Vec::new();
        let mut i: usize = 0;
        while i < self.applications.len()
            invariant
                i <= self.applications@.len(),
                out@ == self.applications@.take(i as int),
            decreases self.applications@.len() - i,
        {
            out.push(self.applications[i].clone());
            proof {
                assert(self.applications@.take(i + 1) =~= self.applications@.take(i as int).push(
                    self.applications@[i as int],
                ));
            }
            i += 1;
        }
        assert(self.applications@.take(i as int) =~= self.applications@);
        out
    }

    /// The applications that `address` submitted, in order of submission.
    pub fn get_my_applications(&self, address: &Address) -> (r: Vec<Application>)
        ensures
            r@ == self@.applications.filter(submitted_by(*address)),
    {
        let ghost all = self.applications@;
        let mut out: Vec<Application> = Vec::new();
        let mut i: usize = 0;
        while i < self.applications.len()
            invariant
                all == self.applications@,
                i <= all.len(),
                out@ == all.take(i as int).filter(submitted_by(*address)),
            decreases all.len() - i,
        {
            proof {
                assert(all.take(i + 1) =~= all.take(i as int).push(all[i as int]));
                all.take(i as int).lemma_filter_push(all[i as int], submitted_by(*address));
            }
            if self.applications[i].applicant.same(address) {
                out.push(self.applications[i].clone());
            }
            i += 1;
        }
        assert(all.take(i as int) =~= all);
        out
    }

    /// The applications to scholarship `scholarship_id`, in order of submission.
    pub fn get_applications_frm_schlrship(&self, scholarship_id: u64) -> (r: Vec<Application>)
        ensures
            r@ == self@.applications.filter(addressed_to(scholarship_id)),
    {
        let ghost all = self.applications@;
        let mut out: Vec<Application> = Vec::new();
        let mut i: usize = 0;
        while i < self.applications.len()
            invariant
                all == self.applications@,
                i <= all.len(),
                out@ == all.take(i as int).filter(addressed_to(scholarship_id)),
            decreases all.len() - i,
        {
            proof {
                assert(all.take(i + 1) =~= all.take(i as int).push(all[i as int]));
                all.take(i as int).lemma_filter_push(all[i as int], addressed_to(scholarship_id));
            }
            if self.applications[i].scholarship_id == scholarship_id {
                out.push(self.applications[i].clone());
            }
            i += 1;
        }
        assert(all.take(i as int) =~= all);
        out
    }
}

} // verus!
