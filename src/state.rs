use vstd::prelude::*;
use crate::escrow::{funding_total, received, sent};
use crate::types::{Address, Application, ApplicationStatus, BalanceChange, Error, Scholarship};

verus! {

/// The application is `who`'s application to scholarship `sid`.
pub open spec fn for_pair(a: Application, sid: u64, who: Address) -> bool {
    a.scholarship_id == sid && a.applicant@ == who@
}

/// The number of approved applications to scholarship `sid`.
pub open spec fn approved_count(apps: Seq<Application>, sid: u64) -> nat
    decreases apps.len(),
{
    if apps.len() == 0 {
        0
    } else {
        approved_count(apps.drop_last(), sid) + approval_mark(apps.last(), sid)
    }
}

/// One for an approved application to `sid`, zero otherwise.
pub open spec fn approval_mark(a: Application, sid: u64) -> nat {
    if a.scholarship_id == sid && a.status == ApplicationStatus::Approved {
        1
    } else {
        0
    }
}

/// Selects the scholarships that `who` created.
pub open spec fn created_by(who: Address) -> spec_fn(Scholarship) -> bool {
    |s: Scholarship| s.creator@ == who@
}

/// Selects the applications that `who` submitted.
pub open spec fn submitted_by(who: Address) -> spec_fn(Application) -> bool {
    |a: Application| a.applicant@ == who@
}

/// Selects the applications to scholarship `sid`.
pub open spec fn addressed_to(sid: u64) -> spec_fn(Application) -> bool {
    |a: Application| a.scholarship_id == sid
}


/// Appending an application adds its own mark to the count.
pub proof fn lemma_count_push(apps: Seq<Application>, a: Application, sid: u64)
    ensures
        approved_count(apps.push(a), sid) == approved_count(apps, sid) + approval_mark(a, sid),
{
    assert(apps.push(a).drop_last() =~= apps);
}

/// Replacing one application exchanges its mark in the count.
pub proof fn lemma_count_update(apps: Seq<Application>, j: int, a: Application, sid: u64)
    requires
        0 <= j < apps.len(),
    ensures
        approved_count(apps.update(j, a), sid) + approval_mark(apps[j], sid)
            == approved_count(apps, sid) + approval_mark(a, sid),
    decreases apps.len(),
{
    let u = apps.update(j, a);
    if j == apps.len() - 1 {
        assert(u.drop_last() =~= apps.drop_last());
    } else {
        lemma_count_update(apps.drop_last(), j, a, sid);
        assert(u.drop_last() =~= apps.drop_last().update(j, a));
    }
}

/// The count never exceeds the number of applications.
pub proof fn lemma_count_bounded(apps: Seq<Application>, sid: u64)
    ensures
        approved_count(apps, sid) <= apps.len(),
    decreases apps.len(),
{
    if apps.len() > 0 {
        lemma_count_bounded(apps.drop_last(), sid);
    }
}

/// No application to `sid` means no approval for it.
pub proof fn lemma_count_absent(apps: Seq<Application>, sid: u64)
    requires
        forall|j: int| 0 <= j < apps.len() ==> #[trigger] apps[j].scholarship_id != sid,
    ensures
        approved_count(apps, sid) == 0,
    decreases apps.len(),
{
    if apps.len() > 0 {
        assert(apps.last().scholarship_id != sid);
        assert forall|j: int| 0 <= j < apps.drop_last().len() implies #[trigger] apps.drop_last()[j].scholarship_id != sid by {
            assert(apps.drop_last()[j] == apps[j]);
        }
        lemma_count_absent(apps.drop_last(), sid);
    }
}


/// The contents of the store: scholarships in order of posting (the one with
/// id `k` at position `k - 1`) and applications in order of submission.
pub struct ContractState {
    pub scholarships: Seq<Scholarship>,
    pub applications: Seq<Application>,
}

impl ContractState {
    pub open spec fn empty() -> ContractState {
        ContractState { scholarships: Seq::empty(), applications: Seq::empty() }
    }

    /// A posted scholarship: its terms are positive, and every grant is either
    /// still available or paid to an approved applicant.
    pub open spec fn sound_scholarship(self, s: Scholarship) -> bool {
        &&& s.grant_amount > 0
        &&& s.number_of_grants > 0
        &&& s.grants_remaining <= s.number_of_grants
        &&& s.number_of_grants - s.grants_remaining == approved_count(self.applications, s.id)
    }

    /// Ids run 1, 2, ... in order; each scholarship is sound; each
    /// application names a posted scholarship; and no applicant has two
    /// applications to one scholarship.
    pub open spec fn wf(self) -> bool {
        &&& forall|i: int|
            0 <= i < self.scholarships.len() ==> #[trigger] self.scholarships[i].id == i + 1
        &&& forall|i: int|
            0 <= i < self.scholarships.len() ==> self.sound_scholarship(#[trigger] self.scholarships[i])
        &&& forall|j: int|
            0 <= j < self.applications.len() ==> 1 <= #[trigger] self.applications[j].scholarship_id
                <= self.scholarships.len()
        &&& forall|j: int, k: int|
            0 <= j < k < self.applications.len() ==> !for_pair(
                #[trigger] self.applications[j],
                self.applications[k].scholarship_id,
                #[trigger] self.applications[k].applicant,
            )
    }

    pub open spec fn exists_scholarship(self, id: u64) -> bool {
        1 <= id <= self.scholarships.len()
    }

    pub open spec fn scholarship(self, id: u64) -> Scholarship {
        self.scholarships[id - 1]
    }

    /// `who` has an application to `sid`, whatever its status.
    pub open spec fn has_applied(self, sid: u64, who: Address) -> bool {
        exists|j: int| 0 <= j < self.applications.len() && #[trigger] for_pair(self.applications[j], sid, who)
    }

    /// `who` has an undecided application to `sid`.
    pub open spec fn has_pending(self, sid: u64, who: Address) -> bool {
        exists|j: int|
            0 <= j < self.applications.len() && #[trigger] for_pair(self.applications[j], sid, who)
                && self.applications[j].status == ApplicationStatus::Pending
    }

    /// Posting a scholarship, after the creator paid `custody` into escrow.
    pub open spec fn post(
        self,
        caller: Address,
        name: String,
        details: String,
        grant_amount: i128,
        number_of_grants: u64,
        end_date: u64,
        custody: BalanceChange,
    ) -> (ContractState, Result<u64, Error>) {
        match funding_total(grant_amount, number_of_grants) {
            Err(e) => (self, Err(e)),
            Ok(total) => if !received(custody, total as int) {
                (self, Err(Error::InsufficientFunds))
            } else {
                let id = (self.scholarships.len() + 1) as u64;
                let s = Scholarship {
                    id,
                    name,
                    details,
                    grant_amount,
                    number_of_grants,
                    grants_remaining: number_of_grants,
                    end_date,
                    creator: caller,
                };
                (
                    ContractState {
                        scholarships: self.scholarships.push(s),
                        applications: self.applications,
                    },
                    Ok(id),
                )
            },
        }
    }

    /// Applying to scholarship `sid` at ledger time `now`.
    pub open spec fn apply(
        self,
        caller: Address,
        sid: u64,
        name: String,
        details: String,
        now: u64,
    ) -> (ContractState, Result<(), Error>) {
        if !self.exists_scholarship(sid) {
            (self, Err(Error::ScholarshipNotFound))
        } else if now > self.scholarship(sid).end_date {
            (self, Err(Error::ScholarshipExpired))
        } else if self.has_applied(sid, caller) {
            (self, Err(Error::AlreadyApplied))
        } else {
            let a = Application {
                scholarship_id: sid,
                applicant: caller,
                name,
                details,
                status: ApplicationStatus::Pending,
            };
            (
                ContractState {
                    scholarships: self.scholarships,
                    applications: self.applications.push(a),
                },
                Ok(()),
            )
        }
    }

    /// Whether `caller` may decide on `applicant`'s application to `sid` now.
    pub open spec fn decision_check(self, sid: u64, applicant: Address, caller: Address) -> Result<
        (),
        Error,
    > {
        if !self.exists_scholarship(sid) {
            Err(Error::ScholarshipNotFound)
        } else if self.scholarship(sid).creator@ != caller@ {
            Err(Error::Unauthorized)
        } else if !self.has_pending(sid, applicant) {
            Err(Error::ApplicationNotFound)
        } else {
            Ok(())
        }
    }

    /// Whether an approval may go ahead, and if so the grant to pay out.
    pub open spec fn approval_check(self, sid: u64, applicant: Address, caller: Address) -> Result<
        i128,
        Error,
    > {
        match self.decision_check(sid, applicant, caller) {
            Err(e) => Err(e),
            Ok(_) => if self.scholarship(sid).grants_remaining == 0 {
                Err(Error::InsufficientFunds)
            } else {
                Ok(self.scholarship(sid).grant_amount)
            },
        }
    }

    /// The applications with `applicant`'s application to `sid` set to `status`.
    pub open spec fn decide(self, sid: u64, applicant: Address, status: ApplicationStatus) -> Seq<
        Application,
    > {
        self.applications.map_values(
            |a: Application|
                if for_pair(a, sid, applicant) {
                    Application { status, ..a }
                } else {
                    a
                },
        )
    }

    /// Approving an application, after the grant was paid from custody
    /// (`custody`) to the applicant (`recipient`).
    pub open spec fn approve(
        self,
        sid: u64,
        applicant: Address,
        caller: Address,
        custody: BalanceChange,
        recipient: BalanceChange,
    ) -> (ContractState, Result<(), Error>) {
        match self.approval_check(sid, applicant, caller) {
            Err(e) => (self, Err(e)),
            Ok(amount) => if !(sent(custody, amount as int) && received(recipient, amount as int)) {
                (self, Err(Error::InsufficientFunds))
            } else {
                let s = self.scholarship(sid);
                let t = Scholarship { grants_remaining: (s.grants_remaining - 1) as u64, ..s };
                (
                    ContractState {
                        scholarships: self.scholarships.update(sid - 1, t),
                        applications: self.decide(sid, applicant, ApplicationStatus::Approved),
                    },
                    Ok(()),
                )
            },
        }
    }

    /// Rejecting an application; no funds move.
    pub open spec fn reject(self, sid: u64, applicant: Address, caller: Address) -> (
        ContractState,
        Result<(), Error>,
    ) {
        match self.decision_check(sid, applicant, caller) {
            Err(e) => (self, Err(e)),
            Ok(_) => (
                ContractState {
                    scholarships: self.scholarships,
                    applications: self.decide(sid, applicant, ApplicationStatus::Rejected),
                },
                Ok(()),
            ),
        }
    }
    /// At most one application per applicant and scholarship.
    pub proof fn lemma_pair_unique(self, j: int, k: int, sid: u64, who: Address)
        requires
            self.wf(),
            0 <= j < self.applications.len(),
            0 <= k < self.applications.len(),
            for_pair(self.applications[j], sid, who),
            for_pair(self.applications[k], sid, who),
        ensures
            j == k,
    {
        if j < k {
            assert(!for_pair(
                self.applications[j],
                self.applications[k].scholarship_id,
                self.applications[k].applicant,
            ));
        } else if k < j {
            assert(!for_pair(
                self.applications[k],
                self.applications[j].scholarship_id,
                self.applications[j].applicant,
            ));
        }
    }

    /// Deciding touches the one application of the pair, found at `j`.
    pub proof fn lemma_decide_one(self, j: int, sid: u64, who: Address, status: ApplicationStatus)
        requires
            self.wf(),
            0 <= j < self.applications.len(),
            for_pair(self.applications[j], sid, who),
        ensures
            self.decide(sid, who, status) == self.applications.update(
                j,
                Application { status, ..self.applications[j] },
            ),
    {
        let d = self.decide(sid, who, status);
        let u = self.applications.update(j, Application { status, ..self.applications[j] });
        assert forall|k: int| 0 <= k < d.len() implies d[k] == u[k] by {
            if k != j && for_pair(self.applications[k], sid, who) {
                self.lemma_pair_unique(j, k, sid, who);
            }
        }
        assert(d =~= u);
    }
}

} // verus!
