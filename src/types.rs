use vstd::prelude::*;

verus! {

/// An account or contract identity, held as its textual key.
#[derive(Debug)]
pub struct Address {
    key: String,
}

impl View for Address {
    type V = Seq<char>;

    closed spec fn view(&self) -> Seq<char> {
        self.key@
    }
}

impl Address {
    pub fn new(key: String) -> (r: Address)
        ensures
            r@ == key@,
    {
        Address { key }
    }

    /// The textual key of this identity.
    pub fn as_str(&self) -> (r: &str)
        ensures
            r@ == self@,
    {
        self.key.as_str()
    }

    /// Whether both values name the same identity.
    pub fn same(&self, other: &Address) -> (r: bool)
        ensures
            r == (self@ == other@),
    {
        self.key == other.key
    }
}

impl Clone for Address {
    fn clone(&self) -> (r: Self)
        ensures
            r == *self,
    {
        Address { key: self.key.clone() }
    }
}

impl PartialEq for Address {
    fn eq(&self, other: &Address) -> (r: bool) {
        self.same(other)
    }
}

impl vstd::std_specs::cmp::PartialEqSpecImpl for Address {
    open spec fn obeys_eq_spec() -> bool {
        true
    }

    open spec fn eq_spec(&self, other: &Address) -> bool {
        self@ == other@
    }
}

impl Eq for Address {}

/// Decision state of an application: created `Pending`, then decided once.
#[derive(Clone, Copy, Debug, PartialEq, Eq, Structural)]
pub enum ApplicationStatus {
    Pending,
    Approved,
    Rejected,
}

impl ApplicationStatus {
    /// True for a terminal status, out of which no transition exists.
    pub fn is_decided(&self) -> (r: bool)
        ensures
            r == (*self != ApplicationStatus::Pending),
    {
        match self {
            ApplicationStatus::Pending => false,
            _ => true,
        }
    }
}

/// Why an operation was refused. A refused operation changes nothing.
#[derive(Clone, Copy, Debug, PartialEq, Eq, Structural)]
pub enum Error {
    InvalidAmount,
    Unauthorized,
    ScholarshipNotFound,
    ApplicationNotFound,
    ScholarshipExpired,
    AlreadyApplied,
    InsufficientFunds,
}

/// A balance as read before and after a transfer.
#[derive(Clone, Copy, Debug, PartialEq, Eq, Structural)]
pub struct BalanceChange {
    pub before: i128,
    pub after: i128,
}

/// A funded scholarship. Only `grants_remaining` changes after posting.
#[derive(Debug)]
pub struct Scholarship {
    pub id: u64,
    pub name: String,
    pub details: String,
    pub grant_amount: i128,
    pub number_of_grants: u64,
    pub grants_remaining: u64,
    pub end_date: u64,
    pub creator: Address,
}

impl Clone for Scholarship {
    fn clone(&self) -> (r: Self)
        ensures
            r == *self,
    {
        Scholarship {
            id: self.id,
            name: self.name.clone(),
            details: self.details.clone(),
            grant_amount: self.grant_amount,
            number_of_grants: self.number_of_grants,
            grants_remaining: self.grants_remaining,
            end_date: self.end_date,
            creator: self.creator.clone(),
        }
    }
}

/// One applicant's request for one scholarship.
#[derive(Debug)]
pub struct Application {
    pub scholarship_id: u64,
    pub applicant: Address,
    pub name: String,
    pub details: String,
    pub status: ApplicationStatus,
}

impl Clone for Application {
    fn clone(&self) -> (r: Self)
        ensures
            r == *self,
    {
        Application {
            scholarship_id: self.scholarship_id,
            applicant: self.applicant.clone(),
            name: self.name.clone(),
            details: self.details.clone(),
            status: self.status,
        }
    }
}

} // verus!
