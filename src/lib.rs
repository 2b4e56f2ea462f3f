//! Escrowed scholarships and the review of their applications, as a verified
//! state machine. Host services (authorization, the clock, asset transfers and
//! persistent storage) stay with the caller, which hands their results in as
//! plain values.
mod contract;
mod escrow;
mod laws;
mod state;
mod types;

pub use types::{Address, Application, ApplicationStatus, BalanceChange, Error, Scholarship};
pub use escrow::{check_received, check_sent, funding_required, funding_total, received, sent};
pub use state::{addressed_to, approval_mark, approved_count, created_by, for_pair, submitted_by, ContractState};
pub use contract::DescholarContract;
pub use laws::{
    lemma_apply_after_end_date_refused, lemma_approval_all_or_nothing, lemma_approve_needs_creator,
    lemma_decided_application_not_paid_again, lemma_post_escrows_exact_total,
    lemma_second_apply_refused,
};
