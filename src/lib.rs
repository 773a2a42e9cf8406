//! A membership-governed treasury: members hold voting weight, vote to admit
//! new members, and share joining fees in proportion to the weight that backed
//! each admission.
//!
//! The four components (ledger, proposal, membership and custody account) are
//! modelled as state values with transition functions; the host that stores the
//! state and carries messages between components drives them from outside.
pub mod error;
pub mod payment;
pub mod table;
pub mod ledger;
pub mod proposal;
pub mod msg;
pub mod membership;
pub mod reply;
pub mod custody;

