//! A fixed-capacity, rate-limited per-identity counter store, and a
//! bounded decimal-string validator.
//!
//! `vending` holds the store and its single transition, `laws` the
//! properties proved of sequences of vends, and `validator` the check on
//! submitted decimal text.

pub mod address;
pub mod laws;
pub mod validator;
pub mod vending;

pub use address::Address;
pub use validator::{validate_submission, DataValidator, DecimalValue, SubmitError};
pub use vending::{UserRecord, VendError, VendingMachine, MAX_USERS, VEND_COOLDOWN_SECONDS};
