//! Validation rule for a user-defined fungible token: the amount that a
//! transaction's inputs of the token hold must cover what its outputs hold,
//! unless an input carries the owner's lock.
pub mod amount;
pub mod error;
pub mod owner;
pub mod verdict;
pub mod validator;
