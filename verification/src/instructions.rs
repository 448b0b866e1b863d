//! The three requests of the protocol: create, fulfill and cancel.

pub mod make;
pub mod refund;
pub mod take;
