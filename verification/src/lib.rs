//! Coupon-gated voucher issuance for free root-domain registration.
//!
//! Given a claimant's address, a requested root domain and a one-time coupon
//! code, the service either issues a cryptographic voucher (an ECDSA signature
//! over a hash chain binding address, encoded label, coupon and campaign
//! constant) or refuses with a structured error.

pub mod encoder;
pub mod field;
pub mod hash;
pub mod ledger;
pub mod service;
pub mod sign;


