//! Time-based one-time passwords (RFC 6238) over secrets kept in the
//! platform secret store.
//!
//! The crate has three parts: a validator for Base32-encoded secrets
//! (`base32`), the code generator itself (`otp`), and the store of named
//! secrets (`keyring`).

use vstd::prelude::*;

pub mod base32;
pub mod keyring;
pub mod otp;

verus! {

/// Width of the time step used when deriving codes, in seconds.
pub const DEFAULT_INTERVAL: u64 = 30;

/// Number of decimal digits in a generated code.
pub const DEFAULT_DIGITS: u8 = 6;

} // verus!
