//! Pseudonymous three-party authentication between a registration authority,
//! a gateway and a user device, with the number theory, hashing and
//! biometric key derivation it rests on.

pub mod number_theory;
pub mod encoding;
pub mod entropy;
pub mod error;
pub mod store;
pub mod fuzzyextractor;
pub mod binding;
pub mod ra;
pub mod gateway;
pub mod userdevice;
