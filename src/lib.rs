//! Firmware logic of a car / key-fob pair: pairing, feature enrolment and
//! challenge-response unlock, over a fixed persistent layout.

pub mod words;
pub mod crypto;
pub mod store;
pub mod protocol;
pub mod car;
pub mod fob;
pub mod entropy;
pub mod hex;
