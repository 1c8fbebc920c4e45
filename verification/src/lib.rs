//! Candidate-identifier validation.
//!
//! Cheap, deterministic checks that confirm or reject strings which look like
//! structured identifiers: payment-card numbers (Luhn checksum) and 9-digit
//! national identifiers (area/group/serial format). Each validator is a total,
//! pure function from a string to a boolean verdict.

pub mod validators;

pub use validators::luhn;
pub use validators::ssn_format;
