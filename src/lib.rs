//! A flag-validation oracle: a candidate string is cut into four-byte chunks,
//! each chunk is reduced to a 64-bit fingerprint by a rolling XOR-multiply
//! fold, and the fingerprints are compared position by position against a
//! fixed table.
pub mod fingerprint;
pub mod flag;
pub mod oracle;
