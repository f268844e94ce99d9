//! Verification of TEE attestation evidence: binary quote decoding, binding
//! checks, measurement-log replay, claim building, and the reference-value
//! store fed by provenance extractors.

pub mod quote;
pub mod binding;
pub mod hashing;
pub mod replay;
pub mod eventlog;
pub mod encoding;
pub mod tdx;
pub mod store;
pub mod paths;
pub mod intoto;
