//! Checks for an untrusted, comparator-driven sorting routine: a differential
//! check against a trusted sort, a stability check on labelled keys, a
//! multiset fingerprint, comparison observability, a catalogue of adversarial
//! comparators, the process seed's lifecycle, and the result conversion of a
//! panic-safe comparator callback for sorters behind a foreign call boundary.
pub mod adversary;
pub mod differential;
pub mod invariants;
pub mod seed;
pub mod shim;
pub mod stability;
