//! A concurrent web-path discovery scanner, verified with Verus.
//!
//! Given a validated base URL and a wordlist of candidate paths, the scanner
//! probes each path, suppresses likely false positives (content-signature
//! matches and repeated response sizes), and reports confirmed findings.
//! This crate holds the verified core: target validation, wordlist and
//! filter-file line selection, the shared detection state, the scan-run
//! bookkeeping with bounded admission, and result-line formatting.
//! Network and console I/O live outside the library.

pub mod engine;
pub mod report;
pub mod state;
pub mod target;
pub mod text;
