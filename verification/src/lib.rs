//! Endpoint security-posture inspection.
//!
//! The crate determines, from captured output of platform utilities, whether
//! antivirus protection is active, whether full-disk encryption is enabled,
//! and after how many idle minutes the screen locks.  Running those utilities
//! is the caller's business; everything that interprets their output is
//! verified here.

pub mod antivirus;
pub mod credentials;
pub mod device;
pub mod disk;
pub mod platform;
pub mod posture;
pub mod report;
pub mod screenlock;
pub mod text;
