//! Guest-side attestation for the CSV secure virtualization platform.
//!
//! The library builds hash-bound attestation report requests, lays out the
//! fixed page-sized report response, verifies the signing evidence that
//! accompanies a report (nonce recovery followed by a keyed-digest check),
//! models the per-node device exchange as a session whose bookkeeping is
//! proved, and converts raw public-key material into a provider curve point.
//! Device and filesystem I/O stay outside the library; callers hand in the
//! bytes they read and perform the exchanges the session asks for.

pub mod crypto;
pub mod dcu;
pub mod error;
pub mod guest;
pub mod key;
pub mod util;
