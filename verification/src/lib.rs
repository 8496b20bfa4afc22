//! A slot device for a Redox scheme daemon, together with the decisions of
//! its command-line client and of the boot loader that starts the daemon.
//!
//! The scheme keeps four machine words ("slots").  A client selects a slot by
//! truncating its file to the slot's number, writes a word to the selected
//! slot, and reads the low four bytes of the selected slot back.

pub mod protocol;
pub mod native;
pub mod scheme;
pub mod boot;
pub mod cli;
pub mod laws;
pub mod call_laws;
