//! Reconciles the peers of a WireGuard interface against peer entries
//! published in an LDAP directory: entries are validated into peer records,
//! classified against the interface's current peers, and turned into one
//! device update.

pub mod config;
pub mod peer;
pub mod classify;
pub mod plan;
pub mod directory;
