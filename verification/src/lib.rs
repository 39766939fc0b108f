//! Keeps a Windows host's port-forwarding (NAT) rules in sync with a dynamic
//! set of ports that should reach a WSL guest.
//!
//! The library holds the verified core: the port registry (`config`), the
//! extraction of candidate ports from semi-structured discovery output
//! (`detector`), the guest-address model and parsing (`net`), the netsh
//! rule-application protocol (`windows`), the daemon's change detection
//! (`daemon`), and the shared text helpers (`text`). I/O — subprocesses,
//! HTTP, the config file on disk — lives outside the library and hands in
//! plain values.

pub mod config;
pub mod daemon;
pub mod detector;
pub mod net;
pub mod text;
pub mod windows;
