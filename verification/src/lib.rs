//! Core of a directory-watching backup daemon.
//!
//! The daemon polls a configurable set of directories, classifies the
//! changes it observes, waits for writes to settle, and then asks an
//! external version-control tool to record a snapshot.  A small control
//! client talks to the daemon over a local socket to query the
//! configuration path and to trigger a hot reload.
//!
//! This crate holds the decision logic of that system: ignore-pattern
//! matching, directory-snapshot filtering, state fingerprints, the
//! change-classification and write-settle state machine, the worker and
//! supervisor lifecycles, the control-frame protocol, and configuration
//! resolution and editing.  All of it is verified.  The surrounding
//! process — filesystem walks, sockets, sleeping, and the
//! version-control subprocess — feeds plain values in and carries the
//! decided actions out.

pub mod config;
pub mod detector;
pub mod editor;
pub mod fingerprint;
pub mod ignore;
pub mod paths;
pub mod protocol;
pub mod snapshot;
pub mod supervisor;
pub mod worker;
