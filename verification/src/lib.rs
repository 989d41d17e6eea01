//! Core of a dual-pane terminal file manager.
//!
//! The library holds the verified logic: directory listings ordered
//! directories-first then lexicographically, the per-pane navigation state
//! machine with its selection invariant, incremental name search, the
//! bookkeeping of background copy/move operations, and a model of the
//! filesystem on which the copy and move algorithms are proved. All real
//! input and output (terminal, filesystem, threads) lives outside, feeding
//! this library plain values and acting on what it decides.

pub mod app;
pub mod bytes;
pub mod entry;
pub mod fsmodel;
pub mod fspath;
pub mod listing;
pub mod ops;
pub mod panel;
pub mod popup;
pub mod seq_facts;
