//! A static ownership and borrow checker over a small imperative
//! instruction language, together with a collection of small verified
//! routines modelling on-chain account and token bookkeeping.
//!
//! The checker walks an ordered instruction sequence, tracks the
//! lifecycle state of every storage location (a "place"), and collects
//! structured diagnostics instead of failing: an empty diagnostic list
//! means the sequence respects the ownership discipline.

pub mod account;
pub mod basics;
pub mod birds;
pub mod calls;
pub mod checker;
pub mod contract;
pub mod counter;
pub mod diag;
pub mod generics;
pub mod greeting;
pub mod instruction;
pub mod invariants;
pub mod laws;
pub mod mario;
pub mod messages;
pub mod movie;
pub mod ownership;
pub mod model;
pub mod place;
pub mod project;
pub mod program;
pub mod pubkey;
pub mod rectangle;
pub mod references;
pub mod state;
pub mod token;
