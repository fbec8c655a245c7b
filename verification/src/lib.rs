//! An escrow state machine for a crowdfunding campaign.
//!
//! A single authority opens a campaign whose persistent record and holding
//! vault live at addresses derived from the authority's identity; donors move
//! value into the vault; the authority finally drains both accounts and
//! destroys the record.  Every operation validates the caller-supplied
//! accounts against independently re-derived addresses before trusting them.

pub mod account;
pub mod auth;
pub mod error;
pub mod instruction;
pub mod processor;
pub mod state;
