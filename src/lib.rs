//! A token lock: a verified instruction codec, record layouts and request handlers for a
//! program that holds tokens behind a release schedule.
//!
//! The handlers decide, from the accounts of a call, whether the call is accepted and
//! which account bytes it stores and which calls into other programs the host makes.

pub mod address;
pub mod bytes;
pub mod error;
pub mod host;
pub mod instruction;
pub mod processor;
pub mod state;
