//! Catalog synchronization for a challenge training platform.
//!
//! The crate models the catalog of challenge categories and challenges as an
//! explicit relational store with natural-key uniqueness invariants, and
//! verifies the synchronization pipeline that reconciles challenge
//! descriptors discovered in a content repository into that store: scanning
//! the working copy for descriptor files, decoding them, and creating the
//! missing rows exactly once, safely under repeated and concurrent runs.

pub mod catalog;
pub mod descriptor;
pub mod fetch;
pub mod laws;
pub mod controllers;
pub mod models;
pub mod numeric;
pub mod repositories;
pub mod scan;
pub mod services;
pub mod sync;

pub use models::role::Role;
