//! Core of a small book-review service: a credential store, a book catalog
//! and a review ledger that keeps per-book aggregates consistent with the
//! reviews recorded, plus the authentication and review services on top.

pub mod model;
pub mod password;
pub mod database;
pub mod auth;
pub mod review_service;
