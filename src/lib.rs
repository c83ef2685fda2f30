//! A content-management data layer: authors, posts and edit suggestions kept
//! in id-ordered tables, one generic CRUD engine over them, a filter and
//! pagination compiler, and whole-collection cache snapshots.
pub mod auth;
pub mod cache;
pub mod ctx;
pub mod error;
pub mod filter;
pub mod models;
pub mod store;
