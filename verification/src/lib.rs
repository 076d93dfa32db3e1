//! Core rules of Priora, a neighbourhood platform where residents create,
//! prioritise (Borda count) and discuss improvement proposals, verified with Verus.
//! Database access and HTTP plumbing live outside this library; every decision the
//! service takes on the data it reads is made here.
pub mod error;
pub mod text;
pub mod models;
pub mod membership;
pub mod ranking;
pub mod ordering;
pub mod auth;
pub mod proposals;
pub mod users;
pub mod namespaces;
pub mod comments;
pub mod uploads;
pub mod config;
pub mod activity;
