//! Authorization, package registry and execution-outcome logic for a
//! multi-tenant document runner.

pub mod text;
pub mod permissions;
pub mod users;
pub mod config;
pub mod auth;
pub mod registry;
pub mod metrics;
pub mod response;
pub mod run;
pub mod api;
