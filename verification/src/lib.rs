//! Verified core of `thufs`, a shell-first client for the THU Cloud Drive (Seafile).
pub mod contract;
pub mod error;
pub mod listing;
pub mod paths;
pub mod text;
pub mod headers;
pub mod transfer;
pub mod share;
pub mod config;
pub mod output;
pub mod seafile;
pub mod account;
pub mod local;
pub mod push;
pub mod pull;
pub mod auth;
pub mod create;
