//! Connectivity for a relational store in three modes, among them a mode that
//! keeps writing to a local store while the remote one cannot be reached.

pub mod bootstrap;
pub mod config;
pub mod connectivity;
pub mod factory;
pub mod json;
pub mod laws;
pub mod model;
pub mod offline_write;
pub mod pending;
pub mod protocol;
pub mod query_params;
pub mod result_set;
pub mod statement;
pub mod text;
