//! Verified core of a peer-to-peer content-distribution node.

pub mod bytemap;
pub mod command;
pub mod config;
pub mod effect;
pub mod event;
pub mod ident;
pub mod laws;
pub mod model;
pub mod protocol;
pub mod proxy;
pub mod queries;
pub mod service;
pub mod summary;
pub mod tables;
