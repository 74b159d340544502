//! Verified core of the mochiOS Developer Certificate Authority.
pub mod bytes;
pub mod crypto;
pub mod trust;
pub mod token;
pub mod order;
pub mod text;
pub mod canonical;
pub mod certificate;
pub mod auth;
pub mod model;
pub mod service;
pub mod registration;
pub mod store;
pub mod root_tool;
pub mod steps;
