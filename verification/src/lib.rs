//! An in-memory collection of todo records and the operations a small
//! HTTP service performs on it: listing with pagination, creating,
//! partially updating and deleting records.
//!
//! Every operation is stated against a mathematical model of the
//! collection (a map from identifier to record) and proved to follow it.

pub mod actions;
pub mod data;
pub mod status;
pub mod store;
