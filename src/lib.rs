//! Script-facing permission queries over a one-shot settlement primitive.
//!
//! `promise` holds the settlement primitive and its FIFO job queue,
//! `catalog` the fixed table of capabilities and the descriptor validator,
//! `permissions` the permission algorithm and the three public operations.

pub mod catalog;
pub mod permissions;
pub mod promise;
