//! Reconstruction of farm events (initialization, reward-period restart,
//! new reward token) from the log lines and account lists of transactions.

pub mod text;
pub mod aggregate;
pub mod events;
pub mod batch;
