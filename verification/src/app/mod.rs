//! The specific behaviour of this proxy.
pub mod classify;
pub mod metric_labels;
pub mod outbound;
pub mod profiles;
