//! Building blocks for hosts.

pub mod list;
