//! Detects status changes on watched pages and decides the notifications
//! to send: the rules applied to what a page inspector saw, the one-way
//! status of each site, the all-must-change status of groups of sites, and
//! the multipart requests that carry the notifications.

pub mod decimal;
pub mod laws;
pub mod monitor;
pub mod notify;
pub mod opts;
pub mod plan;
pub mod rule;
pub mod util;
