//! Core engine of a moderation-report watcher for federated forum
//! instances: credential change detection, per-instance report fetching
//! decisions, deduplication against a ledger of already-seen reports, and
//! ordered fan-out of new reports to a set of notification channels.

pub mod config;
pub mod cycle;
pub mod detector;
pub mod digits;
pub mod dispatch;
pub mod domain;
pub mod ident;
pub mod ledger;
pub mod notify;
pub mod render;
