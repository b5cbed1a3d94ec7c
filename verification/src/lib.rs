//! A local-first photo organizer's core logic: classification resolution,
//! the Places365 topic taxonomy, organization-plan rules and naming, and the
//! bookkeeping of library scans.
pub mod text;
pub mod error;
pub mod classification;
pub mod models;

pub mod places365;
pub mod organization;
pub mod conflicts;
pub mod render;
pub mod plan;
pub mod manifest;
pub mod scanner;
pub mod scope;
pub mod db;
pub mod asset_filter;
pub mod imaging;
pub mod ipc;
pub mod paths;
