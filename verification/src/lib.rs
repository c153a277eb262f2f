//! Verified core of a menu-bar usage tracker: date bookkeeping for daily usage
//! reports, tray icon decisions, icon tinting and the decision logic of the
//! background refresh and diagnostics routines.

pub mod calendar;
pub mod clock;
pub mod debug_report;
pub mod fetch;
pub mod stats;
pub mod text;
pub mod tint;
pub mod tray;

pub use clock::now_ms;
