//! Batch orchestration for a slow, rate-limited text-extraction service:
//! the progress record shared by the workers, the admission controller that paces
//! new work, the dispatcher that hands items out in input order, and the
//! final report.

pub mod progress;
pub mod admission;
pub mod dispatch;
pub mod naming;
