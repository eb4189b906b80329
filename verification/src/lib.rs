//! Audits recorded lease and fencing-token events.
//!
//! [`audit`] reads newline-delimited events and reports every lease rule that they break;
//! [`Auditor`] does the same line by line.

pub mod audit;
pub mod auditor;
pub mod error;
pub mod event;
pub mod finding;
pub mod history;
pub mod human;
pub mod laws;
pub mod lines;
pub mod message;
pub mod order;
pub mod rules;
pub mod text;

pub use audit::audit;
pub use auditor::Auditor;
pub use error::AuditError;
pub use event::{Event, EventKind};
pub use finding::{Finding, FindingCode, Report};
pub use human::human_report;
