//! Health checks for a self-hosted mail server's management API.
//!
//! The library holds the decision logic of each check: rendering the
//! outbound-queue report, comparing mailbox quotas against a threshold,
//! and filtering log lines for transport-encryption rejections. The
//! surrounding HTTP, CLI and JSON plumbing lives outside the library and
//! hands it plain values.

pub mod check_postfix_rejections;
pub mod check_queue;
pub mod check_quota;
pub mod error;
pub mod text;
pub mod timefmt;
