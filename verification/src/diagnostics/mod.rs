//! Diagnostic findings.
use crate::text;
use crate::text::{chars_of, eq_ignore_case};
use vstd::prelude::*;

pub mod laws;
pub mod rules;

verus! {

/// Diagnostic severity, in ascending order.
#[derive(Debug, Clone, Copy, PartialEq, Eq, Structural)]
pub enum Severity {
    Info,
    Warn,
    Critical,
}

impl Severity {
    pub open spec fn spec_label(self) -> Seq<char> {
        match self {
            Severity::Info => "INFO"@,
            Severity::Warn => "WARN"@,
            Severity::Critical => "CRIT"@,
        }
    }

    pub fn label(self) -> (r: &'static str)
        ensures
            r@ == self.spec_label(),
    {
        match self {
            Severity::Info => "INFO",
            Severity::Warn => "WARN",
            Severity::Critical => "CRIT",
        }
    }

    /// Position in the order, from zero.
    pub open spec fn spec_rank(self) -> u8 {
        match self {
            Severity::Info => 0,
            Severity::Warn => 1,
            Severity::Critical => 2,
        }
    }

    pub fn rank(self) -> (r: u8)
        ensures
            r == self.spec_rank(),
    {
        match self {
            Severity::Info => 0,
            Severity::Warn => 1,
            Severity::Critical => 2,
        }
    }

    pub open spec fn of_level(t: Seq<char>) -> Severity {
        if text::same_word(t, "critical"@) || text::same_word(t, "crit"@) {
            Severity::Critical
        } else if text::same_word(t, "info"@) {
            Severity::Info
        } else {
            Severity::Warn
        }
    }

    /// The severity that a level names, in any case; warnings where it names
    /// none.
    pub fn from_level(s: &str) -> (r: Severity)
        ensures
            r == Severity::of_level(s@),
    {
        let t = chars_of(s);
        if eq_ignore_case(t.as_slice(), "critical") || eq_ignore_case(t.as_slice(), "crit") {
            Severity::Critical
        } else if eq_ignore_case(t.as_slice(), "info") {
            Severity::Info
        } else {
            Severity::Warn
        }
    }
}

// Diagnostic codes (stable identifiers for export/filtering).
pub const CONTACT_UNREACHABLE: &'static str = "CONTACT_UNREACHABLE";

pub const CONTACT_PRIVATE_NAT: &'static str = "CONTACT_PRIVATE_NAT";

pub const CONTACT_MCAST: &'static str = "CONTACT_MCAST";

pub const RR_NOT_HONORED: &'static str = "RR_NOT_HONORED";

pub const RR_DEPTH_MISMATCH: &'static str = "RR_DEPTH_MISMATCH";

pub const SDP_HOLD: &'static str = "SDP_HOLD";

pub const RTP_PT_MISMATCH: &'static str = "RTP_PT_MISMATCH";

pub const RTP_FLOW_UNEXPECTED: &'static str = "RTP_FLOW_UNEXPECTED";

pub const RTP_PT_CHANGED: &'static str = "RTP_PT_CHANGED";

pub const ONE_WAY_MEDIA: &'static str = "ONE_WAY_MEDIA";

// TURN (RFC 5766/8656).
pub const TURN_ALLOC_OK: &'static str = "TURN_ALLOC_OK";

pub const TURN_ALLOC_FAILED: &'static str = "TURN_ALLOC_FAILED";

pub const TURN_REFRESH_FAILED: &'static str = "TURN_REFRESH_FAILED";

pub const TURN_RELAY_MEDIA: &'static str = "TURN_RELAY_MEDIA";

pub const TURN_CHANNEL_MEDIA: &'static str = "TURN_CHANNEL_MEDIA";

pub const TURN_SEND_IND_MEDIA: &'static str = "TURN_SEND_IND_MEDIA";

pub const TURN_LEG_IMBALANCE: &'static str = "TURN_LEG_IMBALANCE";

#[derive(Debug, Clone)]
pub struct Diagnostic {
    pub ts_us: u64,
    pub call_id: String,
    pub severity: Severity,
    pub code: &'static str,
    pub message: String,
}

/// A diagnostic by its contents.
pub struct DiagView {
    pub ts_us: u64,
    pub call_id: Seq<char>,
    pub severity: Severity,
    pub code: Seq<char>,
    pub message: Seq<char>,
}

impl View for Diagnostic {
    type V = DiagView;

    open spec fn view(&self) -> DiagView {
        DiagView {
            ts_us: self.ts_us,
            call_id: self.call_id@,
            severity: self.severity,
            code: self.code@,
            message: self.message@,
        }
    }
}

impl Diagnostic {
    /// A copy of the diagnostic.
    pub fn copy(&self) -> (r: Diagnostic)
        ensures
            r@ == self@,
    {
        Diagnostic {
            ts_us: self.ts_us,
            call_id: self.call_id.clone(),
            severity: self.severity,
            code: self.code,
            message: self.message.clone(),
        }
    }
}

pub open spec fn diag_views(v: Seq<Diagnostic>) -> Seq<DiagView> {
    v.map_values(|d: Diagnostic| d@)
}

} // verus!
