//! Pages, filters and sort orders.
use crate::model::sip::CallState;
use crate::numfmt;
use crate::store::snapshot::Snapshot;
use vstd::prelude::*;

verus! {

/// Which calls the overview lists.
#[derive(Debug, Clone, Copy, PartialEq, Eq, Structural)]
pub enum CallFilter {
    All,
    Dialing,
    Ringing,
    Active,
    Completed,
    Failed,
    Canceled,
}

impl CallFilter {
    pub open spec fn spec_label(self) -> Seq<char> {
        match self {
            CallFilter::All => "all"@,
            CallFilter::Dialing => "dialing"@,
            CallFilter::Ringing => "ringing"@,
            CallFilter::Active => "active"@,
            CallFilter::Completed => "success"@,
            CallFilter::Failed => "failed"@,
            CallFilter::Canceled => "canceled"@,
        }
    }

    pub fn label(self) -> (r: &'static str)
        ensures
            r@ == self.spec_label(),
    {
        match self {
            CallFilter::All => "all",
            CallFilter::Dialing => "dialing",
            CallFilter::Ringing => "ringing",
            CallFilter::Active => "active",
            CallFilter::Completed => "success",
            CallFilter::Failed => "failed",
            CallFilter::Canceled => "canceled",
        }
    }

    /// The state that the filter lets through, if it is but one.
    pub open spec fn wanted(self) -> Option<CallState> {
        match self {
            CallFilter::All => None,
            CallFilter::Dialing => Some(CallState::Dialing),
            CallFilter::Ringing => Some(CallState::Ringing),
            CallFilter::Active => Some(CallState::Active),
            CallFilter::Completed => Some(CallState::Completed),
            CallFilter::Failed => Some(CallState::Failed),
            CallFilter::Canceled => Some(CallState::Canceled),
        }
    }

    pub open spec fn lets(self, s: CallState) -> bool {
        self.wanted() is None || self.wanted() == Some(s)
    }

    pub fn matches(self, s: CallState) -> (r: bool)
        ensures
            r == self.lets(s),
    {
        match self {
            CallFilter::All => true,
            CallFilter::Dialing => s == CallState::Dialing,
            CallFilter::Ringing => s == CallState::Ringing,
            CallFilter::Active => s == CallState::Active,
            CallFilter::Completed => s == CallState::Completed,
            CallFilter::Failed => s == CallState::Failed,
            CallFilter::Canceled => s == CallState::Canceled,
        }
    }

    pub open spec fn spec_next(self) -> CallFilter {
        match self {
            CallFilter::All => CallFilter::Dialing,
            CallFilter::Dialing => CallFilter::Ringing,
            CallFilter::Ringing => CallFilter::Active,
            CallFilter::Active => CallFilter::Completed,
            CallFilter::Completed => CallFilter::Failed,
            CallFilter::Failed => CallFilter::Canceled,
            CallFilter::Canceled => CallFilter::All,
        }
    }

    /// The filter that follows, going round.
    pub fn next(self) -> (r: CallFilter)
        ensures
            r == self.spec_next(),
    {
        match self {
            CallFilter::All => CallFilter::Dialing,
            CallFilter::Dialing => CallFilter::Ringing,
            CallFilter::Ringing => CallFilter::Active,
            CallFilter::Active => CallFilter::Completed,
            CallFilter::Completed => CallFilter::Failed,
            CallFilter::Failed => CallFilter::Canceled,
            CallFilter::Canceled => CallFilter::All,
        }
    }
}

#[derive(Debug, Clone, Copy, PartialEq, Eq, Structural)]
pub enum Page {
    Overview,
    CallDetail,
    Heatmap,
    Streams,
    EventLog,
    IpStats,
}

impl Page {
    pub open spec fn spec_title(self) -> Seq<char> {
        match self {
            Page::Overview => "Overview"@,
            Page::CallDetail => "Call Detail"@,
            Page::Heatmap => "SIP Stats"@,
            Page::Streams => "Streams"@,
            Page::EventLog => "Event Log"@,
            Page::IpStats => "IP Stats"@,
        }
    }

    pub fn title(self) -> (r: &'static str)
        ensures
            r@ == self.spec_title(),
    {
        match self {
            Page::Overview => "Overview",
            Page::CallDetail => "Call Detail",
            Page::Heatmap => "SIP Stats",
            Page::Streams => "Streams",
            Page::EventLog => "Event Log",
            Page::IpStats => "IP Stats",
        }
    }

    /// Position among the tabs, from zero.
    pub open spec fn spec_index(self) -> int {
        match self {
            Page::Overview => 0,
            Page::CallDetail => 1,
            Page::Heatmap => 2,
            Page::Streams => 3,
            Page::EventLog => 4,
            Page::IpStats => 5,
        }
    }

    pub fn index(self) -> (r: usize)
        ensures
            r == self.spec_index(),
            r < PAGES,
    {
        match self {
            Page::Overview => 0,
            Page::CallDetail => 1,
            Page::Heatmap => 2,
            Page::Streams => 3,
            Page::EventLog => 4,
            Page::IpStats => 5,
        }
    }

    /// The page at a tab; the last one, beyond it.
    pub open spec fn at(i: int) -> Page {
        if i == 0 {
            Page::Overview
        } else if i == 1 {
            Page::CallDetail
        } else if i == 2 {
            Page::Heatmap
        } else if i == 3 {
            Page::Streams
        } else if i == 4 {
            Page::EventLog
        } else {
            Page::IpStats
        }
    }

    pub fn from_index(i: usize) -> (r: Page)
        ensures
            r == Page::at(i as int),
    {
        match i {
            0 => Page::Overview,
            1 => Page::CallDetail,
            2 => Page::Heatmap,
            3 => Page::Streams,
            4 => Page::EventLog,
            _ => Page::IpStats,
        }
    }

    /// The page behind, or with `fwd` false before, this one, going round.
    pub open spec fn spec_turned(self, fwd: bool) -> Page {
        Page::at(
            (self.spec_index() + if fwd {
                1int
            } else {
                5int
            }) % 6,
        )
    }

    pub fn turned(self, fwd: bool) -> (r: Page)
        ensures
            r == self.spec_turned(fwd),
    {
        let step: usize = if fwd {
            1
        } else {
            PAGES - 1
        };
        Page::from_index((self.index() + step) % PAGES)
    }

    pub open spec fn spec_keys(self) -> Seq<char> {
        match self {
            Page::Overview => "[↑↓/PgUp/PgDn] select [Enter] open call detail"@,
            Page::CallDetail => "[↑↓] msg  [l] link b-leg  [L] unlink  [PgUp/PgDn] raw  [←/Esc] back"@,
            Page::Heatmap => "[↑↓/PgUp/PgDn] scroll [s] sort [w] loss window"@,
            Page::Streams => "[↑↓/PgUp/PgDn] select stream"@,
            Page::EventLog => "[↑↓/PgUp/PgDn] scroll"@,
            Page::IpStats => "[↑↓/PgUp/PgDn] select [Enter] calls [s] sort [w] window [c] loss-only"@,
        }
    }
}

/// How many pages there are.
pub const PAGES: usize = 6;

/// The hint at the keys of a page.
pub fn page_keys(page: Page) -> (r: &'static str)
    ensures
        r@ == page.spec_keys(),
{
    match page {
        Page::Overview => "[↑↓/PgUp/PgDn] select [Enter] open call detail",
        Page::CallDetail => "[↑↓] msg  [l] link b-leg  [L] unlink  [PgUp/PgDn] raw  [←/Esc] back",
        Page::Heatmap => "[↑↓/PgUp/PgDn] scroll [s] sort [w] loss window",
        Page::Streams => "[↑↓/PgUp/PgDn] select stream",
        Page::EventLog => "[↑↓/PgUp/PgDn] scroll",
        Page::IpStats => "[↑↓/PgUp/PgDn] select [Enter] calls [s] sort [w] window [c] loss-only",
    }
}

/// The order of the per-IP network stats.
#[derive(Debug, Clone, Copy, PartialEq, Eq, Structural)]
pub enum IpSort {
    /// Most recently active first.
    Newest,
    /// Highest loss first.
    MaxLoss,
    /// Lowest loss first.
    MinLoss,
}

impl IpSort {
    pub open spec fn spec_label(self) -> Seq<char> {
        match self {
            IpSort::Newest => "newest"@,
            IpSort::MaxLoss => "max-loss"@,
            IpSort::MinLoss => "min-loss"@,
        }
    }

    pub fn label(self) -> (r: &'static str)
        ensures
            r@ == self.spec_label(),
    {
        match self {
            IpSort::Newest => "newest",
            IpSort::MaxLoss => "max-loss",
            IpSort::MinLoss => "min-loss",
        }
    }

    pub open spec fn spec_next(self) -> IpSort {
        match self {
            IpSort::Newest => IpSort::MaxLoss,
            IpSort::MaxLoss => IpSort::MinLoss,
            IpSort::MinLoss => IpSort::Newest,
        }
    }

    pub fn next(self) -> (r: IpSort)
        ensures
            r == self.spec_next(),
    {
        match self {
            IpSort::Newest => IpSort::MaxLoss,
            IpSort::MaxLoss => IpSort::MinLoss,
            IpSort::MinLoss => IpSort::Newest,
        }
    }
}

/// The order of the SIP stats.
#[derive(Debug, Clone, Copy, PartialEq, Eq, Structural)]
pub enum SipSort {
    /// Most INVITEs first.
    Invites,
    /// Most error responses first.
    Errors,
    /// Lowest answer rate first.
    Asr,
}

impl SipSort {
    pub open spec fn spec_label(self) -> Seq<char> {
        match self {
            SipSort::Invites => "invites"@,
            SipSort::Errors => "errors"@,
            SipSort::Asr => "asr"@,
        }
    }

    pub fn label(self) -> (r: &'static str)
        ensures
            r@ == self.spec_label(),
    {
        match self {
            SipSort::Invites => "invites",
            SipSort::Errors => "errors",
            SipSort::Asr => "asr",
        }
    }

    pub open spec fn spec_next(self) -> SipSort {
        match self {
            SipSort::Invites => SipSort::Errors,
            SipSort::Errors => SipSort::Asr,
            SipSort::Asr => SipSort::Invites,
        }
    }

    pub fn next(self) -> (r: SipSort)
        ensures
            r == self.spec_next(),
    {
        match self {
            SipSort::Invites => SipSort::Errors,
            SipSort::Errors => SipSort::Asr,
            SipSort::Asr => SipSort::Invites,
        }
    }
}

// ----------------------------- laws -----------------------------

/// Turning a page and turning back comes to the same page, and six turns go
/// round.
pub proof fn law_pages_go_round(p: Page)
    ensures
        p.spec_turned(true).spec_turned(false) == p,
        p.spec_turned(false).spec_turned(true) == p,
        p.spec_turned(true).spec_turned(true).spec_turned(true).spec_turned(true).spec_turned(
            true,
        ).spec_turned(true) == p,
{
}

/// The first filter lets through every state, and no two of the others let through
/// the same one.
pub proof fn law_filters_disjoint(a: CallFilter, b: CallFilter, s: CallState)
    ensures
        CallFilter::All.lets(s),
        a != CallFilter::All && b != CallFilter::All && a.lets(s) && b.lets(s) ==> a == b,
{
}

/// How long the capture has run, as the top bar shows it.
pub open spec fn elapsed_text(elapsed_us: Option<u64>) -> Seq<char> {
    match elapsed_us {
        Some(us) => numfmt::dur_text(Some((us / 1000) as u64)),
        None => "-"@,
    }
}

pub fn duration_summary(snap: &Snapshot) -> (r: String)
    ensures
        r@ == elapsed_text(snap.elapsed_us),
{
    match snap.elapsed_us {
        Some(us) => numfmt::fmt_dur(Some(us / 1000)),
        None => numfmt::fmt_dur(None),
    }
}

} // verus!
