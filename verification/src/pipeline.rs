//! What the capture and replay loops do next.
//!
//! The loops themselves pull frames, write logs and publish snapshots; when to do
//! what is decided here.
use crate::text;
use crate::text::{chars_of, clone_opt, eq_ignore_case, str_eq};
use vstd::prelude::*;

verus! {

/// How often a snapshot is published, in milliseconds.
pub const PUBLISH_EVERY_MS: u64 = 100;

/// What a loop does before it pulls the next frame.
#[derive(Debug, Clone, Copy, PartialEq, Eq, Structural)]
pub enum Turn {
    /// Leave the loop.
    Stop,
    /// Sleep a little, and ask again.
    Wait,
    /// Pull a frame.
    Pull,
}

/// What a loop does when its source has nothing more.
#[derive(Debug, Clone, Copy, PartialEq, Eq, Structural)]
pub struct AtEnd {
    /// Flush what is pending.
    pub flush: bool,
    /// Publish a full snapshot.
    pub publish: bool,
    /// Stay, so that the screens go on being served.
    pub stay: bool,
}

/// What a loop has published, and whether its source has ended.
pub struct Pipeline {
    pub with_tui: bool,
    pub exhausted: bool,
    /// Packets at the last publication; none, if there was none.
    pub last_pkts: Option<u64>,
    /// Focus at the last publication; none, if there was none.
    pub last_focus: Option<Option<String>>,
}

pub struct PipeView {
    pub with_tui: bool,
    pub exhausted: bool,
    pub last_pkts: Option<u64>,
    pub last_focus: Option<Option<Seq<char>>>,
}

pub open spec fn focus_seen(f: Option<Option<String>>) -> Option<Option<Seq<char>>> {
    match f {
        Some(f) => Some(text::opt_text(f)),
        None => None,
    }
}

impl View for Pipeline {
    type V = PipeView;

    open spec fn view(&self) -> PipeView {
        PipeView {
            with_tui: self.with_tui,
            exhausted: self.exhausted,
            last_pkts: self.last_pkts,
            last_focus: focus_seen(self.last_focus),
        }
    }
}

/// A request to stop goes before one to pause.
pub open spec fn turn_for(quit: bool, paused: bool) -> Turn {
    if quit {
        Turn::Stop
    } else if paused {
        Turn::Wait
    } else {
        Turn::Pull
    }
}

pub fn next_turn(quit: bool, paused: bool) -> (r: Turn)
    ensures
        r == turn_for(quit, paused),
{
    if quit {
        Turn::Stop
    } else if paused {
        Turn::Wait
    } else {
        Turn::Pull
    }
}

impl PipeView {
    pub open spec fn fresh(with_tui: bool) -> PipeView {
        PipeView { with_tui, exhausted: false, last_pkts: None, last_focus: None }
    }

    /// At the end of the source: everything is flushed and published once. With
    /// screens open the loop stays, and publishes again when the focus changes.
    pub open spec fn ended(self, focus: Option<Seq<char>>) -> (PipeView, AtEnd) {
        let changed = self.with_tui && self.last_focus != Some(focus);
        (
            PipeView {
                exhausted: true,
                last_focus: if changed {
                    Some(focus)
                } else {
                    self.last_focus
                },
                ..self
            },
            AtEnd {
                flush: !self.exhausted,
                publish: !self.exhausted || changed,
                stay: self.with_tui,
            },
        )
    }

    /// After a frame: a snapshot is published if it is due and packets or the focus
    /// have changed since the last one.
    pub open spec fn framed(self, elapsed_ms: u64, pkts: u64, focus: Option<Seq<char>>) -> (
        PipeView,
        bool,
    ) {
        if elapsed_ms >= PUBLISH_EVERY_MS && (self.last_pkts != Some(pkts) || self.last_focus
            != Some(focus)) {
            (PipeView { last_pkts: Some(pkts), last_focus: Some(focus), ..self }, true)
        } else {
            (self, false)
        }
    }
}

fn same_focus(a: &Option<Option<String>>, b: &Option<String>) -> (r: bool)
    ensures
        r == (focus_seen(*a) == Some(text::opt_text(*b))),
{
    match a {
        Some(Some(x)) => match b {
            Some(y) => str_eq(x.as_str(), y.as_str()),
            None => false,
        },
        Some(None) => match b {
            Some(_) => false,
            None => true,
        },
        None => false,
    }
}

impl Pipeline {
    pub fn new(with_tui: bool) -> (r: Pipeline)
        ensures
            r@ == PipeView::fresh(with_tui),
    {
        Pipeline { with_tui, exhausted: false, last_pkts: None, last_focus: None }
    }

    /// The source has nothing more.
    pub fn at_end(&mut self, focus: &Option<String>) -> (r: AtEnd)
        ensures
            (final(self)@, r) == old(self)@.ended(text::opt_text(*focus)),
    {
        let changed: bool = self.with_tui && !same_focus(&self.last_focus, focus);
        let first: bool = !self.exhausted;
        self.exhausted = true;
        if changed {
            self.last_focus = Some(clone_opt(focus));
        }
        AtEnd { flush: first, publish: first || changed, stay: self.with_tui }
    }

    /// A frame has been taken; true, if a snapshot is to be published.
    pub fn after_frame(&mut self, elapsed_ms: u64, pkts: u64, focus: &Option<String>) -> (r: bool)
        ensures
            (final(self)@, r) == old(self)@.framed(elapsed_ms, pkts, text::opt_text(*focus)),
    {
        let same: bool = match self.last_pkts {
            Some(n) => n == pkts,
            None => false,
        };
        if elapsed_ms >= PUBLISH_EVERY_MS && !(same && same_focus(&self.last_focus, focus)) {
            self.last_pkts = Some(pkts);
            self.last_focus = Some(clone_opt(focus));
            true
        } else {
            false
        }
    }
}

// ----------------------------- files -----------------------------

/// How a file is opened.
#[derive(Debug, Clone, Copy, PartialEq, Eq, Structural)]
pub enum FileMode {
    /// A capture, analysed.
    Capture,
    /// An event log, replayed.
    Replay,
    /// An exported snapshot, shown.
    View,
}

/// How a file with an extension is opened, in any case; none, if it is not known.
pub open spec fn mode_of(ext: Seq<char>) -> Option<FileMode> {
    if text::same_word(ext, "pcap"@) || text::same_word(ext, "pcapng"@) {
        Some(FileMode::Capture)
    } else if text::same_word(ext, "evlog"@) {
        Some(FileMode::Replay)
    } else if text::same_word(ext, "jsonl"@) {
        Some(FileMode::View)
    } else {
        None
    }
}

pub fn file_mode(ext: &str) -> (r: Option<FileMode>)
    ensures
        r == mode_of(ext@),
{
    let c = chars_of(ext);
    let t = c.as_slice();
    if eq_ignore_case(t, "pcap") || eq_ignore_case(t, "pcapng") {
        Some(FileMode::Capture)
    } else if eq_ignore_case(t, "evlog") {
        Some(FileMode::Replay)
    } else if eq_ignore_case(t, "jsonl") {
        Some(FileMode::View)
    } else {
        None
    }
}

/// The time of a captured packet in microseconds.
pub fn pcap_ts_us(secs: u64, micros: u64) -> (r: u64)
    requires
        secs * 1_000_000 + micros <= u64::MAX,
    ensures
        r == secs * 1_000_000 + micros,
{
    secs * 1_000_000 + micros
}

// ----------------------------- laws -----------------------------

/// At the end of a source everything is flushed exactly once, however long the
/// screens stay open.
pub proof fn law_flushed_once(v: PipeView, a: Option<Seq<char>>, b: Option<Seq<char>>)
    requires
        !v.exhausted,
    ensures
        v.ended(a).1.flush && v.ended(a).1.publish,
        !v.ended(a).0.ended(b).1.flush,
        a == b ==> !v.ended(a).0.ended(b).1.publish,
{
}

/// Nothing is published twice: what was just published is not due again while
/// neither packets nor focus change.
pub proof fn law_nothing_published_twice(
    v: PipeView,
    pkts: u64,
    focus: Option<Seq<char>>,
    ms: u64,
    later: u64,
)
    requires
        v.framed(ms, pkts, focus).1,
    ensures
        !v.framed(ms, pkts, focus).0.framed(later, pkts, focus).1,
{
}

} // verus!
