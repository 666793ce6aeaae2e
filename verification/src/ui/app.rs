//! The state behind the screens, and what each key does to it.
use crate::filter;
use crate::filter::{CallLike, Rule};
use crate::model::addr::{has_ip, IpAddr};
use crate::model::addr_text;
use crate::model::addr_text::push_ip;
use crate::store::ipstats;
use crate::store::ipstats::{loss_window, next_loss_window};
use crate::store::snapshot::CallSummary;
use crate::text;
use crate::text::{chars_of, clone_opt, push_dec, slice_of, str_eq, string_of, trim};
use crate::ui::pages::{CallFilter, IpSort, Page, SipSort};
use vstd::prelude::*;

verus! {

/// A key, as far as the screens tell keys apart.
#[derive(Debug, Clone, Copy, PartialEq, Eq, Structural)]
pub enum Key {
    Char(char),
    Enter,
    Esc,
    Up,
    Down,
    Left,
    Right,
    PageUp,
    PageDown,
    Tab,
    BackTab,
    Backspace,
    Home,
    End,
    Other,
}

impl Key {
    /// Keys that go on while they are held down.
    pub open spec fn spec_is_nav(self) -> bool {
        match self {
            Key::Up | Key::Down | Key::Left | Key::Right | Key::PageUp | Key::PageDown | Key::Tab
            | Key::BackTab | Key::Home | Key::End => true,
            _ => false,
        }
    }

    pub fn is_nav(self) -> (r: bool)
        ensures
            r == self.spec_is_nav(),
    {
        match self {
            Key::Up | Key::Down | Key::Left | Key::Right | Key::PageUp | Key::PageDown | Key::Tab
            | Key::BackTab | Key::Home | Key::End => true,
            _ => false,
        }
    }

    /// How many rows a key moves a selection by.
    pub open spec fn rows(self) -> int {
        match self {
            Key::Down => 1,
            Key::Up => -1,
            Key::PageDown => PAGE_ROWS as int,
            Key::PageUp => -(PAGE_ROWS as int),
            _ => 0,
        }
    }
}

/// Rows jumped by PageUp and PageDown.
pub const PAGE_ROWS: u16 = 10;

/// Which call is wanted in focus, and which other one with it.
#[derive(Debug)]
pub struct FocusHint {
    pub primary: String,
    pub linked: Option<String>,
}

pub struct HintView {
    pub primary: Seq<char>,
    pub linked: Option<Seq<char>>,
}

impl View for FocusHint {
    type V = HintView;

    open spec fn view(&self) -> HintView {
        HintView { primary: self.primary@, linked: text::opt_text(self.linked) }
    }
}

pub open spec fn hint_view(h: Option<FocusHint>) -> Option<HintView> {
    match h {
        Some(h) => Some(h@),
        None => None,
    }
}

/// What the keys read of the latest snapshot.
pub struct Seen<'a> {
    pub calls: &'a Vec<CallSummary>,
    /// The call in focus.
    pub focus: &'a Option<String>,
    /// Messages of the call in focus.
    pub messages: usize,
    pub streams: usize,
    /// Rows of the SIP stats, with the one for all.
    pub sip_rows: usize,
    pub ips: usize,
}

/// What the keys read of the latest snapshot, by its contents.
pub struct SeenView {
    pub calls: Seq<CallSummary>,
    pub focus: Option<Seq<char>>,
    pub messages: int,
    pub streams: int,
    pub sip_rows: int,
    pub ips: int,
}

impl<'a> View for Seen<'a> {
    type V = SeenView;

    open spec fn view(&self) -> SeenView {
        SeenView {
            calls: self.calls@,
            focus: text::opt_text(*self.focus),
            messages: self.messages as int,
            streams: self.streams as int,
            sip_rows: self.sip_rows as int,
            ips: self.ips as int,
        }
    }
}

/// The state behind the screens.
pub struct App {
    pub paused: bool,
    /// The call wanted in focus.
    pub focus_hint: Option<FocusHint>,
    /// The query whose calls are kept.
    pub search_pin: Option<String>,
    /// Whether everything is to be cleared.
    pub clear: bool,
    /// Whether an export is wanted.
    pub export: bool,
    pub page: Page,
    pub filter_query: String,
    pub filter_editing: bool,
    /// The query before it was edited.
    pub filter_backup: String,
    pub table_state: Option<usize>,
    /// The call asked for whose detail has not come yet.
    pub focus_pending: Option<String>,
    pub selected_call: Option<String>,
    /// The other leg of the call in focus.
    pub linked_call_id: Option<String>,
    pub b_leg_picker: bool,
    pub b_leg_query: String,
    pub b_leg_state: Option<usize>,
    pub filter: CallFilter,
    pub streams_state: Option<usize>,
    pub eventlog_scroll: u16,
    pub raw_scroll: usize,
    pub flow_state: Option<usize>,
    pub should_quit: bool,
    pub status: String,
    pub ip_table_state: Option<usize>,
    pub ip_sort: IpSort,
    /// The IPs in the order in which they are listed.
    pub ip_sort_order: Vec<IpAddr>,
    pub ip_loss_only: bool,
    pub ip_summary_window: u64,
    pub ip_window_secs: u64,
    pub ip_drill: Option<IpAddr>,
    pub ip_drill_state: Option<usize>,
    pub sip_table_state: Option<usize>,
    pub sip_sort: SipSort,
    pub sip_window_secs: u64,
    pub privacy: bool,
}

/// The state behind the screens by its contents.
pub struct AppView {
    pub paused: bool,
    pub focus_hint: Option<HintView>,
    pub search_pin: Option<Seq<char>>,
    pub clear: bool,
    pub export: bool,
    pub page: Page,
    pub filter_query: Seq<char>,
    pub filter_editing: bool,
    pub filter_backup: Seq<char>,
    pub table_state: Option<usize>,
    pub focus_pending: Option<Seq<char>>,
    pub selected_call: Option<Seq<char>>,
    pub linked_call_id: Option<Seq<char>>,
    pub b_leg_picker: bool,
    pub b_leg_query: Seq<char>,
    pub b_leg_state: Option<usize>,
    pub filter: CallFilter,
    pub streams_state: Option<usize>,
    pub eventlog_scroll: u16,
    pub raw_scroll: usize,
    pub flow_state: Option<usize>,
    pub should_quit: bool,
    pub status: Seq<char>,
    pub ip_table_state: Option<usize>,
    pub ip_sort: IpSort,
    pub ip_sort_order: Seq<IpAddr>,
    pub ip_loss_only: bool,
    pub ip_summary_window: u64,
    pub ip_window_secs: u64,
    pub ip_drill: Option<IpAddr>,
    pub ip_drill_state: Option<usize>,
    pub sip_table_state: Option<usize>,
    pub sip_sort: SipSort,
    pub sip_window_secs: u64,
    pub privacy: bool,
}

impl View for App {
    type V = AppView;

    open spec fn view(&self) -> AppView {
        AppView {
            paused: self.paused,
            focus_hint: hint_view(self.focus_hint),
            search_pin: text::opt_text(self.search_pin),
            clear: self.clear,
            export: self.export,
            page: self.page,
            filter_query: self.filter_query@,
            filter_editing: self.filter_editing,
            filter_backup: self.filter_backup@,
            table_state: self.table_state,
            focus_pending: text::opt_text(self.focus_pending),
            selected_call: text::opt_text(self.selected_call),
            linked_call_id: text::opt_text(self.linked_call_id),
            b_leg_picker: self.b_leg_picker,
            b_leg_query: self.b_leg_query@,
            b_leg_state: self.b_leg_state,
            filter: self.filter,
            streams_state: self.streams_state,
            eventlog_scroll: self.eventlog_scroll,
            raw_scroll: self.raw_scroll,
            flow_state: self.flow_state,
            should_quit: self.should_quit,
            status: self.status@,
            ip_table_state: self.ip_table_state,
            ip_sort: self.ip_sort,
            ip_sort_order: self.ip_sort_order@,
            ip_loss_only: self.ip_loss_only,
            ip_summary_window: self.ip_summary_window,
            ip_window_secs: self.ip_window_secs,
            ip_drill: self.ip_drill,
            ip_drill_state: self.ip_drill_state,
            sip_table_state: self.sip_table_state,
            sip_sort: self.sip_sort,
            sip_window_secs: self.sip_window_secs,
            privacy: self.privacy,
        }
    }
}

// ----------------------------- lists -----------------------------

/// A selection moved by some rows, staying within the list. Without a selection,
/// moving down begins before the first row.
pub open spec fn nudged(sel: Option<usize>, rows: int, len: int) -> Option<usize> {
    if len <= 0 {
        sel
    } else {
        let cur = match sel {
            Some(i) => i as int,
            None => if rows > 0 {
                -1
            } else {
                0
            },
        };
        let to = cur + rows;
        Some(
            (if to < 0 {
                0
            } else if to > len - 1 {
                len - 1
            } else {
                to
            }) as usize,
        )
    }
}

/// Moves a selection by some rows.
pub fn table_nudge(sel: &mut Option<usize>, key: Key, len: usize)
    requires
        key.rows() != 0,
    ensures
        *final(sel) == nudged(*old(sel), key.rows(), len as int),
{
    if len == 0 {
        return ;
    }
    let last: usize = len - 1;
    let (down, n): (bool, usize) = match key {
        Key::Down => (true, 1),
        Key::Up => (false, 1),
        Key::PageDown => (true, PAGE_ROWS as usize),
        _ => (false, PAGE_ROWS as usize),
    };
    let to: usize = match *sel {
        Some(i) => if down {
            if i >= last || last - i < n {
                last
            } else {
                i + n
            }
        } else if i < n {
            0
        } else if i - n > last {
            last
        } else {
            i - n
        },
        None => if !down {
            0
        } else if n - 1 > last {
            last
        } else {
            n - 1
        },
    };
    *sel = Some(to);
}

/// The calls among the first `n` that a filter and some rules let through.
pub open spec fn visible(
    calls: Seq<CallSummary>,
    f: CallFilter,
    rules: Seq<filter::RuleView>,
    n: int,
) -> Seq<usize>
    decreases n,
{
    if n <= 0 {
        Seq::empty()
    } else {
        let s = visible(calls, f, rules, n - 1);
        if f.lets(calls[n - 1].state) && filter::all_match(calls[n - 1].fields(), rules) {
            s.push((n - 1) as usize)
        } else {
            s
        }
    }
}

/// The calls among the first `n` that can be linked as the other leg.
pub open spec fn linkable(
    calls: Seq<CallSummary>,
    primary: Seq<char>,
    rules: Seq<filter::RuleView>,
    n: int,
) -> Seq<usize>
    decreases n,
{
    if n <= 0 {
        Seq::empty()
    } else {
        let s = linkable(calls, primary, rules, n - 1);
        if calls[n - 1].call_id@ != primary && filter::all_match(calls[n - 1].fields(), rules) {
            s.push((n - 1) as usize)
        } else {
            s
        }
    }
}

/// The calls among the first `n` that involve an IP.
pub open spec fn involving(calls: Seq<CallSummary>, ip: IpAddr, n: int) -> Seq<usize>
    decreases n,
{
    if n <= 0 {
        Seq::empty()
    } else {
        let s = involving(calls, ip, n - 1);
        if calls[n - 1].ips@.contains(ip) {
            s.push((n - 1) as usize)
        } else {
            s
        }
    }
}

/// Indexes of calls.
pub open spec fn in_calls(v: Seq<usize>, calls: Seq<CallSummary>) -> bool {
    forall|k: int| 0 <= k < v.len() ==> #[trigger] v[k] < calls.len()
}

/// The calls that the overview lists, in order.
pub fn list_calls(calls: &Vec<CallSummary>, f: CallFilter, rules: &Vec<Rule>) -> (r: Vec<usize>)
    ensures
        r@ == visible(calls@, f, filter::rule_views(rules@), calls@.len() as int),
        in_calls(r@, calls@),
{
    let mut out: Vec<usize> = Vec::new();
    let mut i: usize = 0;
    while i < calls.len()
        invariant
            i <= calls.len(),
            out@ == visible(calls@, f, filter::rule_views(rules@), i as int),
            in_calls(out@, calls@),
        decreases calls.len() - i,
    {
        if f.matches(calls[i].state) && filter::matches(&calls[i], rules) {
            out.push(i);
        }
        i += 1;
    }
    out
}

/// The calls that can be linked to `primary` as its other leg.
pub fn b_leg_candidates(calls: &Vec<CallSummary>, primary: &str, query: &str) -> (r: Vec<usize>)
    ensures
        r@ == linkable(calls@, primary@, filter::query_rules(query@), calls@.len() as int),
        in_calls(r@, calls@),
{
    let rules = filter::parse(query);
    let mut out: Vec<usize> = Vec::new();
    let mut i: usize = 0;
    while i < calls.len()
        invariant
            i <= calls.len(),
            filter::rule_views(rules@) == filter::query_rules(query@),
            out@ == linkable(calls@, primary@, filter::query_rules(query@), i as int),
            in_calls(out@, calls@),
        decreases calls.len() - i,
    {
        let own: bool = str_eq(calls[i].call_id.as_str(), primary);
        if !own && filter::matches(&calls[i], &rules) {
            out.push(i);
        }
        i += 1;
    }
    out
}

/// The calls that involve an IP.
pub fn calls_for_ip(calls: &Vec<CallSummary>, ip: IpAddr) -> (r: Vec<usize>)
    ensures
        r@ == involving(calls@, ip, calls@.len() as int),
        in_calls(r@, calls@),
{
    let mut out: Vec<usize> = Vec::new();
    let mut i: usize = 0;
    while i < calls.len()
        invariant
            i <= calls.len(),
            out@ == involving(calls@, ip, i as int),
            in_calls(out@, calls@),
        decreases calls.len() - i,
    {
        if has_ip(&calls[i].ips, ip) {
            out.push(i);
        }
        i += 1;
    }
    out
}

/// The selected row, or without a selection the first one.
pub open spec fn chosen(sel: Option<usize>, len: int) -> Option<int> {
    match sel {
        Some(i) => if i < len {
            Some(i as int)
        } else {
            None
        },
        None => if len > 0 {
            Some(0)
        } else {
            None
        },
    }
}

fn choose_row(sel: Option<usize>, len: usize) -> (r: Option<usize>)
    ensures
        match chosen(sel, len as int) {
            Some(i) => r is Some && r->Some_0 == i && i < len,
            None => r is None,
        },
{
    match sel {
        Some(i) => if i < len {
            Some(i)
        } else {
            None
        },
        None => if len > 0 {
            Some(0)
        } else {
            None
        },
    }
}

/// The Call-ID of the call at a row.
pub open spec fn id_at(calls: Seq<CallSummary>, rows: Seq<usize>, sel: Option<usize>) -> Option<
    Seq<char>,
> {
    match sel {
        Some(i) => if i < rows.len() {
            Some(calls[rows[i as int] as int].call_id@)
        } else {
            None
        },
        None => None,
    }
}

fn call_at(calls: &Vec<CallSummary>, rows: &Vec<usize>, sel: Option<usize>) -> (r: Option<String>)
    requires
        in_calls(rows@, calls@),
    ensures
        text::opt_text(r) == id_at(calls@, rows@, sel),
{
    match sel {
        Some(i) => if i < rows.len() {
            Some(calls[rows[i]].call_id.clone())
        } else {
            None
        },
        None => None,
    }
}

/// Where the call with an id stands among the rows, from `i` on.
pub open spec fn row_of(calls: Seq<CallSummary>, rows: Seq<usize>, id: Seq<char>, i: int) -> Option<
    usize,
>
    decreases rows.len() - i,
{
    if i >= rows.len() {
        None
    } else if calls[rows[i] as int].call_id@ == id {
        Some(i as usize)
    } else {
        row_of(calls, rows, id, i + 1)
    }
}

fn find_row(calls: &Vec<CallSummary>, rows: &Vec<usize>, id: &str) -> (r: Option<usize>)
    requires
        in_calls(rows@, calls@),
    ensures
        r == row_of(calls@, rows@, id@, 0),
{
    let mut i: usize = 0;
    while i < rows.len()
        invariant
            i <= rows.len(),
            in_calls(rows@, calls@),
            row_of(calls@, rows@, id@, 0) == row_of(calls@, rows@, id@, i as int),
        decreases rows.len() - i,
    {
        if str_eq(calls[rows[i]].call_id.as_str(), id) {
            return Some(i);
        }
        i += 1;
    }
    None
}

// ----------------------------- the model -----------------------------

pub open spec fn or_else(a: Option<Seq<char>>, b: Option<Seq<char>>) -> Option<Seq<char>> {
    if a is Some {
        a
    } else {
        b
    }
}

/// The query that is pinned: none, if it is blank.
pub open spec fn pin_of(q: Seq<char>) -> Option<Seq<char>> {
    if text::trimmed(q).len() > 0 {
        Some(text::trimmed(q))
    } else {
        None
    }
}

impl AppView {
    pub open spec fn fresh() -> AppView {
        AppView {
            paused: false,
            focus_hint: None,
            search_pin: None,
            clear: false,
            export: false,
            page: Page::Overview,
            filter_query: Seq::empty(),
            filter_editing: false,
            filter_backup: Seq::empty(),
            table_state: None,
            focus_pending: None,
            selected_call: None,
            linked_call_id: None,
            b_leg_picker: false,
            b_leg_query: Seq::empty(),
            b_leg_state: None,
            filter: CallFilter::All,
            streams_state: None,
            eventlog_scroll: 0,
            raw_scroll: 0,
            flow_state: None,
            should_quit: false,
            status: Seq::empty(),
            ip_table_state: None,
            ip_sort: IpSort::Newest,
            ip_sort_order: Seq::empty(),
            ip_loss_only: false,
            ip_summary_window: 0,
            ip_window_secs: 60,
            ip_drill: None,
            ip_drill_state: None,
            sip_table_state: None,
            sip_sort: SipSort::Invites,
            sip_window_secs: 60,
            privacy: false,
        }
    }

    pub open spec fn saying(self, s: Seq<char>) -> AppView {
        AppView { status: s, ..self }
    }

    /// The calls that the overview lists.
    #[verifier::opaque]
    pub open spec fn listed(self, s: SeenView) -> Seq<usize> {
        visible(s.calls, self.filter, filter::query_rules(self.filter_query), s.calls.len() as int)
    }

    /// With the selected call remembered.
    #[verifier::opaque]
    pub open spec fn synced(self, s: SeenView) -> AppView {
        AppView { selected_call: id_at(s.calls, self.listed(s), self.table_state), ..self }
    }

    /// With the selection within the list.
    #[verifier::opaque]
    pub open spec fn clamped(self, s: SeenView) -> AppView {
        let n = self.listed(s).len();
        AppView {
            table_state: match self.table_state {
                Some(i) if i < n => Some(i),
                _ => if n > 0 {
                    Some(0)
                } else {
                    None
                },
            },
            ..self
        }.synced(s)
    }

    /// With the selection of the overview moved.
    #[verifier::opaque]
    pub open spec fn moved(self, s: SeenView, key: Key) -> AppView {
        AppView {
            table_state: nudged(self.table_state, key.rows(), self.listed(s).len() as int),
            ..self
        }.synced(s)
    }

    #[verifier::opaque]
    pub open spec fn pinned(self) -> AppView {
        AppView { search_pin: pin_of(self.filter_query), ..self }
    }

    #[verifier::opaque]
    pub open spec fn focused(self, primary: Seq<char>) -> AppView {
        AppView {
            focus_hint: Some(HintView { primary, linked: self.linked_call_id }),
            focus_pending: Some(primary),
            ..self
        }
    }

    #[verifier::opaque]
    pub open spec fn detail_opened(self, id: Seq<char>) -> AppView {
        AppView {
            page: Page::CallDetail,
            raw_scroll: 0,
            flow_state: Some(0),
            ..AppView {
                selected_call: Some(id),
                linked_call_id: None,
                b_leg_picker: false,
                b_leg_query: Seq::empty(),
                ..self
            }.focused(id)
        }
    }

    #[verifier::opaque]
    pub open spec fn detail_closed(self) -> AppView {
        AppView {
            page: Page::Overview,
            focus_pending: None,
            linked_call_id: None,
            b_leg_picker: false,
            b_leg_query: Seq::empty(),
            focus_hint: None,
            ..self
        }
    }

    /// A key while the filter is being edited.
    pub open spec fn edited(self, s: SeenView, key: Key, ctrl: bool) -> AppView {
        match key {
            Key::Char(c) => self.typed(s, c, ctrl),
            Key::Esc => AppView {
                filter_query: self.filter_backup,
                filter_editing: false,
                ..self
            }.pinned(),
            Key::Enter => AppView { filter_editing: false, ..self }.pinned(),
            Key::Down | Key::Up | Key::PageDown | Key::PageUp => self.moved(s, key).pinned(),
            Key::Backspace => AppView {
                filter_query: if self.filter_query.len() > 0 {
                    self.filter_query.drop_last()
                } else {
                    self.filter_query
                },
                ..self
            }.clamped(s).pinned(),
            _ => self.pinned(),
        }
    }

    /// A character typed into the filter; with Control, `c` quits and `u` empties
    /// it.
    pub open spec fn typed(self, s: SeenView, c: char, ctrl: bool) -> AppView {
        if c == 'c' && ctrl {
            AppView { should_quit: true, ..self }
        } else {
            AppView {
                filter_query: if c == 'u' && ctrl {
                    Seq::empty()
                } else {
                    self.filter_query.push(c)
                },
                ..self
            }.clamped(s).pinned()
        }
    }

    /// The call whose other leg is being picked.
    pub open spec fn picking_for(self, s: SeenView) -> Seq<char> {
        match or_else(s.focus, or_else(self.focus_pending, self.selected_call)) {
            Some(id) => id,
            None => Seq::empty(),
        }
    }

    #[verifier::opaque]
    pub open spec fn candidates(self, s: SeenView) -> Seq<usize> {
        linkable(
            s.calls,
            self.picking_for(s),
            filter::query_rules(self.b_leg_query),
            s.calls.len() as int,
        )
    }

    pub open spec fn linked(self, s: SeenView, id: Seq<char>) -> AppView {
        AppView {
            linked_call_id: Some(id),
            b_leg_picker: false,
            b_leg_query: Seq::empty(),
            ..self
        }.focused(self.picking_for(s)).saying("b-leg linked: "@ + id)
    }

    /// A key while the other leg is being picked.
    pub open spec fn picked(self, s: SeenView, key: Key) -> AppView {
        let cands = self.candidates(s);
        match key {
            Key::Esc => AppView { b_leg_picker: false, b_leg_query: Seq::empty(), ..self }.saying(
                "b-leg pick cancelled"@,
            ),
            Key::Enter => match chosen(self.b_leg_state, cands.len() as int) {
                Some(i) => self.linked(s, s.calls[cands[i] as int].call_id@),
                None => self,
            },
            Key::Down | Key::Up | Key::PageDown | Key::PageUp => AppView {
                b_leg_state: nudged(self.b_leg_state, key.rows(), cands.len() as int),
                ..self
            },
            Key::Backspace => AppView {
                b_leg_query: if self.b_leg_query.len() > 0 {
                    self.b_leg_query.drop_last()
                } else {
                    self.b_leg_query
                },
                ..self
            },
            Key::Char(c) => AppView { b_leg_query: self.b_leg_query.push(c), ..self },
            _ => self,
        }
    }

    pub open spec fn filter_opened(self, s: SeenView) -> AppView {
        AppView {
            page: Page::Overview,
            filter_editing: true,
            filter_backup: self.filter_query,
            ..self
        }.clamped(s)
    }

    /// Back: out of the detail or the drill-down; `quit`, where there is nothing to
    /// go back from.
    pub open spec fn backed(self, quit: bool) -> AppView {
        if self.page == Page::CallDetail {
            self.detail_closed()
        } else if self.page == Page::IpStats && self.ip_drill is Some {
            AppView { ip_drill: None, ..self }
        } else if quit {
            AppView { should_quit: true, ..self }
        } else {
            self
        }
    }

    pub open spec fn cleared(self) -> AppView {
        AppView {
            clear: true,
            selected_call: None,
            focus_pending: None,
            linked_call_id: None,
            b_leg_picker: false,
            ip_drill: None,
            ..self
        }.saying("cleared all calls/stats"@)
    }

    /// A key that means something on every page; none, if it does not.
    pub open spec fn global(self, s: SeenView, c: char) -> Option<AppView> {
        if c == ' ' {
            Some(
                AppView { paused: !self.paused, ..self }.saying(
                    if self.paused {
                        "resumed"@
                    } else {
                        "paused"@
                    },
                ),
            )
        } else if '1' <= c <= '6' {
            Some(AppView { page: Page::at(c as u32 - 49), ..self })
        } else if c == '/' {
            Some(self.filter_opened(s))
        } else if c == 'e' {
            Some(AppView { export: true, ..self })
        } else if c == 'p' {
            Some(
                AppView { privacy: !self.privacy, ..self }.saying(
                    if self.privacy {
                        "privacy off"@
                    } else {
                        "privacy on — IPs and numbers masked"@
                    },
                ),
            )
        } else if c == 'f' {
            let f = self.filter.spec_next();
            Some(AppView { filter: f, ..self }.saying("filter = "@ + f.spec_label()))
        } else if c == 'x' {
            Some(self.cleared())
        } else {
            None
        }
    }

    /// A key, when nothing is being typed.
    pub open spec fn commanded(self, s: SeenView, key: Key, ctrl: bool) -> AppView {
        match key {
            Key::Esc => self.backed(true),
            Key::Left => self.backed(false),
            Key::Tab => AppView { page: self.page.spec_turned(true), ..self },
            Key::BackTab => AppView { page: self.page.spec_turned(false), ..self },
            Key::Char(c) => if c == 'c' && ctrl {
                AppView { should_quit: true, ..self }
            } else if c == 'q' {
                self.backed(true)
            } else {
                match self.global(s, c) {
                    Some(v) => v,
                    None => self.paged(s, key),
                }
            },
            _ => self.paged(s, key),
        }
    }

    /// A key on the overview.
    pub open spec fn on_overview(self, s: SeenView, key: Key) -> AppView {
        match key {
            Key::Down | Key::Up | Key::PageDown | Key::PageUp => self.moved(s, key),
            Key::Char(c) => if c != 'c' {
                self
            } else if self.filter_query.len() == 0 {
                self.saying("no filter to clear"@)
            } else {
                AppView {
                    filter_query: Seq::empty(),
                    filter_editing: false,
                    ..self
                }.pinned().clamped(s).saying("filter cleared"@)
            },
            Key::Enter => match chosen(self.table_state, self.listed(s).len() as int) {
                Some(i) => self.detail_opened(s.calls[self.listed(s)[i] as int].call_id@),
                None => self,
            },
            _ => self,
        }
    }

    /// A key on the detail of a call.
    pub open spec fn on_detail(self, s: SeenView, key: Key) -> AppView {
        match key {
            Key::Down | Key::Up => AppView {
                flow_state: nudged(self.flow_state, key.rows(), s.messages),
                ..self
            },
            Key::PageDown => AppView {
                raw_scroll: if self.raw_scroll > usize::MAX - PAGE_ROWS {
                    usize::MAX
                } else {
                    (self.raw_scroll + PAGE_ROWS) as usize
                },
                ..self
            },
            Key::PageUp => AppView {
                raw_scroll: if self.raw_scroll < PAGE_ROWS {
                    0
                } else {
                    (self.raw_scroll - PAGE_ROWS) as usize
                },
                ..self
            },
            Key::Char(c) => if c == 'l' {
                AppView {
                    b_leg_picker: true,
                    b_leg_query: Seq::empty(),
                    b_leg_state: Some(0),
                    ..self
                }.saying("pick b-leg Call-ID (Enter) — Esc cancel"@)
            } else if c == 'L' {
                self.unlinked()
            } else {
                self
            },
            _ => self,
        }
    }

    pub open spec fn unlinked(self) -> AppView {
        let v = AppView { linked_call_id: None, b_leg_picker: false, ..self };
        match or_else(self.focus_pending, self.selected_call) {
            Some(id) => v.focused(id).saying("b-leg unlinked"@),
            None => v,
        }
    }

    /// A key on the event log.
    pub open spec fn on_eventlog(self, key: Key) -> AppView {
        let to = self.eventlog_scroll + key.rows();
        AppView {
            eventlog_scroll: if to < 0 {
                0
            } else if to > u16::MAX {
                u16::MAX
            } else {
                to as u16
            },
            ..self
        }
    }

    /// A key on the SIP stats.
    pub open spec fn on_sip(self, s: SeenView, key: Key) -> AppView {
        match key {
            Key::Down | Key::Up | Key::PageDown | Key::PageUp => AppView {
                sip_table_state: nudged(
                    self.sip_table_state,
                    key.rows(),
                    if s.sip_rows > 0 {
                        s.sip_rows
                    } else {
                        1
                    },
                ),
                ..self
            },
            Key::Char(c) => if c == 's' {
                let x = self.sip_sort.spec_next();
                AppView { sip_sort: x, ..self }.saying("SIP sort = "@ + x.spec_label())
            } else if c == 'w' {
                let w = bucket_after(self.sip_window_secs);
                AppView { sip_window_secs: w, ..self }.saying(
                    "ASR bucket = "@ + text::dec(w as nat) + "s"@,
                )
            } else {
                self
            },
            _ => self,
        }
    }

    /// A key on the calls of one IP.
    pub open spec fn on_drill(self, s: SeenView, ip: IpAddr, key: Key) -> AppView {
        let rows = involving(s.calls, ip, s.calls.len() as int);
        match key {
            Key::Down | Key::Up | Key::PageDown | Key::PageUp => AppView {
                ip_drill_state: nudged(self.ip_drill_state, key.rows(), rows.len() as int),
                ..self
            },
            Key::Enter => match chosen(self.ip_drill_state, rows.len() as int) {
                Some(i) => self.detail_opened(s.calls[rows[i] as int].call_id@),
                None => self,
            },
            _ => self,
        }
    }

    /// A key on the list of IPs.
    pub open spec fn on_ips(self, s: SeenView, key: Key) -> AppView {
        match key {
            Key::Down | Key::Up | Key::PageDown | Key::PageUp => AppView {
                ip_table_state: nudged(self.ip_table_state, key.rows(), s.ips),
                ..self
            },
            Key::Enter => match chosen(self.ip_table_state, self.ip_sort_order.len() as int) {
                Some(i) => AppView {
                    ip_drill: Some(self.ip_sort_order[i]),
                    ip_drill_state: None,
                    ..self
                }.saying(
                    "IP "@ + addr_text::ip_text(self.ip_sort_order[i])
                        + " — calls (Enter to open, Esc back)"@,
                ),
                None => self,
            },
            Key::Char(c) => if c == 's' {
                let x = self.ip_sort.spec_next();
                AppView { ip_sort: x, ip_sort_order: Seq::empty(), ..self }.saying(
                    "IP sort = "@ + x.spec_label(),
                )
            } else if c == 'w' {
                if self.ip_loss_only {
                    let i = ipstats::window_after(self.ip_summary_window);
                    AppView { ip_summary_window: ipstats::window_secs(i), ..self }.saying(
                        "IP loss window = "@ + ipstats::window_name(i),
                    )
                } else {
                    let w = heat_window_after(self.ip_window_secs);
                    AppView { ip_window_secs: w, ..self }.saying(
                        "IP heatmap window = "@ + text::dec(w as nat) + "s"@,
                    )
                }
            } else if c == 'c' {
                AppView { ip_loss_only: !self.ip_loss_only, ..self }.saying(
                    if self.ip_loss_only {
                        "IP view: full"@
                    } else {
                        "IP view: loss-only summary"@
                    },
                )
            } else {
                self
            },
            _ => self,
        }
    }

    /// A key that means something on one page only.
    pub open spec fn paged(self, s: SeenView, key: Key) -> AppView {
        match self.page {
            Page::Overview => self.on_overview(s, key),
            Page::CallDetail => self.on_detail(s, key),
            Page::Streams => AppView {
                streams_state: if key.rows() != 0 {
                    nudged(self.streams_state, key.rows(), s.streams)
                } else {
                    self.streams_state
                },
                ..self
            },
            Page::EventLog => self.on_eventlog(key),
            Page::IpStats => match self.ip_drill {
                Some(ip) => self.on_drill(s, ip, key),
                None => self.on_ips(s, key),
            },
            Page::Heatmap => self.on_sip(s, key),
        }
    }

    /// What a key does. What is being typed takes the keys first.
    pub open spec fn keyed(self, s: SeenView, key: Key, ctrl: bool) -> AppView {
        if self.b_leg_picker {
            self.picked(s, key)
        } else if self.filter_editing {
            self.edited(s, key, ctrl)
        } else {
            self.commanded(s, key, ctrl)
        }
    }

    /// With the selection on the call that it was on, wherever that stands now.
    pub open spec fn anchored(self, s: SeenView) -> AppView {
        match self.selected_call {
            Some(id) => AppView { table_state: row_of(s.calls, self.listed(s), id, 0), ..self },
            None => if self.table_state is Some {
                self.synced(s)
            } else {
                self
            },
        }
    }
}

/// The bucket width that follows, going round.
pub open spec fn bucket_after(secs: u64) -> u64 {
    if secs == 300 {
        900
    } else if secs == 900 {
        60
    } else {
        300
    }
}

/// The heat map window that follows, going round.
pub open spec fn heat_window_after(secs: u64) -> u64 {
    if secs == 60 {
        600
    } else if secs == 600 {
        3600
    } else {
        60
    }
}

// ----------------------------- executable -----------------------------

fn said(s: &str) -> (r: String)
    ensures
        r@ == s@,
{
    let mut t = String::new();
    t.push_str(s);
    assert(t@ =~= s@);
    t
}

/// The text without its last character.
fn shortened(s: &String) -> (r: String)
    ensures
        r@ == if s@.len() > 0 {
            s@.drop_last()
        } else {
            s@
        },
{
    let t = chars_of(s.as_str());
    let n: usize = t.len();
    if n > 0 {
        let c = slice_of(t.as_slice(), 0, n - 1);
        assert(c@ =~= s@.drop_last());
        string_of(c.as_slice())
    } else {
        string_of(t.as_slice())
    }
}

fn blank() -> (r: String)
    ensures
        r@ == Seq::<char>::empty(),
{
    let s = String::new();
    assert(s@ =~= Seq::<char>::empty());
    s
}

impl App {
    pub fn new() -> (r: App)
        ensures
            r@ == AppView::fresh(),
    {
        let r = App {
            paused: false,
            focus_hint: None,
            search_pin: None,
            clear: false,
            export: false,
            page: Page::Overview,
            filter_query: String::new(),
            filter_editing: false,
            filter_backup: String::new(),
            table_state: None,
            focus_pending: None,
            selected_call: None,
            linked_call_id: None,
            b_leg_picker: false,
            b_leg_query: String::new(),
            b_leg_state: None,
            filter: CallFilter::All,
            streams_state: None,
            eventlog_scroll: 0,
            raw_scroll: 0,
            flow_state: None,
            should_quit: false,
            status: String::new(),
            ip_table_state: None,
            ip_sort: IpSort::Newest,
            ip_sort_order: Vec::new(),
            ip_loss_only: false,
            ip_summary_window: 0,
            ip_window_secs: 60,
            ip_drill: None,
            ip_drill_state: None,
            sip_table_state: None,
            sip_sort: SipSort::Invites,
            sip_window_secs: 60,
            privacy: false,
        };
        proof {
            assert(r.filter_query@ =~= Seq::<char>::empty());
            assert(r.filter_backup@ =~= Seq::<char>::empty());
            assert(r.b_leg_query@ =~= Seq::<char>::empty());
            assert(r.status@ =~= Seq::<char>::empty());
        }
        r
    }

    pub fn set_status(&mut self, s: &str)
        ensures
            final(self)@ == old(self)@.saying(s@),
    {
        self.status = said(s);
    }

    /// The calls that the overview lists, in order.
    pub fn filtered_calls(&self, seen: &Seen) -> (r: Vec<usize>)
        ensures
            r@ == self@.listed(seen@),
            in_calls(r@, seen@.calls),
    {
        proof {
            reveal(AppView::listed);
        }
        let rules = filter::parse(self.filter_query.as_str());
        list_calls(seen.calls, self.filter, &rules)
    }

    fn sync_overview_selection(&mut self, seen: &Seen)
        ensures
            final(self)@ == old(self)@.synced(seen@),
    {
        proof {
            reveal(AppView::synced);
        }
        let rows = self.filtered_calls(seen);
        self.selected_call = call_at(seen.calls, &rows, self.table_state);
    }

    fn clamp_overview_selection(&mut self, seen: &Seen)
        ensures
            final(self)@ == old(self)@.clamped(seen@),
    {
        proof {
            reveal(AppView::clamped);
        }
        let n: usize = self.filtered_calls(seen).len();
        self.table_state = match self.table_state {
            Some(i) if i < n => Some(i),
            _ => if n > 0 {
                Some(0)
            } else {
                None
            },
        };
        self.sync_overview_selection(seen);
    }

    fn move_overview(&mut self, seen: &Seen, key: Key)
        requires
            key.rows() != 0,
        ensures
            final(self)@ == old(self)@.moved(seen@, key),
    {
        proof {
            reveal(AppView::moved);
        }
        let n: usize = self.filtered_calls(seen).len();
        table_nudge(&mut self.table_state, key, n);
        self.sync_overview_selection(seen);
    }

    fn sync_search_pin(&mut self)
        ensures
            final(self)@ == old(self)@.pinned(),
    {
        proof {
            reveal(AppView::pinned);
        }
        let q = chars_of(self.filter_query.as_str());
        let t = trim(q.as_slice());
        self.search_pin = if t.len() > 0 {
            Some(string_of(t.as_slice()))
        } else {
            None
        };
    }

    fn publish_focus(&mut self, primary: String)
        ensures
            final(self)@ == old(self)@.focused(primary@),
    {
        proof {
            reveal(AppView::focused);
        }
        self.focus_hint = Some(
            FocusHint { primary: primary.clone(), linked: clone_opt(&self.linked_call_id) },
        );
        self.focus_pending = Some(primary);
    }

    fn open_detail(&mut self, id: String)
        ensures
            final(self)@ == old(self)@.detail_opened(id@),
    {
        proof {
            reveal(AppView::detail_opened);
        }
        self.selected_call = Some(id.clone());
        self.linked_call_id = None;
        self.b_leg_picker = false;
        self.b_leg_query = blank();
        self.publish_focus(id);
        self.page = Page::CallDetail;
        self.raw_scroll = 0;
        self.flow_state = Some(0);
    }

    fn close_detail(&mut self)
        ensures
            final(self)@ == old(self)@.detail_closed(),
    {
        proof {
            reveal(AppView::detail_closed);
        }
        self.page = Page::Overview;
        self.focus_pending = None;
        self.linked_call_id = None;
        self.b_leg_picker = false;
        self.b_leg_query = blank();
        self.focus_hint = None;
    }

    fn set_query(&mut self, seen: &Seen, q: String)
        ensures
            final(self)@ == (AppView { filter_query: q@, ..old(self)@ }).clamped(seen@).pinned(),
    {
        self.filter_query = q;
        self.clamp_overview_selection(seen);
        self.sync_search_pin();
    }

    fn stop_editing(&mut self, q: String)
        ensures
            final(self)@ == (AppView {
                filter_query: q@,
                filter_editing: false,
                ..old(self)@
            }).pinned(),
    {
        self.filter_query = q;
        self.filter_editing = false;
        self.sync_search_pin();
    }

    fn quit(&mut self)
        ensures
            final(self)@ == (AppView { should_quit: true, ..old(self)@ }),
    {
        self.should_quit = true;
    }

    fn type_char(&mut self, seen: &Seen, c: char, ctrl: bool)
        ensures
            final(self)@ == old(self)@.typed(seen@, c, ctrl),
    {
        if c == 'c' && ctrl {
            self.quit();
        } else if c == 'u' && ctrl {
            self.set_query(seen, blank());
        } else {
            let mut q = self.filter_query.clone();
            q.push(c);
            self.set_query(seen, q);
        }
    }

    fn edit_key(&mut self, seen: &Seen, key: Key, ctrl: bool)
        ensures
            final(self)@ == old(self)@.edited(seen@, key, ctrl),
    {
        match key {
            Key::Char(c) => {
                self.type_char(seen, c, ctrl);
            },
            Key::Esc => {
                let q = self.filter_backup.clone();
                self.stop_editing(q);
            },
            Key::Enter => {
                let q = self.filter_query.clone();
                self.stop_editing(q);
            },
            Key::Down | Key::Up | Key::PageDown | Key::PageUp => {
                self.move_overview(seen, key);
                self.sync_search_pin();
            },
            Key::Backspace => {
                let q = shortened(&self.filter_query);
                self.set_query(seen, q);
            },
            _ => {
                self.sync_search_pin();
            },
        }
    }

    fn primary_call(&self, seen: &Seen) -> (r: String)
        ensures
            r@ == self@.picking_for(seen@),
    {
        if let Some(id) = seen.focus {
            return id.clone();
        }
        if let Some(id) = &self.focus_pending {
            return id.clone();
        }
        if let Some(id) = &self.selected_call {
            return id.clone();
        }
        blank()
    }

    fn link_leg(&mut self, primary: String, id: String)
        ensures
            final(self)@ == (AppView {
                linked_call_id: Some(id@),
                b_leg_picker: false,
                b_leg_query: Seq::empty(),
                ..old(self)@
            }).focused(primary@).saying("b-leg linked: "@ + id@),
    {
        let mut s = said("b-leg linked: ");
        s.push_str(id.as_str());
        self.linked_call_id = Some(id);
        self.b_leg_picker = false;
        self.b_leg_query = blank();
        self.publish_focus(primary);
        self.status = s;
    }

    fn cancel_pick(&mut self)
        ensures
            final(self)@ == (AppView {
                b_leg_picker: false,
                b_leg_query: Seq::empty(),
                ..old(self)@
            }).saying("b-leg pick cancelled"@),
    {
        self.b_leg_picker = false;
        self.b_leg_query = blank();
        self.set_status("b-leg pick cancelled");
    }

    fn move_pick(&mut self, key: Key, len: usize)
        requires
            key.rows() != 0,
        ensures
            final(self)@ == (AppView {
                b_leg_state: nudged(old(self)@.b_leg_state, key.rows(), len as int),
                ..old(self)@
            }),
    {
        table_nudge(&mut self.b_leg_state, key, len);
    }

    fn set_pick_query(&mut self, q: String)
        ensures
            final(self)@ == (AppView { b_leg_query: q@, ..old(self)@ }),
    {
        self.b_leg_query = q;
    }

    fn b_leg_picker_key(&mut self, seen: &Seen, key: Key)
        ensures
            final(self)@ == old(self)@.picked(seen@, key),
    {
        let primary = self.primary_call(seen);
        let cands = b_leg_candidates(seen.calls, primary.as_str(), self.b_leg_query.as_str());
        proof {
            reveal(AppView::candidates);
        }
        assert(cands@ == self@.candidates(seen@));
        match key {
            Key::Esc => {
                self.cancel_pick();
            },
            Key::Enter => {
                if let Some(i) = choose_row(self.b_leg_state, cands.len()) {
                    let id = seen.calls[cands[i]].call_id.clone();
                    self.link_leg(primary, id);
                }
            },
            Key::Down | Key::Up | Key::PageDown | Key::PageUp => {
                self.move_pick(key, cands.len());
            },
            Key::Backspace => {
                let q = shortened(&self.b_leg_query);
                self.set_pick_query(q);
            },
            Key::Char(c) => {
                let mut q = self.b_leg_query.clone();
                q.push(c);
                self.set_pick_query(q);
            },
            _ => {},
        }
    }

    fn go_back(&mut self, quit: bool)
        ensures
            final(self)@ == old(self)@.backed(quit),
    {
        if self.page == Page::CallDetail {
            self.close_detail();
        } else if self.page == Page::IpStats && self.ip_drill.is_some() {
            self.ip_drill = None;
        } else if quit {
            self.should_quit = true;
        }
    }

    fn clear_all(&mut self)
        ensures
            final(self)@ == old(self)@.cleared(),
    {
        self.clear = true;
        self.selected_call = None;
        self.focus_pending = None;
        self.linked_call_id = None;
        self.b_leg_picker = false;
        self.ip_drill = None;
        self.set_status("cleared all calls/stats");
    }

    fn toggle_pause(&mut self)
        ensures
            forall|s: SeenView| Some(final(self)@) == #[trigger] old(self)@.global(s, ' '),
    {
        self.paused = !self.paused;
        if self.paused {
            self.set_status("paused");
        } else {
            self.set_status("resumed");
        }
    }

    fn turn_to(&mut self, page: Page)
        ensures
            final(self)@ == (AppView { page, ..old(self)@ }),
    {
        self.page = page;
    }

    fn open_filter(&mut self, seen: &Seen)
        ensures
            final(self)@ == old(self)@.filter_opened(seen@),
    {
        self.page = Page::Overview;
        self.filter_editing = true;
        self.filter_backup = self.filter_query.clone();
        self.clamp_overview_selection(seen);
    }

    fn toggle_privacy(&mut self)
        ensures
            forall|s: SeenView| Some(final(self)@) == #[trigger] old(self)@.global(s, 'p'),
    {
        self.privacy = !self.privacy;
        if self.privacy {
            self.set_status("privacy on — IPs and numbers masked");
        } else {
            self.set_status("privacy off");
        }
    }

    fn next_filter(&mut self)
        ensures
            forall|s: SeenView| Some(final(self)@) == #[trigger] old(self)@.global(s, 'f'),
    {
        self.filter = self.filter.next();
        let mut s = said("filter = ");
        s.push_str(self.filter.label());
        self.status = s;
    }

    fn want_export(&mut self)
        ensures
            final(self)@ == (AppView { export: true, ..old(self)@ }),
    {
        self.export = true;
    }

    /// A key that means something on every page; false, if it does not.
    fn global_key(&mut self, seen: &Seen, c: char) -> (r: bool)
        ensures
            match old(self)@.global(seen@, c) {
                Some(v) => r && final(self)@ == v,
                None => !r && final(self)@ == old(self)@,
            },
    {
        if c == ' ' {
            self.toggle_pause();
        } else if c >= '1' && c <= '6' {
            self.turn_to(Page::from_index((c as u8 - 49) as usize));
        } else if c == '/' {
            self.open_filter(seen);
        } else if c == 'e' {
            self.want_export();
        } else if c == 'p' {
            self.toggle_privacy();
        } else if c == 'f' {
            self.next_filter();
        } else if c == 'x' {
            self.clear_all();
        } else {
            return false;
        }
        true
    }

    fn command_key(&mut self, seen: &Seen, key: Key, ctrl: bool)
        ensures
            final(self)@ == old(self)@.commanded(seen@, key, ctrl),
    {
        match key {
            Key::Esc => {
                self.go_back(true);
            },
            Key::Left => {
                self.go_back(false);
            },
            Key::Tab => {
                let page: Page = self.page.turned(true);
                self.turn_to(page);
            },
            Key::BackTab => {
                let page: Page = self.page.turned(false);
                self.turn_to(page);
            },
            Key::Char(c) => {
                if c == 'c' && ctrl {
                    self.quit();
                } else if c == 'q' {
                    self.go_back(true);
                } else {
                    let done: bool = self.global_key(seen, c);
                    if !done {
                        self.page_key(seen, key);
                    }
                }
            },
            _ => {
                self.page_key(seen, key);
            },
        }
    }

    fn overview_key(&mut self, seen: &Seen, key: Key)
        ensures
            final(self)@ == old(self)@.on_overview(seen@, key),
    {
        match key {
            Key::Down | Key::Up | Key::PageDown | Key::PageUp => {
                self.move_overview(seen, key);
            },
            Key::Char(c) => {
                if c == 'c' {
                    let n: usize = self.filter_query.as_str().unicode_len();
                    if n == 0 {
                        self.set_status("no filter to clear");
                    } else {
                        self.stop_editing(blank());
                        self.clamp_overview_selection(seen);
                        self.set_status("filter cleared");
                    }
                }
            },
            Key::Enter => {
                let rows = self.filtered_calls(seen);
                if let Some(i) = choose_row(self.table_state, rows.len()) {
                    let id = seen.calls[rows[i]].call_id.clone();
                    self.open_detail(id);
                }
            },
            _ => {},
        }
    }

    fn clear_b_leg_link(&mut self)
        ensures
            final(self)@ == old(self)@.unlinked(),
    {
        self.linked_call_id = None;
        self.b_leg_picker = false;
        let id: Option<String> = match &self.focus_pending {
            Some(id) => Some(id.clone()),
            None => clone_opt(&self.selected_call),
        };
        if let Some(id) = id {
            self.publish_focus(id);
            self.set_status("b-leg unlinked");
        }
    }

    fn open_b_leg_picker(&mut self)
        ensures
            final(self)@ == (AppView {
                b_leg_picker: true,
                b_leg_query: Seq::empty(),
                b_leg_state: Some(0),
                ..old(self)@
            }).saying("pick b-leg Call-ID (Enter) — Esc cancel"@),
    {
        self.b_leg_picker = true;
        self.b_leg_query = blank();
        self.b_leg_state = Some(0);
        self.set_status("pick b-leg Call-ID (Enter) — Esc cancel");
    }

    fn scroll_raw(&mut self, to: usize)
        ensures
            final(self)@ == (AppView { raw_scroll: to, ..old(self)@ }),
    {
        self.raw_scroll = to;
    }

    fn move_flow(&mut self, key: Key, len: usize)
        requires
            key.rows() != 0,
        ensures
            final(self)@ == (AppView {
                flow_state: nudged(old(self)@.flow_state, key.rows(), len as int),
                ..old(self)@
            }),
    {
        table_nudge(&mut self.flow_state, key, len);
    }

    fn detail_key(&mut self, seen: &Seen, key: Key)
        ensures
            final(self)@ == old(self)@.on_detail(seen@, key),
    {
        match key {
            Key::Down | Key::Up => {
                self.move_flow(key, seen.messages);
            },
            Key::PageDown => {
                let to: usize = if self.raw_scroll > usize::MAX - PAGE_ROWS as usize {
                    usize::MAX
                } else {
                    self.raw_scroll + PAGE_ROWS as usize
                };
                self.scroll_raw(to);
            },
            Key::PageUp => {
                let to: usize = self.raw_scroll.saturating_sub(PAGE_ROWS as usize);
                self.scroll_raw(to);
            },
            Key::Char(c) => {
                if c == 'l' {
                    self.open_b_leg_picker();
                } else if c == 'L' {
                    self.clear_b_leg_link();
                }
            },
            _ => {},
        }
    }

    fn eventlog_key(&mut self, key: Key)
        ensures
            final(self)@ == old(self)@.on_eventlog(key),
    {
        let at: u16 = self.eventlog_scroll;
        self.eventlog_scroll = match key {
            Key::Down => if at < u16::MAX {
                at + 1
            } else {
                at
            },
            Key::Up => at.saturating_sub(1),
            Key::PageDown => if at > u16::MAX - PAGE_ROWS {
                u16::MAX
            } else {
                at + PAGE_ROWS
            },
            Key::PageUp => at.saturating_sub(PAGE_ROWS),
            _ => at,
        };
    }

    fn sip_key(&mut self, seen: &Seen, key: Key)
        ensures
            final(self)@ == old(self)@.on_sip(seen@, key),
    {
        match key {
            Key::Down | Key::Up | Key::PageDown | Key::PageUp => {
                let n: usize = if seen.sip_rows > 0 {
                    seen.sip_rows
                } else {
                    1
                };
                table_nudge(&mut self.sip_table_state, key, n);
            },
            Key::Char(c) => {
                if c == 's' {
                    self.sip_sort = self.sip_sort.next();
                    let mut s = said("SIP sort = ");
                    s.push_str(self.sip_sort.label());
                    self.status = s;
                } else if c == 'w' {
                    self.sip_window_secs = match self.sip_window_secs {
                        300 => 900,
                        900 => 60,
                        _ => 300,
                    };
                    let mut s = said("ASR bucket = ");
                    push_dec(&mut s, self.sip_window_secs);
                    s.push_str("s");
                    self.status = s;
                }
            },
            _ => {},
        }
    }

    fn drill_key(&mut self, seen: &Seen, ip: IpAddr, key: Key)
        ensures
            final(self)@ == old(self)@.on_drill(seen@, ip, key),
    {
        let rows = calls_for_ip(seen.calls, ip);
        match key {
            Key::Down | Key::Up | Key::PageDown | Key::PageUp => {
                table_nudge(&mut self.ip_drill_state, key, rows.len());
            },
            Key::Enter => {
                if let Some(i) = choose_row(self.ip_drill_state, rows.len()) {
                    let id = seen.calls[rows[i]].call_id.clone();
                    self.open_detail(id);
                }
            },
            _ => {},
        }
    }

    /// The keys `s`, `w` and `c` on the list of IPs.
    fn ip_letter(&mut self, c: char)
        ensures
            forall|s: SeenView| final(self)@ == #[trigger] old(self)@.on_ips(s, Key::Char(c)),
    {
        if c == 's' {
            self.ip_sort = self.ip_sort.next();
            self.ip_sort_order = Vec::new();
            let mut s = said("IP sort = ");
            s.push_str(self.ip_sort.label());
            self.status = s;
        } else if c == 'w' {
            if self.ip_loss_only {
                let i: usize = next_loss_window(self.ip_summary_window);
                let w: (u64, &'static str) = loss_window(i);
                self.ip_summary_window = w.0;
                let mut s = said("IP loss window = ");
                s.push_str(w.1);
                self.status = s;
            } else {
                self.ip_window_secs = match self.ip_window_secs {
                    60 => 600,
                    600 => 3600,
                    _ => 60,
                };
                let mut s = said("IP heatmap window = ");
                push_dec(&mut s, self.ip_window_secs);
                s.push_str("s");
                self.status = s;
            }
        } else if c == 'c' {
            self.ip_loss_only = !self.ip_loss_only;
            if self.ip_loss_only {
                self.set_status("IP view: loss-only summary");
            } else {
                self.set_status("IP view: full");
            }
        }
    }

    fn ip_key(&mut self, seen: &Seen, key: Key)
        ensures
            final(self)@ == old(self)@.on_ips(seen@, key),
    {
        match key {
            Key::Down | Key::Up | Key::PageDown | Key::PageUp => {
                table_nudge(&mut self.ip_table_state, key, seen.ips);
            },
            Key::Enter => {
                if let Some(i) = choose_row(self.ip_table_state, self.ip_sort_order.len()) {
                    let ip = self.ip_sort_order[i];
                    self.ip_drill = Some(ip);
                    self.ip_drill_state = None;
                    let mut s = said("IP ");
                    push_ip(&mut s, ip);
                    s.push_str(" — calls (Enter to open, Esc back)");
                    self.status = s;
                }
            },
            Key::Char(c) => {
                self.ip_letter(c);
            },
            _ => {},
        }
    }

    fn page_key(&mut self, seen: &Seen, key: Key)
        ensures
            final(self)@ == old(self)@.paged(seen@, key),
    {
        match self.page {
            Page::Overview => {
                self.overview_key(seen, key);
            },
            Page::CallDetail => {
                self.detail_key(seen, key);
            },
            Page::Streams => match key {
                Key::Down | Key::Up | Key::PageDown | Key::PageUp => {
                    table_nudge(&mut self.streams_state, key, seen.streams);
                },
                _ => {},
            },
            Page::EventLog => {
                self.eventlog_key(key);
            },
            Page::IpStats => match self.ip_drill {
                Some(ip) => {
                    self.drill_key(seen, ip, key);
                },
                None => {
                    self.ip_key(seen, key);
                },
            },
            Page::Heatmap => {
                self.sip_key(seen, key);
            },
        }
    }

    /// Takes a key; `ctrl` tells whether it was pressed with Control.
    pub fn on_key(&mut self, seen: &Seen, key: Key, ctrl: bool)
        ensures
            final(self)@ == old(self)@.keyed(seen@, key, ctrl),
    {
        if self.b_leg_picker {
            self.b_leg_picker_key(seen, key);
        } else if self.filter_editing {
            self.edit_key(seen, key, ctrl);
        } else {
            self.command_key(seen, key, ctrl);
        }
    }

    /// Keeps the selection on the same call as calls come and go.
    pub fn anchor_overview_selection(&mut self, seen: &Seen)
        ensures
            final(self)@ == old(self)@.anchored(seen@),
    {
        if let Some(id) = &self.selected_call {
            let rows = self.filtered_calls(seen);
            let at: Option<usize> = find_row(seen.calls, &rows, id.as_str());
            self.table_state = at;
        } else if self.table_state.is_some() {
            self.sync_overview_selection(seen);
        }
    }
}

// ----------------------------- laws -----------------------------

/// A selection stays within the list, and once there it never leaves it.
pub proof fn law_selection_within(sel: Option<usize>, rows: int, len: int)
    requires
        0 < len <= usize::MAX,
    ensures
        nudged(sel, rows, len) is Some,
        nudged(sel, rows, len)->Some_0 < len,
{
}

/// Leaving the filter with Esc brings back the query that stood before editing
/// began, whatever was typed.
pub proof fn law_esc_restores_query(v: AppView, s: SeenView, t: SeenView, typed: AppView)
    requires
        !v.b_leg_picker,
        !v.filter_editing,
        typed.filter_backup == v.keyed(s, Key::Char('/'), false).filter_backup,
        typed.filter_editing,
        !typed.b_leg_picker,
    ensures
        typed.keyed(t, Key::Esc, false).filter_query == v.filter_query,
        !typed.keyed(t, Key::Esc, false).filter_editing,
{
    reveal(AppView::clamped);
    reveal(AppView::synced);
    reveal(AppView::pinned);
}

/// Typing into the filter keeps the query to go back to, and goes on until Esc,
/// Enter or Control-C.
pub proof fn law_typing_goes_on(v: AppView, s: SeenView, c: char)
    requires
        !v.b_leg_picker,
        v.filter_editing,
    ensures
        ({
            let w = v.keyed(s, Key::Char(c), false);
            w.filter_editing && !w.b_leg_picker && w.filter_backup == v.filter_backup
                && w.filter_query == v.filter_query.push(c) && w.page == v.page
        }),
{
    reveal(AppView::clamped);
    reveal(AppView::synced);
    reveal(AppView::pinned);
}

/// What is typed while the other leg is picked never leaves the page or quits.
pub proof fn law_picker_captures(v: AppView, s: SeenView, key: Key, ctrl: bool)
    requires
        v.b_leg_picker,
    ensures
        v.keyed(s, key, ctrl).page == v.page,
        v.keyed(s, key, ctrl).should_quit == v.should_quit,
{
    reveal(AppView::focused);
}

/// Closing the detail of a call gives up its focus and its other leg.
pub proof fn law_back_from_detail(v: AppView, s: SeenView)
    requires
        !v.b_leg_picker,
        !v.filter_editing,
        v.page == Page::CallDetail,
    ensures
        ({
            let w = v.keyed(s, Key::Esc, false);
            w.page == Page::Overview && w.focus_hint is None && w.linked_call_id is None
                && w.should_quit == v.should_quit
        }),
{
    reveal(AppView::detail_closed);
}

proof fn lemma_row_of(calls: Seq<CallSummary>, rows: Seq<usize>, id: Seq<char>, i: int)
    requires
        0 <= i <= rows.len() <= usize::MAX,
    ensures
        row_of(calls, rows, id, i) matches Some(k) ==> i <= k < rows.len()
            && calls[rows[k as int] as int].call_id@ == id,
    decreases rows.len() - i,
{
    if i < rows.len() {
        lemma_row_of(calls, rows, id, i + 1);
    }
}

/// Anchoring keeps the selection on the remembered call: where the list still has
/// it, the selected row is that call's.
pub proof fn law_anchor_follows_call(v: AppView, s: SeenView)
    requires
        v.selected_call is Some,
        v.listed(s).len() <= usize::MAX,
    ensures
        v.anchored(s).selected_call == v.selected_call,
        v.anchored(s).table_state is Some ==> id_at(s.calls, v.listed(s), v.anchored(s).table_state)
            == v.selected_call,
{
    lemma_row_of(s.calls, v.listed(s), v.selected_call->Some_0, 0);
}

} // verus!
