//! What the keys do, and which calls the lists show.
use crate::filter;
use crate::filter::CallLike;
use crate::model::addr::IpAddr;
use crate::store::ipstats;
use crate::store::snapshot::CallSummary;
use crate::text;
use crate::ui::app::{
    chosen, id_at, involving, linkable, nudged, pin_of, visible, AppView, HintView, Key, SeenView,
};
use crate::ui::pages::{CallFilter, IpSort, Page, SipSort};
use vstd::prelude::*;

verus! {

/// Keys are commands: neither is a call picked nor the filter edited.
pub open spec fn commanding(v: AppView) -> bool {
    !v.b_leg_picker && !v.filter_editing
}

// ----------------------------- lists -----------------------------

/// A call stands in the list where its state is let through and every rule matches it, and nowhere else; the
/// list keeps the order of the calls.
pub proof fn law_listed(
    calls: Seq<CallSummary>,
    f: CallFilter,
    rules: Seq<filter::RuleView>,
    n: int,
    k: int,
)
    requires
        0 <= n <= calls.len() <= usize::MAX,
        0 <= k < n,
    ensures
        visible(calls, f, rules, n).contains(k as usize) <==> f.lets(calls[k].state)
            && filter::all_match(calls[k].fields(), rules),
        forall|i: int|
            0 <= i < visible(calls, f, rules, n).len() ==> #[trigger] visible(
                calls,
                f,
                rules,
                n,
            )[i] < n,
        forall|i: int, j: int|
            0 <= i < j < visible(calls, f, rules, n).len() ==> #[trigger] visible(
                calls,
                f,
                rules,
                n,
            )[i] < #[trigger] visible(calls, f, rules, n)[j],
    decreases n,
{
    let a = visible(calls, f, rules, n - 1);
    let b = visible(calls, f, rules, n);
    if n > 1 {
        law_listed(calls, f, rules, n - 1, if k < n - 1 {
            k
        } else {
            0
        });
    } else {
        assert(a.len() == 0);
    }
    if k < n - 1 {
        if a.contains(k as usize) {
            let i = choose|i: int| 0 <= i < a.len() && a[i] == k as usize;
            assert(b[i] == k as usize);
        } else if b.contains(k as usize) {
            let i = choose|i: int| 0 <= i < b.len() && b[i] == k as usize;
            assert(a[i] == k as usize);
        }
    } else if f.lets(calls[k].state) && filter::all_match(calls[k].fields(), rules) {
        assert(b[a.len() as int] == k as usize);
    } else if b.contains(k as usize) {
        let i = choose|i: int| 0 <= i < b.len() && b[i] == k as usize;
        assert(a[i] < n - 1);
    }
}

/// Another leg can be any other call that the rules match.
pub proof fn law_candidates(
    calls: Seq<CallSummary>,
    primary: Seq<char>,
    rules: Seq<filter::RuleView>,
    n: int,
    k: int,
)
    requires
        0 <= n <= calls.len() <= usize::MAX,
        0 <= k < n,
    ensures
        linkable(calls, primary, rules, n).contains(k as usize) <==> calls[k].call_id@ != primary
            && filter::all_match(calls[k].fields(), rules),
        forall|i: int|
            0 <= i < linkable(calls, primary, rules, n).len() ==> #[trigger] linkable(
                calls,
                primary,
                rules,
                n,
            )[i] < n,
    decreases n,
{
    let a = linkable(calls, primary, rules, n - 1);
    let b = linkable(calls, primary, rules, n);
    if n > 1 {
        law_candidates(calls, primary, rules, n - 1, if k < n - 1 {
            k
        } else {
            0
        });
    } else {
        assert(a.len() == 0);
    }
    if k < n - 1 {
        if a.contains(k as usize) {
            let i = choose|i: int| 0 <= i < a.len() && a[i] == k as usize;
            assert(b[i] == k as usize);
        } else if b.contains(k as usize) {
            let i = choose|i: int| 0 <= i < b.len() && b[i] == k as usize;
            assert(a[i] == k as usize);
        }
    } else if calls[k].call_id@ != primary && filter::all_match(calls[k].fields(), rules) {
        assert(b[a.len() as int] == k as usize);
    } else if b.contains(k as usize) {
        let i = choose|i: int| 0 <= i < b.len() && b[i] == k as usize;
        assert(a[i] < n - 1);
    }
}

/// The list of the overview holds the calls that the filter on states lets through and the query finds; the
/// list to pick from holds those that the picker's query finds, but for the call itself.
pub proof fn law_screen_lists(v: AppView, s: SeenView, k: int)
    requires
        0 <= k < s.calls.len() <= usize::MAX,
    ensures
        v.listed(s).contains(k as usize) <==> v.filter.lets(s.calls[k].state) && filter::all_match(
            s.calls[k].fields(),
            filter::query_rules(v.filter_query),
        ),
        v.candidates(s).contains(k as usize) <==> s.calls[k].call_id@ != v.picking_for(s)
            && filter::all_match(s.calls[k].fields(), filter::query_rules(v.b_leg_query)),
{
    reveal(AppView::listed);
    reveal(AppView::candidates);
    law_listed(
        s.calls,
        v.filter,
        filter::query_rules(v.filter_query),
        s.calls.len() as int,
        k,
    );
    law_candidates(
        s.calls,
        v.picking_for(s),
        filter::query_rules(v.b_leg_query),
        s.calls.len() as int,
        k,
    );
}

/// The fields of a call that a query looks at are its own.
pub proof fn law_query_fields(c: CallSummary)
    ensures
        c.fields().call_id == c.call_id@,
        c.fields().caller == text::opt_text(c.from_user),
        c.fields().callee == text::opt_text(c.to_user),
        c.fields().ips == c.ips@,
{
}

/// The calls of an IP are those that name it among their addresses.
pub proof fn law_calls_of_ip(calls: Seq<CallSummary>, ip: IpAddr, n: int, k: int)
    requires
        0 <= n <= calls.len() <= usize::MAX,
        0 <= k < n,
    ensures
        involving(calls, ip, n).contains(k as usize) <==> calls[k].ips@.contains(ip),
        forall|i: int|
            0 <= i < involving(calls, ip, n).len() ==> #[trigger] involving(calls, ip, n)[i] < n,
    decreases n,
{
    let a = involving(calls, ip, n - 1);
    let b = involving(calls, ip, n);
    if n > 1 {
        law_calls_of_ip(calls, ip, n - 1, if k < n - 1 {
            k
        } else {
            0
        });
    } else {
        assert(a.len() == 0);
    }
    if k < n - 1 {
        if a.contains(k as usize) {
            let i = choose|i: int| 0 <= i < a.len() && a[i] == k as usize;
            assert(b[i] == k as usize);
        } else if b.contains(k as usize) {
            let i = choose|i: int| 0 <= i < b.len() && b[i] == k as usize;
            assert(a[i] == k as usize);
        }
    } else if calls[k].ips@.contains(ip) {
        assert(b[a.len() as int] == k as usize);
    } else if b.contains(k as usize) {
        let i = choose|i: int| 0 <= i < b.len() && b[i] == k as usize;
        assert(a[i] < n - 1);
    }
}

/// A call matches a query where it matches every rule of it.
pub proof fn law_every_rule(f: filter::Fields, rules: Seq<filter::RuleView>)
    ensures
        filter::all_match(f, rules) <==> forall|i: int|
            0 <= i < rules.len() ==> filter::rule_matches(f, #[trigger] rules[i]),
        filter::all_match(f, Seq::empty()),
{
}

/// A filter on a state shows calls in that state alone, and the one on none shows all.
pub proof fn law_state_filters(s: CallFilter, x: crate::model::sip::CallState)
    ensures
        CallFilter::All.lets(x),
        s != CallFilter::All && s != CallFilter::Completed ==> (s.lets(x) <==> s.spec_label()
            == text::lower(x.spec_label())),
        CallFilter::Completed.lets(x) <==> x == crate::model::sip::CallState::Completed,
{
    reveal_strlit("Dialing");
    reveal_strlit("Ringing");
    reveal_strlit("Active");
    reveal_strlit("Completed");
    reveal_strlit("Failed");
    reveal_strlit("Canceled");
    reveal_strlit("dialing");
    reveal_strlit("ringing");
    reveal_strlit("active");
    reveal_strlit("failed");
    reveal_strlit("canceled");
    let l = text::lower(x.spec_label());
    assert(l[0] == text::lower_char(x.spec_label()[0]));
    match x {
        crate::model::sip::CallState::Dialing => { assert(l =~= "dialing"@) },
        crate::model::sip::CallState::Ringing => { assert(l =~= "ringing"@) },
        crate::model::sip::CallState::Active => { assert(l =~= "active"@) },
        crate::model::sip::CallState::Completed => {
            assert(l.len() == 9);
        },
        crate::model::sip::CallState::Failed => { assert(l =~= "failed"@) },
        crate::model::sip::CallState::Canceled => { assert(l =~= "canceled"@) },
    }
}

// ----------------------------- moving -----------------------------

/// A key moves a selection by its rows, one or ten, and stops at the ends of the list; the first move down
/// begins at the top.
pub proof fn law_moves(i: usize, len: int)
    requires
        0 <= i < len <= usize::MAX,
    ensures
        i + 1 < len ==> nudged(Some(i), Key::Down.rows(), len) == Some((i + 1) as usize),
        i + 1 == len ==> nudged(Some(i), Key::Down.rows(), len) == Some(i),
        i > 0 ==> nudged(Some(i), Key::Up.rows(), len) == Some((i - 1) as usize),
        i == 0 ==> nudged(Some(i), Key::Up.rows(), len) == Some(0usize),
        i + 10 < len ==> nudged(Some(i), Key::PageDown.rows(), len) == Some((i + 10) as usize),
        i + 10 >= len ==> nudged(Some(i), Key::PageDown.rows(), len) == Some((len - 1) as usize),
        i >= 10 ==> nudged(Some(i), Key::PageUp.rows(), len) == Some((i - 10) as usize),
        i < 10 ==> nudged(Some(i), Key::PageUp.rows(), len) == Some(0usize),
        nudged(None, Key::Down.rows(), len) == Some(0usize),
        nudged(None, Key::Up.rows(), len) == Some(0usize),
        nudged(Some(i), Key::Down.rows(), 0) == Some(i),
{
}

/// The row that Enter opens is the selected one, or the first where none is.
pub proof fn law_chosen(sel: Option<usize>, len: int)
    requires
        len >= 0,
    ensures
        sel matches Some(i) ==> (chosen(sel, len) == Some(i as int) <==> i < len) && (chosen(
            sel,
            len,
        ) is None <==> i >= len),
        sel is None && len > 0 ==> chosen(sel, len) == Some(0int),
        sel is None && len == 0 ==> chosen(sel, len) is None,
{
}

/// On the overview the arrows move the selection in the list, and the selected call goes with it.
pub proof fn law_overview_moves(v: AppView, s: SeenView, key: Key, ctrl: bool)
    requires
        commanding(v),
        v.page == Page::Overview,
        key == Key::Down || key == Key::Up || key == Key::PageDown || key == Key::PageUp,
    ensures
        ({
            let w = v.keyed(s, key, ctrl);
            &&& w.table_state == nudged(v.table_state, key.rows(), v.listed(s).len() as int)
            &&& w.selected_call == id_at(s.calls, v.listed(s), w.table_state)
            &&& w == (AppView {
                table_state: w.table_state,
                selected_call: w.selected_call,
                ..v
            })
        }),
{
    reveal(AppView::moved);
    reveal(AppView::synced);
    reveal(AppView::listed);
}

/// Enter on the overview opens the chosen call: its detail, with nothing scrolled and no other leg.
pub proof fn law_enter_opens(v: AppView, s: SeenView, ctrl: bool)
    requires
        commanding(v),
        v.page == Page::Overview,
    ensures
        ({
            let w = v.keyed(s, Key::Enter, ctrl);
            match chosen(v.table_state, v.listed(s).len() as int) {
                Some(i) => {
                    let id = s.calls[v.listed(s)[i] as int].call_id@;
                    &&& w.page == Page::CallDetail
                    &&& w.selected_call == Some(id)
                    &&& w.focus_pending == Some(id)
                    &&& w.focus_hint == Some(HintView { primary: id, linked: None })
                    &&& w.linked_call_id is None
                    &&& w.raw_scroll == 0
                    &&& w.flow_state == Some(0usize)
                    &&& w.filter_query == v.filter_query
                    &&& w.table_state == v.table_state
                },
                None => w == v,
            }
        }),
{
    reveal(AppView::detail_opened);
    reveal(AppView::focused);
}

/// In the detail of a call the arrows move among its messages and the page keys scroll its text by ten lines.
pub proof fn law_detail_moves(v: AppView, s: SeenView, ctrl: bool)
    requires
        commanding(v),
        v.page == Page::CallDetail,
        v.raw_scroll < usize::MAX - 10,
    ensures
        v.keyed(s, Key::Down, ctrl) == (AppView {
            flow_state: nudged(v.flow_state, 1, s.messages),
            ..v
        }),
        v.keyed(s, Key::Up, ctrl) == (AppView {
            flow_state: nudged(v.flow_state, -1, s.messages),
            ..v
        }),
        v.keyed(s, Key::PageDown, ctrl) == (AppView {
            raw_scroll: (v.raw_scroll + 10) as usize,
            ..v
        }),
        v.raw_scroll >= 10 ==> v.keyed(s, Key::PageUp, ctrl) == (AppView {
            raw_scroll: (v.raw_scroll - 10) as usize,
            ..v
        }),
        v.raw_scroll < 10 ==> v.keyed(s, Key::PageUp, ctrl) == (AppView { raw_scroll: 0, ..v }),
{
}

/// The log of events scrolls by a line or by ten, and not above its beginning.
pub proof fn law_log_scrolls(v: AppView, s: SeenView, ctrl: bool)
    requires
        commanding(v),
        v.page == Page::EventLog,
        10 <= v.eventlog_scroll <= 60000,
    ensures
        v.keyed(s, Key::Down, ctrl).eventlog_scroll == v.eventlog_scroll + 1,
        v.keyed(s, Key::Up, ctrl).eventlog_scroll == v.eventlog_scroll - 1,
        v.keyed(s, Key::PageDown, ctrl).eventlog_scroll == v.eventlog_scroll + 10,
        v.keyed(s, Key::PageUp, ctrl).eventlog_scroll == v.eventlog_scroll - 10,
        (AppView { eventlog_scroll: 0, ..v }).keyed(s, Key::Up, ctrl).eventlog_scroll == 0,
{
}

/// The other pages move their own selection.
pub proof fn law_tables_move(v: AppView, s: SeenView, key: Key, ctrl: bool)
    requires
        commanding(v),
        key == Key::Down || key == Key::Up || key == Key::PageDown || key == Key::PageUp,
    ensures
        v.page == Page::Streams ==> v.keyed(s, key, ctrl) == (AppView {
            streams_state: nudged(v.streams_state, key.rows(), s.streams),
            ..v
        }),
        v.page == Page::Heatmap && s.sip_rows > 0 ==> v.keyed(s, key, ctrl) == (AppView {
            sip_table_state: nudged(v.sip_table_state, key.rows(), s.sip_rows),
            ..v
        }),
        v.page == Page::IpStats && v.ip_drill is None ==> v.keyed(s, key, ctrl) == (AppView {
            ip_table_state: nudged(v.ip_table_state, key.rows(), s.ips),
            ..v
        }),
        v.page == Page::IpStats && v.ip_drill is Some ==> v.keyed(s, key, ctrl).ip_table_state
            == v.ip_table_state && v.keyed(s, key, ctrl).ip_drill_state == nudged(
            v.ip_drill_state,
            key.rows(),
            involving(s.calls, v.ip_drill->Some_0, s.calls.len() as int).len() as int,
        ),
{
}

// ----------------------------- commands -----------------------------

/// The digits open the pages.
pub proof fn law_digits(v: AppView, s: SeenView, ctrl: bool)
    requires
        commanding(v),
    ensures
        v.keyed(s, Key::Char('1'), ctrl) == (AppView { page: Page::Overview, ..v }),
        v.keyed(s, Key::Char('2'), ctrl) == (AppView { page: Page::CallDetail, ..v }),
        v.keyed(s, Key::Char('3'), ctrl) == (AppView { page: Page::Heatmap, ..v }),
        v.keyed(s, Key::Char('4'), ctrl) == (AppView { page: Page::Streams, ..v }),
        v.keyed(s, Key::Char('5'), ctrl) == (AppView { page: Page::EventLog, ..v }),
        v.keyed(s, Key::Char('6'), ctrl) == (AppView { page: Page::IpStats, ..v }),
{
}

/// Tab goes through the pages in their order, and Shift-Tab against it.
pub proof fn law_tabs(v: AppView, s: SeenView, ctrl: bool)
    requires
        commanding(v),
    ensures
        v.keyed(s, Key::Tab, ctrl) == (AppView { page: v.keyed(s, Key::Tab, ctrl).page, ..v }),
        v.keyed(s, Key::BackTab, ctrl) == (AppView {
            page: v.keyed(s, Key::BackTab, ctrl).page,
            ..v
        }),
        v.page == Page::Overview <==> v.keyed(s, Key::Tab, ctrl).page == Page::CallDetail,
        v.page == Page::CallDetail <==> v.keyed(s, Key::Tab, ctrl).page == Page::Heatmap,
        v.page == Page::Heatmap <==> v.keyed(s, Key::Tab, ctrl).page == Page::Streams,
        v.page == Page::Streams <==> v.keyed(s, Key::Tab, ctrl).page == Page::EventLog,
        v.page == Page::EventLog <==> v.keyed(s, Key::Tab, ctrl).page == Page::IpStats,
        v.page == Page::IpStats <==> v.keyed(s, Key::Tab, ctrl).page == Page::Overview,
        v.page == Page::CallDetail <==> v.keyed(s, Key::BackTab, ctrl).page == Page::Overview,
        v.page == Page::Heatmap <==> v.keyed(s, Key::BackTab, ctrl).page == Page::CallDetail,
        v.page == Page::Streams <==> v.keyed(s, Key::BackTab, ctrl).page == Page::Heatmap,
        v.page == Page::EventLog <==> v.keyed(s, Key::BackTab, ctrl).page == Page::Streams,
        v.page == Page::IpStats <==> v.keyed(s, Key::BackTab, ctrl).page == Page::EventLog,
        v.page == Page::Overview <==> v.keyed(s, Key::BackTab, ctrl).page == Page::IpStats,
{
}

/// Space pauses and goes on, `p` turns masking on and off, `e` asks for an export, `x` clears, and `f` goes on
/// to the next filter.
pub proof fn law_command_keys(v: AppView, s: SeenView, ctrl: bool)
    requires
        commanding(v),
    ensures
        v.keyed(s, Key::Char(' '), ctrl).paused == !v.paused,
        !v.paused ==> v.keyed(s, Key::Char(' '), ctrl).status == "paused"@,
        v.paused ==> v.keyed(s, Key::Char(' '), ctrl).status == "resumed"@,
        v.keyed(s, Key::Char('p'), ctrl).privacy == !v.privacy,
        !v.privacy ==> v.keyed(s, Key::Char('p'), ctrl).status
            == "privacy on — IPs and numbers masked"@,
        v.privacy ==> v.keyed(s, Key::Char('p'), ctrl).status == "privacy off"@,
        v.keyed(s, Key::Char('e'), ctrl) == (AppView { export: true, ..v }),
        v.keyed(s, Key::Char('x'), ctrl).clear,
        v.keyed(s, Key::Char('x'), ctrl).selected_call is None,
        v.keyed(s, Key::Char('x'), ctrl).focus_pending is None,
        v.keyed(s, Key::Char('x'), ctrl).ip_drill is None,
        v.keyed(s, Key::Char('x'), ctrl).page == v.page,
        v.keyed(s, Key::Char('f'), ctrl).filter != v.filter,
        v.keyed(s, Key::Char('f'), ctrl).status == "filter = "@ + v.keyed(
            s,
            Key::Char('f'),
            ctrl,
        ).filter.spec_label(),
{
}

/// Seven times to the next filter comes back to the first, and no earlier.
pub proof fn law_filters_go_round(f: CallFilter)
    ensures
        f.spec_next().spec_next().spec_next().spec_next().spec_next().spec_next().spec_next() == f,
        CallFilter::All.spec_next() == CallFilter::Dialing,
        CallFilter::Dialing.spec_next() == CallFilter::Ringing,
        CallFilter::Ringing.spec_next() == CallFilter::Active,
        CallFilter::Active.spec_next() == CallFilter::Completed,
        CallFilter::Completed.spec_next() == CallFilter::Failed,
        CallFilter::Failed.spec_next() == CallFilter::Canceled,
{
}

/// Control-C quits, and so do Esc and `q` where there is nothing to go back from; Left only goes back.
pub proof fn law_quitting(v: AppView, s: SeenView, ctrl: bool)
    requires
        commanding(v),
    ensures
        v.keyed(s, Key::Char('c'), true) == (AppView { should_quit: true, ..v }),
        v.page != Page::CallDetail && !(v.page == Page::IpStats && v.ip_drill is Some) ==> v.keyed(
            s,
            Key::Esc,
            ctrl,
        ) == (AppView { should_quit: true, ..v }) && v.keyed(s, Key::Left, ctrl) == v,
        v.page == Page::IpStats && v.ip_drill is Some ==> v.keyed(s, Key::Esc, ctrl) == (AppView {
            ip_drill: None,
            ..v
        }) && v.keyed(s, Key::Left, ctrl) == v.keyed(s, Key::Esc, ctrl),
        v.keyed(s, Key::Char('q'), ctrl) == v.keyed(s, Key::Esc, ctrl),
        v.page == Page::CallDetail ==> v.keyed(s, Key::Left, ctrl) == v.keyed(s, Key::Esc, ctrl),
{
}

/// A slash begins to edit the filter on the overview; the query stays what it was.
pub proof fn law_filter_begins(v: AppView, s: SeenView, ctrl: bool)
    requires
        commanding(v),
    ensures
        ({
            let w = v.keyed(s, Key::Char('/'), ctrl);
            &&& w.filter_editing
            &&& w.page == Page::Overview
            &&& w.filter_query == v.filter_query
            &&& w.filter_backup == v.filter_query
        }),
{
    reveal(AppView::clamped);
    reveal(AppView::synced);
}

/// While the filter is edited: Backspace takes its last character, Control-U all of them, Enter keeps the
/// query, and the calls that a query without white space round it finds are pinned.
pub proof fn law_filter_edited(v: AppView, s: SeenView, ctrl: bool)
    requires
        v.filter_editing,
        !v.b_leg_picker,
    ensures
        v.filter_query.len() > 0 ==> v.keyed(s, Key::Backspace, ctrl).filter_query
            == v.filter_query.drop_last(),
        v.filter_query.len() == 0 ==> v.keyed(s, Key::Backspace, ctrl).filter_query.len() == 0,
        v.keyed(s, Key::Char('u'), true).filter_query.len() == 0,
        v.keyed(s, Key::Char('c'), true).should_quit,
        v.keyed(s, Key::Enter, ctrl).filter_query == v.filter_query,
        !v.keyed(s, Key::Enter, ctrl).filter_editing,
        text::trimmed(v.filter_query).len() > 0 ==> v.keyed(s, Key::Enter, ctrl).search_pin == Some(
            text::trimmed(v.filter_query),
        ),
        text::trimmed(v.filter_query).len() == 0 ==> v.keyed(s, Key::Enter, ctrl).search_pin is None,
        v.keyed(s, Key::Esc, ctrl).filter_query == v.filter_backup,
        v.keyed(s, Key::Esc, ctrl).search_pin == pin_of(v.filter_backup),
{
    reveal(AppView::clamped);
    reveal(AppView::synced);
    reveal(AppView::pinned);
}

/// After the query has changed a selection beyond the list goes to its first row, and one within it stays.
pub proof fn law_selection_clamped(v: AppView, s: SeenView)
    ensures
        v.clamped(s).table_state is Some <==> v.listed(s).len() > 0,
        v.table_state matches Some(i) && i < v.listed(s).len() ==> v.clamped(s).table_state
            == v.table_state,
        !(v.table_state matches Some(i) && i < v.listed(s).len()) && v.listed(s).len() > 0
            ==> v.clamped(s).table_state == Some(0usize),
{
    reveal(AppView::clamped);
    reveal(AppView::synced);
}

/// `c` on the overview clears the query.
pub proof fn law_filter_cleared(v: AppView, s: SeenView)
    requires
        commanding(v),
        v.page == Page::Overview,
    ensures
        v.filter_query.len() > 0 ==> v.keyed(s, Key::Char('c'), false).filter_query.len() == 0
            && v.keyed(s, Key::Char('c'), false).search_pin is None,
        v.filter_query.len() == 0 ==> v.keyed(s, Key::Char('c'), false) == (AppView {
            status: "no filter to clear"@,
            ..v
        }),
{
    reveal(AppView::clamped);
    reveal(AppView::synced);
    reveal(AppView::pinned);
    crate::text_laws::law_trimmed_away(Seq::empty(), text::Class::Space);
}

/// `l` in the detail of a call asks for its other leg; Enter links the chosen one, and `L` unlinks it.
pub proof fn law_other_leg(v: AppView, s: SeenView, ctrl: bool)
    requires
        v.page == Page::CallDetail,
        !v.filter_editing,
        v.focus_pending is Some,
    ensures
        !v.b_leg_picker ==> v.keyed(s, Key::Char('l'), ctrl).b_leg_picker && v.keyed(
            s,
            Key::Char('l'),
            ctrl,
        ).b_leg_query.len() == 0 && v.keyed(s, Key::Char('l'), ctrl).b_leg_state == Some(0usize),
        !v.b_leg_picker ==> v.keyed(s, Key::Char('L'), ctrl).linked_call_id is None && v.keyed(
            s,
            Key::Char('L'),
            ctrl,
        ).focus_hint == Some(HintView { primary: v.focus_pending->Some_0, linked: None }),
        v.b_leg_picker ==> (match chosen(v.b_leg_state, v.candidates(s).len() as int) {
            Some(i) => {
                let id = s.calls[v.candidates(s)[i] as int].call_id@;
                let w = v.keyed(s, Key::Enter, ctrl);
                &&& !w.b_leg_picker
                &&& w.linked_call_id == Some(id)
                &&& w.focus_hint == Some(
                    HintView { primary: v.picking_for(s), linked: Some(id) },
                )
                &&& w.status == "b-leg linked: "@ + id
            },
            None => v.keyed(s, Key::Enter, ctrl) == v,
        }),
        v.b_leg_picker ==> !v.keyed(s, Key::Esc, ctrl).b_leg_picker && v.keyed(
            s,
            Key::Esc,
            ctrl,
        ).linked_call_id == v.linked_call_id,
{
    reveal(AppView::focused);
}

/// The other leg is picked for the call whose detail is shown, or else the one asked for, or else the selected.
pub proof fn law_picking_for(v: AppView, s: SeenView)
    ensures
        s.focus matches Some(id) ==> v.picking_for(s) == id,
        s.focus is None ==> (v.focus_pending matches Some(id) ==> v.picking_for(s) == id),
        s.focus is None && v.focus_pending is None ==> (v.selected_call matches Some(id)
            ==> v.picking_for(s) == id),
{
}

/// Enter on an IP shows its calls, and Enter on one of them opens it.
pub proof fn law_ip_calls(v: AppView, s: SeenView, ctrl: bool)
    requires
        commanding(v),
        v.page == Page::IpStats,
    ensures
        v.ip_drill is None ==> (match chosen(v.ip_table_state, v.ip_sort_order.len() as int) {
            Some(i) => {
                let w = v.keyed(s, Key::Enter, ctrl);
                &&& w.ip_drill == Some(v.ip_sort_order[i])
                &&& w.ip_drill_state is None
                &&& w.page == Page::IpStats
            },
            None => v.keyed(s, Key::Enter, ctrl) == v,
        }),
        v.ip_drill matches Some(ip) ==> ({
            let rows = involving(s.calls, ip, s.calls.len() as int);
            match chosen(v.ip_drill_state, rows.len() as int) {
                Some(i) => v.keyed(s, Key::Enter, ctrl).page == Page::CallDetail && v.keyed(
                    s,
                    Key::Enter,
                    ctrl,
                ).selected_call == Some(s.calls[rows[i] as int].call_id@),
                None => v.keyed(s, Key::Enter, ctrl) == v,
            }
        }),
{
    reveal(AppView::detail_opened);
    reveal(AppView::focused);
}

/// The keys of the page of IPs: `s` another order, `c` the summary of losses, `w` another window.
pub proof fn law_ip_keys(v: AppView, s: SeenView)
    requires
        commanding(v),
        v.page == Page::IpStats,
        v.ip_drill is None,
    ensures
        v.ip_sort == IpSort::Newest ==> v.keyed(s, Key::Char('s'), false).ip_sort == IpSort::MaxLoss,
        v.ip_sort == IpSort::MaxLoss ==> v.keyed(s, Key::Char('s'), false).ip_sort == IpSort::MinLoss,
        v.ip_sort == IpSort::MinLoss ==> v.keyed(s, Key::Char('s'), false).ip_sort == IpSort::Newest,
        v.keyed(s, Key::Char('s'), false).ip_sort_order.len() == 0,
        v.keyed(s, Key::Char('c'), false).ip_loss_only == !v.ip_loss_only,
        !v.ip_loss_only ==> v.keyed(s, Key::Char('w'), false).ip_window_secs == (
        if v.ip_window_secs == 60 {
            600
        } else if v.ip_window_secs == 600 {
            3600
        } else {
            60u64
        }),
        !v.ip_loss_only ==> v.keyed(s, Key::Char('w'), false).ip_summary_window
            == v.ip_summary_window,
        v.ip_loss_only ==> v.keyed(s, Key::Char('w'), false).ip_window_secs == v.ip_window_secs,
        v.ip_loss_only && v.ip_summary_window == 0 ==> v.keyed(
            s,
            Key::Char('w'),
            false,
        ).ip_summary_window == 1,
        v.ip_loss_only && v.ip_summary_window == 60 ==> v.keyed(
            s,
            Key::Char('w'),
            false,
        ).ip_summary_window == 600,
{
}

/// The windows of the summary of losses go round: 1, 5, 10 and 20 seconds, a minute, ten, an hour, and all.
pub proof fn law_loss_windows()
    ensures
        ipstats::window_secs(ipstats::window_after(0)) == 1,
        ipstats::window_secs(ipstats::window_after(1)) == 5,
        ipstats::window_secs(ipstats::window_after(5)) == 10,
        ipstats::window_secs(ipstats::window_after(10)) == 20,
        ipstats::window_secs(ipstats::window_after(20)) == 60,
        ipstats::window_secs(ipstats::window_after(60)) == 600,
        ipstats::window_secs(ipstats::window_after(600)) == 3600,
        ipstats::window_secs(ipstats::window_after(3600)) == 0,
{
}

/// The keys of the SIP statistics: `s` another order, `w` another width.
pub proof fn law_sip_keys(v: AppView, s: SeenView)
    requires
        commanding(v),
        v.page == Page::Heatmap,
    ensures
        v.sip_sort == SipSort::Invites ==> v.keyed(s, Key::Char('s'), false).sip_sort
            == SipSort::Errors,
        v.sip_sort == SipSort::Errors ==> v.keyed(s, Key::Char('s'), false).sip_sort == SipSort::Asr,
        v.sip_sort == SipSort::Asr ==> v.keyed(s, Key::Char('s'), false).sip_sort == SipSort::Invites,
        v.keyed(s, Key::Char('w'), false).sip_window_secs == (if v.sip_window_secs == 300 {
            900
        } else if v.sip_window_secs == 900 {
            60
        } else {
            300u64
        }),
        v.keyed(s, Key::Char('w'), false).ip_window_secs == v.ip_window_secs,
{
}

/// What the screens begin with.
pub proof fn law_begins()
    ensures
        AppView::fresh().page == Page::Overview,
        AppView::fresh().filter == CallFilter::All,
        AppView::fresh().filter_query.len() == 0,
        AppView::fresh().ip_sort == IpSort::Newest,
        AppView::fresh().sip_sort == SipSort::Invites,
        AppView::fresh().ip_window_secs == 60,
        AppView::fresh().sip_window_secs == 60,
        AppView::fresh().ip_summary_window == 0,
        commanding(AppView::fresh()),
        !AppView::fresh().paused && !AppView::fresh().should_quit && !AppView::fresh().privacy,
        !AppView::fresh().clear && !AppView::fresh().export && !AppView::fresh().ip_loss_only,
        AppView::fresh().table_state is None && AppView::fresh().selected_call is None,
        AppView::fresh().focus_hint is None && AppView::fresh().search_pin is None,
{
}

} // verus!
