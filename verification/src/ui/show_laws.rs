//! What the screens show: the order of rows, what is masked, the lanes of a call and its colours.
use crate::correlate::call_laws::{law_same_word, same_letters};
use crate::diagnostics::laws::dotted;
use crate::model::addr::{IpAddr, SocketAddr};
use crate::model::addr_laws::{lacks, law_ip_read_back, law_socket_read_back, lemma_scan_first, lemma_scan_lacking};
use crate::model::addr_text;
use crate::model::media::SummaryView;
use crate::model::packet::Flow5Tuple;
use crate::model::sip::{HangupBy, Method, MsgView};
use crate::model::stats::Real64;
use crate::numfmt;
use crate::store::ipstats::IpStats;
use crate::store::sipstats::SipIpRow;
use crate::text;
use crate::text::Class;
use crate::text_laws::{law_cut, law_lines};
use crate::store::snapshot::FocusView;
use crate::ui::heading::{end_of, heading_of, party_text, timing_of, title_of};
use crate::ui::highlight::{
    body_begun, body_spans, bold_piece, head_spans, key_ink, line_spans, message_ink, message_spans, piece,
    status_ink, status_of, token_like, Ink, TokenKind,
};
use crate::ui::lanes::{
    bars, center, centers, classified, column_of, columns, directed, ends_of, far_end, glyph, label_text, lanes_of,
    leg_invite, local_mid, mid_ip, opening, painted, party_from, reverse_from, row_canvas, seen_as,
    sent_by_caller, shown_socket, sides, splits_in_two, two_ends, user_text, CallTimes, Phase,
};
use crate::ui::mask::{
    addr_at, ips_from, masked_addr, masked_host, masked_ip, masked_line, masked_lines, masked_raw, masked_socket, masked_uri,
    masked_user, names_from, names_person, next_uri, scheme_len, uri_stop, uris_from,
};
use crate::ui::order::{
    column_secs, end_text, grid, grid_column, ip_key, ip_keys, sip_key, sip_keys, with_ip,
};
use crate::ui::pages::{IpSort, Page, SipSort};
use vstd::prelude::*;

verus! {

// ----------------------------- the order of rows -----------------------------

/// IPs are ordered by the time at which they were last seen, the latest first, or by the share of packets
/// lost, the greatest or the least first; a share that is not known counts as none.
pub proof fn law_ip_rows(t: u64, u: u64, x: Option<Real64>, y: Option<Real64>)
    ensures
        ip_key(IpSort::Newest, Some(t), x) < ip_key(IpSort::Newest, Some(u), y) <==> t > u,
        u > 0 ==> ip_key(IpSort::Newest, Some(u), x) < ip_key(IpSort::Newest, None, y),
        x is Some && y is Some ==> (ip_key(IpSort::MaxLoss, Some(t), x) < ip_key(
            IpSort::MaxLoss,
            Some(u),
            y,
        ) <==> x->Some_0.rank() > y->Some_0.rank()),
        x is Some && y is Some ==> (ip_key(IpSort::MinLoss, Some(t), x) < ip_key(
            IpSort::MinLoss,
            Some(u),
            y,
        ) <==> x->Some_0.rank() < y->Some_0.rank()),
        ip_key(IpSort::MinLoss, Some(t), None) == 0,
        ip_key(IpSort::MaxLoss, Some(t), None) == 0,
{
}

/// Of two SIP rows the one with more INVITEs goes first, or the one with more errors, or the one whose answer
/// rate is lower; a rate that is not known is the highest.
pub proof fn law_sip_rows(a: SipIpRow, b: SipIpRow, x: Option<Real64>, y: Option<Real64>)
    requires
        0 <= a.stats@.errors() <= u64::MAX,
        0 <= b.stats@.errors() <= u64::MAX,
    ensures
        a.stats.req@[0] > b.stats.req@[0] ==> sip_key(a, x, SipSort::Invites).less(
            sip_key(b, y, SipSort::Invites),
        ),
        a.stats@.errors() > b.stats@.errors() ==> sip_key(a, x, SipSort::Errors).less(
            sip_key(b, y, SipSort::Errors),
        ),
        x is Some && y is Some && x->Some_0.rank() < y->Some_0.rank() ==> sip_key(
            a,
            x,
            SipSort::Asr,
        ).less(sip_key(b, y, SipSort::Asr)),
        x is Some && y is None && x->Some_0.rank() < 0x7ff0_0000_0000_0000 ==> sip_key(
            a,
            x,
            SipSort::Asr,
        ).less(sip_key(b, y, SipSort::Asr)),
{
}

/// Rows that are alike otherwise go by their IPs: the row for all first, then IPv4, then IPv6, by number.
pub proof fn law_sip_rows_alike(a: SipIpRow, b: SipIpRow, x: Option<Real64>, s: SipSort)
    requires
        a.stats == b.stats,
    ensures
        a.ip is None && b.ip is Some ==> sip_key(a, x, s).less(sip_key(b, x, s)),
        (a.ip matches Some(IpAddr::V4(_)) && b.ip matches Some(IpAddr::V6(_))) ==> sip_key(
            a,
            x,
            s,
        ).less(sip_key(b, x, s)),
        (a.ip matches Some(IpAddr::V4(v)) && b.ip matches Some(IpAddr::V4(w)) && v < w)
            ==> sip_key(a, x, s).less(sip_key(b, x, s)),
        (a.ip matches Some(IpAddr::V6(v)) && b.ip matches Some(IpAddr::V6(w)) && v < w)
            ==> sip_key(a, x, s).less(sip_key(b, x, s)),
{
}

/// Each row goes by its own figures.
pub proof fn law_row_keys(
    v: Seq<IpStats>,
    losses: Seq<Option<Real64>>,
    rows: Seq<SipIpRow>,
    asrs: Seq<Option<Real64>>,
    i: int,
    j: int,
    sort: IpSort,
    by: SipSort,
)
    requires
        0 <= i < v.len(),
        0 <= j < v.len(),
        i < rows.len(),
    ensures
        ip_keys(v, losses, sort)[i].less(ip_keys(v, losses, sort)[j]) <==> ip_key(
            sort,
            v[i].last_seen_us,
            losses[i],
        ) < ip_key(sort, v[j].last_seen_us, losses[j]),
        sip_keys(rows, asrs, by)[i] == sip_key(rows[i], asrs[i], by),
        ip_keys(v, losses, sort).len() == v.len(),
        sip_keys(rows, asrs, by).len() == rows.len(),
{
}

/// The rows without the one for all keep their order.
pub proof fn law_rows_with_ip(v: Seq<SipIpRow>, rows: Seq<usize>, n: int)
    requires
        0 <= n < rows.len(),
    ensures
        with_ip(v, rows, 0).len() == 0,
        v[rows[n] as int].ip is Some ==> with_ip(v, rows, n + 1) == with_ip(v, rows, n).push(
            rows[n],
        ),
        v[rows[n] as int].ip is None ==> with_ip(v, rows, n + 1) == with_ip(v, rows, n),
{
}

/// A bucket stands in the column whose span of time it begins in, and in none where it begins at or before
/// the axis or beyond the last column.
pub proof fn law_grid_column(axis: u64, width: u64, cols: nat, c: int, r: int, ts: u64)
    requires
        width > 0,
        0 <= r < width,
        c >= 0,
        ts == axis + c * width + r,
    ensures
        ts > axis && c < cols ==> grid_column(ts, axis, width, cols) == Some(c),
        c >= cols ==> grid_column(ts, axis, width, cols) is None,
        grid_column(axis, axis, width, cols) is None,
{
    vstd::arithmetic::div_mod::lemma_fundamental_div_mod_converse(
        ts - axis,
        width as int,
        c,
        r,
    );
    assert(c * width >= 0) by (nonlinear_arith)
        requires
            c >= 0,
            width > 0,
    ;
}

/// A column shows the last bucket that begins in it.
pub proof fn law_grid(starts: Seq<u64>, axis: u64, width: u64, cols: nat, n: int, c: int)
    requires
        0 <= n <= starts.len() <= usize::MAX,
        0 <= c < cols,
    ensures
        grid(starts, axis, width, cols, n).len() == cols,
        grid(starts, axis, width, cols, n)[c] matches Some(k) ==> k < n && grid_column(
            starts[k as int],
            axis,
            width,
            cols,
        ) == Some(c) && forall|j: int|
            k < j < n ==> grid_column(#[trigger] starts[j], axis, width, cols) != Some(c),
        grid(starts, axis, width, cols, n)[c] is None ==> forall|j: int|
            0 <= j < n ==> grid_column(#[trigger] starts[j], axis, width, cols) != Some(c),
    decreases n,
{
    if n > 0 {
        law_grid(starts, axis, width, cols, n - 1, c);
    }
}

/// Sixty columns cover the window, with no column to spare; a window of more than ten minutes has columns of
/// a minute.
pub proof fn law_column_width(window: u64)
    ensures
        0 < window <= 600 ==> 60 * column_secs(window) >= window && 60 * (column_secs(window) - 1)
            < window,
        window > 600 ==> column_secs(window) == 60,
        column_secs(0) == 1,
{
}

/// How a call ended: who ended it, or the code; a refusal shows both.
pub proof fn law_end_text(b: HangupBy, c: u32)
    ensures
        end_text(None, None) == "-"@,
        end_text(None, Some(c)) == text::dec(c as nat),
        end_text(Some(HangupBy::Caller), Some(c)) == "BYE→"@,
        end_text(Some(HangupBy::Callee), Some(c)) == "←BYE"@,
        end_text(Some(HangupBy::Cancel), Some(c)) == "CANCEL"@,
        end_text(Some(HangupBy::Reject), Some(c)) == "REJ"@ + "·"@ + text::dec(c as nat),
        end_text(Some(HangupBy::Reject), None) == "REJ"@,
        end_text(Some(HangupBy::Caller), None) == "BYE→"@,
{
}

// ----------------------------- masking -----------------------------

/// A user of up to four characters shows the first alone; one of up to seven shows three and those behind;
/// of a longer one three at the front and four at the end show.
pub proof fn law_masked_user(t: Seq<char>)
    ensures
        t.len() <= 4 ==> masked_user(t).len() == t.len() && forall|i: int|
            0 < i < t.len() ==> #[trigger] masked_user(t)[i] == '*',
        0 < t.len() <= 4 ==> masked_user(t)[0] == t[0],
        4 < t.len() <= 7 ==> masked_user(t) == t.insert(3, '*'),
        t.len() > 7 ==> masked_user(t) == t.subrange(0, 3) + seq!['…'] + t.subrange(
            t.len() - 4,
            t.len() as int,
        ),
{
    if 4 < t.len() <= 7 {
        assert(masked_user(t) =~= t.insert(3, '*'));
    }
    if t.len() > 7 {
        assert(masked_user(t) =~= t.subrange(0, 3) + seq!['…'] + t.subrange(
            t.len() - 4,
            t.len() as int,
        ));
    }
}

/// Of an IPv4 address the first and the last octet show.
pub proof fn law_masked_v4(a: u8, b: u8, c: u8, d: u8)
    ensures
        masked_ip(dotted(a, b, c, d)) == text::dec(a as nat) + ".*.*."@ + text::dec(d as nat),
{
    let x = (0x100_0000 * a + 0x1_0000 * b + 0x100 * c + d) as u32;
    assert(x / 0x100_0000 == a);
    assert(x % 0x100 == d);
}

/// Of an IPv6 address the first and the last group show.
pub proof fn law_masked_v6(v: u128)
    ensures
        masked_ip(IpAddr::V6(v)) == addr_text::hex(
            (v / 0x1_0000_0000_0000_0000_0000_0000_0000) as nat,
        ) + ":…:"@ + addr_text::hex((v % 0x1_0000) as nat),
{
    reveal_with_fuel(addr_text::pow16bit, 8);
    assert(addr_text::pow16bit(7) == 0x1_0000_0000_0000_0000_0000_0000_0000);
    assert(addr_text::pow16bit(0) == 1);
    assert(addr_text::groups(v)[0] == v as nat / 0x1_0000_0000_0000_0000_0000_0000_0000
        % 0x1_0000);
    assert(addr_text::groups(v)[7] == v as nat / 1 % 0x1_0000);
}

/// A socket address is masked in its IP and keeps its port; what is no address stays as it is.
pub proof fn law_masked_socket(a: SocketAddr, t: Seq<char>)
    ensures
        masked_host(addr_text::socket_text(a)) == masked_ip(a.ip) + ":"@ + text::dec(a.port as nat),
        addr_text::ip_of(addr_text::socket_text(a)) is None ==> masked_socket(
            addr_text::socket_text(a),
        ) == masked_ip(a.ip) + ":"@ + text::dec(a.port as nat),
        masked_socket(addr_text::ip_text(a.ip)) == masked_ip(a.ip),
        addr_text::ip_of(t) is None && addr_text::socket_of(t) is None ==> masked_socket(t) == t,
{
    law_socket_read_back(a);
    law_ip_read_back(a.ip);
}

/// In a SIP URI the user and the host are masked, and the parameters stay.
pub proof fn law_masked_uri(user: Seq<char>, host: Seq<char>, params: Seq<char>)
    requires
        lacks(user, '@'),
        lacks(user, ';'),
        lacks(host, ';'),
    ensures
        masked_uri("sip:"@ + (user + seq!['@'] + host)) == "sip:"@ + (masked_user(user) + seq!['@']
            + masked_host(host)),
        masked_uri("sips:"@ + (user + seq!['@'] + host)) == "sips:"@ + (masked_user(user)
            + seq!['@'] + masked_host(host)),
        masked_uri("sip:"@ + (user + seq!['@'] + host + seq![';'] + params)) == "sip:"@ + (
        masked_user(user) + seq!['@'] + masked_host(host)) + seq![';'] + params,
{
    let u = user + seq!['@'] + host;
    assert forall|i: int| 0 <= i < u.len() implies #[trigger] u[i] != ';' by {
        if i < user.len() {
            assert(u[i] == user[i]);
        } else if i > user.len() {
            assert(u[i] == host[i - user.len() - 1]);
        }
    }
    law_cut(user, '@', host);
    law_cut(u, ';', params);
    reveal(masked_uri);
    lemma_scheme(u);
    let w = u + seq![';'] + params;
    lemma_scheme(w);
    let m = masked_user(user) + seq!['@'] + masked_host(host);
    assert(masked_addr(u) == m);
    assert(masked_uri("sip:"@ + u) == "sip:"@ + m);
    assert(masked_uri("sips:"@ + u) == "sips:"@ + m);
    assert(masked_uri("sip:"@ + w) == "sip:"@ + m + seq![';'] + params);
}

proof fn lemma_scheme(u: Seq<char>)
    ensures
        scheme_len("sip:"@ + u) == 4,
        ("sip:"@ + u).take(4) == "sip:"@,
        ("sip:"@ + u).skip(4) == u,
        scheme_len("sips:"@ + u) == 5,
        ("sips:"@ + u).take(5) == "sips:"@,
        ("sips:"@ + u).skip(5) == u,
{
    reveal_strlit("sip:");
    reveal_strlit("sips:");
    let x = "sip:"@ + u;
    assert(x.subrange(0, 4) =~= "sip:"@);
    assert(x[3] == ':');
    assert(scheme_len(x) == 4) by {
        if text::occurs_at(x, "sips:"@, 0) {
            assert(x.subrange(0, 5)[3] == x[3]);
        }
    }
    assert(x.skip(4) =~= u);
    assert(x.take(4) =~= "sip:"@);
    let y = "sips:"@ + u;
    assert(y.subrange(0, 5) =~= "sips:"@);
    assert(y.skip(5) =~= u);
    assert(y.take(5) =~= "sips:"@);
}

/// A name in quotes is masked as a user is; what stands round it stays.
pub proof fn law_masked_name(a: Seq<char>, name: Seq<char>, b: Seq<char>)
    requires
        lacks(a, '"'),
        lacks(name, '"'),
        lacks(b, '"'),
    ensures
        names_from(a + seq!['"'] + name + seq!['"'] + b, 0) == a + seq!['"'] + masked_user(name)
            + seq!['"'] + b,
        names_from(a, 0) == a,
{
    let t = a + seq!['"'] + name + seq!['"'] + b;
    let i = a.len() as int;
    let j = i + 1 + name.len();
    assert(t[i] == '"');
    assert(t[j] == '"');
    assert forall|k: int| 0 <= k < i implies #[trigger] t[k] != '"' by {
        assert(t[k] == a[k]);
    }
    assert forall|k: int| i + 1 <= k < j implies #[trigger] t[k] != '"' by {
        assert(t[k] == name[k - i - 1]);
    }
    assert forall|k: int| j + 1 <= k < t.len() implies #[trigger] t[k] != '"' by {
        assert(t[k] == b[k - j - 1]);
    }
    lemma_scan_first(t, 0, '"', i);
    lemma_scan_first(t, i + 1, '"', j);
    text::lemma_scan(t, j + 1, Class::Is('"'), true);
    assert(t.subrange(0, i) =~= a);
    assert(t.subrange(i + 1, j) =~= name);
    assert(t.skip(j + 1) =~= b);
    assert(names_from(t, j + 1) == b);
    lemma_scan_lacking(a, 0, '"');
    assert(a.skip(0) =~= a);
}

/// Names are masked in the headers From, To, P-Asserted-Identity and Remote-Party-ID, in any case of letters,
/// and in no other.
pub proof fn law_persons(h: Seq<char>, rest: Seq<char>)
    requires
        h.len() > 0,
        lacks(h, ':'),
        !Class::Space.has(h[0]),
    ensures
        names_person(h + seq![':'] + rest) <==> same_letters(h, "From"@) || same_letters(h, "To"@)
            || same_letters(h, "P-Asserted-Identity"@) || same_letters(h, "Remote-Party-ID"@),
{
    let t = h + seq![':'] + rest;
    assert(t[0] == h[0]);
    assert(text::scan(t, 0, Class::Space, false) == 0);
    assert(t.skip(0) =~= t);
    law_cut(h, ':', rest);
    law_same_word(h, "FROM"@);
    law_same_word(h, "TO"@);
    law_same_word(h, "P-ASSERTED-IDENTITY"@);
    law_same_word(h, "REMOTE-PARTY-ID"@);
    reveal_strlit("FROM");
    reveal_strlit("From");
    reveal_strlit("TO");
    reveal_strlit("To");
    reveal_strlit("P-ASSERTED-IDENTITY");
    reveal_strlit("P-Asserted-Identity");
    reveal_strlit("REMOTE-PARTY-ID");
    reveal_strlit("Remote-Party-ID");
    lemma_alike(h, "FROM"@, "From"@);
    lemma_alike(h, "TO"@, "To"@);
    lemma_alike(h, "P-ASSERTED-IDENTITY"@, "P-Asserted-Identity"@);
    lemma_alike(h, "REMOTE-PARTY-ID"@, "Remote-Party-ID"@);
}

proof fn lemma_alike(h: Seq<char>, a: Seq<char>, b: Seq<char>)
    requires
        same_letters(a, b),
    ensures
        same_letters(h, a) <==> same_letters(h, b),
{
    if h.len() == a.len() {
        assert forall|i: int| 0 <= i < h.len() implies (crate::correlate::call_laws::alike(
            #[trigger] h[i],
            a[i],
        ) <==> crate::correlate::call_laws::alike(h[i], b[i])) by {
            assert(crate::correlate::call_laws::alike(a[i], b[i]));
        }
    }
}

/// A URI in a text is masked where it stands; what stands round it stays.
pub proof fn law_uri_masked_in_text(a: Seq<char>, u: Seq<char>, b: Seq<char>)
    requires
        u.len() > 0,
        forall|i: int| 0 <= i < u.len() ==> !Class::UriEnd.has(#[trigger] u[i]),
        b.len() > 0 ==> Class::UriEnd.has(b[0]),
        forall|i: int|
            0 <= i < a.len() || a.len() + 4 + u.len() <= i ==> !#[trigger] text::occurs_at(
                a + "sip:"@ + u + b,
                "sip:"@,
                i,
            ),
        forall|i: int|
            0 <= i < a.len() || a.len() + 4 + u.len() <= i ==> !#[trigger] text::occurs_at(
                a + "sip:"@ + u + b,
                "sips:"@,
                i,
            ),
    ensures
        uris_from(a + "sip:"@ + u + b, 0) == a + masked_uri("sip:"@ + u) + b,
{
    reveal_strlit("sip:");
    reveal_strlit("sips:");
    let t = a + "sip:"@ + u + b;
    let k = a.len() as int;
    let e = k + 4 + u.len();
    assert(t.subrange(k, k + 4) =~= "sip:"@);
    assert(text::occurs_at(t, "sip:"@, k));
    assert(!text::occurs_at(t, "sips:"@, k)) by {
        if text::occurs_at(t, "sips:"@, k) {
            assert(t.subrange(k, k + 5)[3] == t[k + 3]);
        }
    }
    text::lemma_find_from(t, "sip:"@, 0);
    text::lemma_find_from(t, "sips:"@, 0);
    text::lemma_find_from(t, "sip:"@, e);
    text::lemma_find_from(t, "sips:"@, e);
    text::lemma_scan(t, k + 4, Class::UriEnd, true);
    let x = text::scan(t, k + 4, Class::UriEnd, true);
    if x < e {
        assert(t[x] == u[x - k - 4]);
    } else if x > e {
        assert(t[e] == b[0]);
    }
    assert(t.subrange(0, k) =~= a);
    assert(t.subrange(k, e) =~= "sip:"@ + u);
    assert(t.skip(e) =~= b);
    assert(next_uri(t, 0) == k);
    assert(uri_stop(t, k) == e);
    assert(next_uri(t, e) == t.len());
    assert(uris_from(t, e) == b);
}

/// A line with no URI, no address and no person's name shows as it is.
pub proof fn law_plain_line(t: Seq<char>)
    requires
        !names_person(t),
        forall|i: int| 0 <= i ==> !#[trigger] text::occurs_at(t, "sip:"@, i),
        forall|i: int| 0 <= i ==> !#[trigger] text::occurs_at(t, "sips:"@, i),
        forall|i: int| 0 <= i < t.len() ==> (#[trigger] addr_at(t, i)) is None,
    ensures
        masked_line(t) == t,
{
    reveal(masked_line);
    text::lemma_find_from(t, "sip:"@, 0);
    text::lemma_find_from(t, "sips:"@, 0);
    assert(t.skip(0) =~= t);
    assert(uris_from(t, 0) == t);
    lemma_no_address(t, 0);
}

#[verifier::rlimit(60)]
#[verifier::spinoff_prover]
proof fn lemma_no_address(t: Seq<char>, i: int)
    requires
        0 <= i <= t.len(),
        forall|k: int| 0 <= k < t.len() ==> (#[trigger] addr_at(t, k)) is None,
    ensures
        ips_from(t, i) == t.skip(i),
    decreases t.len() - i,
{
    if i < t.len() {
        lemma_no_address(t, i + 1);
        assert(t.skip(i) =~= seq![t[i]] + t.skip(i + 1));
    } else {
        assert(t.skip(i) =~= Seq::empty());
    }
}

/// A raw text is masked line by line.
pub proof fn law_masked_lines(v: Seq<Seq<char>>, n: int)
    requires
        n >= 1,
    ensures
        masked_lines(v, 1) == masked_line(v[0]),
        masked_lines(v, n + 1) == masked_lines(v, n) + seq!['\n'] + masked_line(v[n]),
        masked_lines(v, 0).len() == 0,
{
}

// ----------------------------- lanes -----------------------------

/// The middle of a lane: half the lane's width behind the lanes before it; the last lane takes what is over.
pub proof fn law_lane_middle(n: int, col: int, rest: int, i: int)
    requires
        0 <= i < n,
        0 <= rest < n,
        col >= 0,
    ensures
        i + 1 < n ==> center(n, n * col + rest, i) == i * col + col / 2,
        center(n, n * col + rest, n - 1) == (n - 1) * col + (col + rest) / 2,
{
    assert(n * col == col * n) by (nonlinear_arith);
    vstd::arithmetic::div_mod::lemma_fundamental_div_mod_converse(n * col + rest, n, col, rest);
    assert(n * col - (n - 1) * col == col) by (nonlinear_arith);
}

/// Paint covers the bytes where it lies and no others.
pub proof fn law_painted(buf: Seq<u8>, start: int, b: Seq<u8>, j: int)
    requires
        0 <= start,
        start + b.len() <= buf.len(),
        0 <= j < buf.len(),
    ensures
        painted(buf, start, b).len() == buf.len(),
        painted(buf, start, b).subrange(start, start + b.len()) == b,
        j < start || j >= start + b.len() ==> painted(buf, start, b)[j] == buf[j],
{
    assert(painted(buf, start, b).subrange(start, start + b.len()) =~= b);
}

/// A party is found by its address and port, and only where none has both, by its address; the first one
/// counts.
pub proof fn law_party(ps: Seq<SocketAddr>, a: SocketAddr, k: int)
    requires
        0 <= k < ps.len(),
        forall|i: int| 0 <= i < k ==> #[trigger] ps[i] != a,
    ensures
        ps[k] == a ==> column_of(ps, a) == Some(k),
        (forall|i: int| 0 <= i < ps.len() ==> #[trigger] ps[i] != a) && ps[k].ip == a.ip && (forall|
            i: int,
        |
            0 <= i < k ==> (#[trigger] ps[i]).ip != a.ip) ==> column_of(ps, a) == Some(k),
        (forall|i: int| 0 <= i < ps.len() ==> (#[trigger] ps[i]).ip != a.ip) ==> column_of(
            ps,
            a,
        ) is None,
{
    if ps[k] == a {
        lemma_party(ps, a, false, 0, k);
    } else if forall|i: int| 0 <= i < ps.len() ==> #[trigger] ps[i] != a {
        lemma_no_party(ps, a, false, 0);
        if ps[k].ip == a.ip && (forall|i: int| 0 <= i < k ==> (#[trigger] ps[i]).ip != a.ip) {
            lemma_party(ps, a, true, 0, k);
        }
    }
    if forall|i: int| 0 <= i < ps.len() ==> (#[trigger] ps[i]).ip != a.ip {
        lemma_no_party(ps, a, false, 0);
        lemma_no_party(ps, a, true, 0);
    }
}

proof fn lemma_party(ps: Seq<SocketAddr>, a: SocketAddr, loose: bool, i: int, k: int)
    requires
        0 <= i <= k < ps.len(),
        ps[k] == a || (loose && ps[k].ip == a.ip),
        forall|j: int|
            i <= j < k ==> #[trigger] ps[j] != a && (loose ==> ps[j].ip != a.ip),
    ensures
        party_from(ps, a, loose, i) == Some(k),
    decreases k - i,
{
    if i < k {
        lemma_party(ps, a, loose, i + 1, k);
    }
}

proof fn lemma_no_party(ps: Seq<SocketAddr>, a: SocketAddr, loose: bool, i: int)
    requires
        0 <= i <= ps.len(),
        forall|j: int|
            i <= j < ps.len() ==> #[trigger] ps[j] != a && (loose ==> ps[j].ip != a.ip),
    ensures
        party_from(ps, a, loose, i) is None,
    decreases ps.len() - i,
{
    if i < ps.len() {
        lemma_no_party(ps, a, loose, i + 1);
    }
}

/// A message runs from the lane of its source to that of its destination.
pub proof fn law_arrow(f: Flow5Tuple, ps: Seq<SocketAddr>, leg: Option<u8>, i: int, j: int)
    requires
        0 <= i < ps.len(),
        0 <= j < ps.len(),
        ps[i] == f.src,
        ps[j] == f.dst,
        forall|k: int| 0 <= k < i ==> #[trigger] ps[k] != f.src,
        forall|k: int| 0 <= k < j ==> #[trigger] ps[k] != f.dst,
    ensures
        ends_of(f, ps, leg) == (i, j),
        ends_of(f.spec_reverse(), ps, leg) == (j, i),
{
    law_party(ps, f.src, i);
    law_party(ps, f.dst, j);
}

/// A message of a call in two lanes whose ends are not known runs from the first to the second; with a box
/// between the lanes, from or to the box as its leg says.
pub proof fn law_arrow_unknown(f: Flow5Tuple, ps: Seq<SocketAddr>)
    requires
        column_of(ps, f.src) is None,
    ensures
        ps.len() == 2 ==> ends_of(f, ps, None) == (0int, 1int),
        ps.len() == 3 && f.dst.ip == ps[1].ip ==> ends_of(f, ps, Some(0u8)) == (0int, 1int)
            && ends_of(f, ps, Some(1u8)) == (2int, 1int),
        ps.len() == 3 && f.dst.ip != ps[1].ip && column_of(ps, f.dst) != Some(1int) ==> ends_of(
            f,
            ps,
            Some(0u8),
        ) == (1int, 0int) && ends_of(f, ps, Some(1u8)) == (1int, 2int),
{
}

/// An arrow points to the right or to the left.
pub proof fn law_glyph(label: Seq<char>)
    ensures
        glyph(label, true) == "-- "@ + label + " ->"@,
        glyph(label, false) == "<- "@ + label + " --"@,
{
}

/// The two ends of a call are those of the INVITE that opened it, or of its first message.
pub proof fn law_two_ends(msgs: Seq<MsgView>, k: int)
    requires
        0 <= k < msgs.len(),
    ensures
        msgs[k].is_initial_invite() && (forall|i: int|
            0 <= i < k ==> !(#[trigger] msgs[i]).is_initial_invite()) ==> two_ends(msgs) == Some(
            (msgs[k].flow.src, msgs[k].flow.dst),
        ),
        (forall|i: int| 0 <= i < msgs.len() ==> !(#[trigger] msgs[i]).is_initial_invite())
            ==> two_ends(msgs) == Some((msgs[0].flow.src, msgs[0].flow.dst)),
        two_ends(Seq::empty()) is None,
{
    lemma_opening(msgs, 0, k);
}

proof fn lemma_opening(msgs: Seq<MsgView>, i: int, k: int)
    requires
        0 <= i <= msgs.len(),
        0 <= k < msgs.len(),
    ensures
        i <= k && msgs[k].is_initial_invite() && (forall|j: int|
            i <= j < k ==> !(#[trigger] msgs[j]).is_initial_invite()) ==> opening(msgs, i) == Some(k),
        (forall|j: int| i <= j < msgs.len() ==> !(#[trigger] msgs[j]).is_initial_invite())
            ==> opening(msgs, i) is None,
    decreases msgs.len() - i,
{
    if i < msgs.len() {
        lemma_opening(msgs, i + 1, k);
    }
}

/// The far end of a flow is the one that is not the box between.
pub proof fn law_far_end(f: Flow5Tuple, mid: IpAddr)
    requires
        f.src.ip != f.dst.ip,
        f.src.ip == mid || f.dst.ip == mid,
    ensures
        far_end(f, mid).ip != mid,
        far_end(f, mid) == f.src || far_end(f, mid) == f.dst,
        far_end(f.spec_reverse(), mid) == far_end(f, mid),
{
}

/// Where the box's addresses are known, the leg whose INVITE goes to it is the first and the other the second;
/// an address of the box stands on both.
pub proof fn law_lanes_of_box(
    msgs: Seq<MsgView>,
    legs: Seq<u8>,
    local: Seq<IpAddr>,
    p: MsgView,
    q: MsgView,
)
    requires
        local.len() > 0,
    ensures
        lanes_of(msgs, legs, local, p, q) matches Some(l) ==> local.contains(l.pbx) && (l.a_leg == 0
            <==> local.contains(p.flow.dst.ip)) && (l.b_leg == 0 <==> local.contains(
            q.flow.dst.ip,
        )) && l.a_leg + l.b_leg == 1 && (l.a_leg == 0 ==> l.a_remote == far_end(p.flow, l.pbx)
            && l.b_remote == far_end(q.flow, l.pbx)) && (l.a_leg == 1 ==> l.a_remote == far_end(
            q.flow,
            l.pbx,
        ) && l.b_remote == far_end(p.flow, l.pbx)),
        local.contains(p.flow.dst.ip) == local.contains(q.flow.dst.ip) ==> lanes_of(
            msgs,
            legs,
            local,
            p,
            q,
        ) is None,
{
    lemma_local_mid(local, p.flow, q.flow, 0);
    lemma_local_mid(local, q.flow, p.flow, 0);
}

proof fn lemma_local_mid(local: Seq<IpAddr>, a: Flow5Tuple, b: Flow5Tuple, i: int)
    requires
        0 <= i <= local.len(),
    ensures
        local_mid(local, a, b, i) matches Some(ip) ==> local.contains(ip) && (a.src.ip == ip
            || a.dst.ip == ip) && (b.src.ip == ip || b.dst.ip == ip),
    decreases local.len() - i,
{
    if i < local.len() {
        lemma_local_mid(local, a, b, i + 1);
    }
}

/// The label of a message is its method or its status.
pub proof fn law_label(m: MsgView)
    ensures
        m.is_request && m.method == Some(Method::Invite) ==> label_text(m) == "INVITE"@,
        m.is_request && m.method == Some(Method::Bye) ==> label_text(m) == "BYE"@,
        m.is_request && m.method is None ==> label_text(m) == "?"@,
        !m.is_request ==> (m.status matches Some(s) ==> label_text(m) == text::dec(s as nat)),
{
}

/// Users and addresses show as they are, or masked where privacy is asked for.
pub proof fn law_shown(u: Seq<char>, a: SocketAddr, fallback: Seq<char>)
    ensures
        user_text(Some(u), false, fallback) == u,
        user_text(Some(u), true, fallback) == masked_user(u),
        user_text(None, true, fallback) == fallback,
        user_text(None, false, fallback) == fallback,
        shown_socket(a, false) == addr_text::socket_text(a),
        shown_socket(a, true) == masked_socket(addr_text::socket_text(a)),
{
}

/// A flow into this machine shows its far end at the left and an arrow to the right, one out of it an arrow
/// to the left; the far end stands at the left in both.
pub proof fn law_directed(
    src: IpAddr,
    dst: IpAddr,
    a: Seq<char>,
    b: Seq<char>,
    local: Seq<IpAddr>,
    w: int,
)
    ensures
        !local.contains(src) && local.contains(dst) ==> directed(src, dst, a, b, local, w)
            == numfmt::left(a, w) + " -> "@ + numfmt::right(b, w),
        local.contains(src) && !local.contains(dst) ==> directed(src, dst, a, b, local, w)
            == numfmt::left(b, w) + " <- "@ + numfmt::right(a, w),
        local.contains(src) == local.contains(dst) ==> directed(src, dst, a, b, local, w)
            == numfmt::left(a, w) + " → "@ + numfmt::right(b, w),
{
}

/// A stream that has no reverse among the others was sent by the caller where its source is the caller.
pub proof fn law_lone_stream(v: Seq<SummaryView>, caller: Option<IpAddr>, n: int, k: int)
    requires
        0 <= n <= v.len(),
        0 <= k < v.len(),
        v[k].flow is Some,
        forall|j: int|
            0 <= j < v.len() ==> (#[trigger] v[j]).flow != Some(v[k].flow->Some_0.spec_reverse()),
    ensures
        sides(v, caller, n).len() == v.len(),
        sides(v, caller, n)[k] is None,
        n == v.len() ==> sent_by_caller(v, caller)[k] == (caller == Some(v[k].flow->Some_0.src.ip)),
    decreases n,
{
    if n > 0 {
        law_lone_stream(v, caller, n - 1, k);
        let i = n - 1;
        lemma_reverse(v, v[i], 0);
        match reverse_from(v, v[i], 0) {
            Some(j) => {
                if j == k {
                    assert(v[i].flow is Some);
                    assert(v[i].flow->Some_0 == v[k].flow->Some_0.spec_reverse());
                }
            },
            None => {},
        }
    }
}

proof fn lemma_reverse(v: Seq<SummaryView>, s: SummaryView, j: int)
    requires
        0 <= j <= v.len(),
    ensures
        reverse_from(v, s, j) matches Some(k) ==> j <= k < v.len() && v[k].flow
            == crate::ui::lanes::reversed(s.flow),
    decreases v.len() - j,
{
    if j < v.len() {
        lemma_reverse(v, s, j + 1);
    }
}

/// Two streams in opposite directions have different senders, and the caller's is the one whose source is the
/// caller; where the caller is not known, the first is.
pub proof fn law_two_streams(a: SummaryView, b: SummaryView, caller: Option<IpAddr>)
    requires
        a.flow is Some,
        b.flow is Some,
        b.flow->Some_0 == a.flow->Some_0.spec_reverse(),
        a.flow != b.flow,
    ensures
        sent_by_caller(seq![a, b], caller)[0] != sent_by_caller(seq![a, b], caller)[1],
        caller == Some(a.flow->Some_0.src.ip) ==> sent_by_caller(seq![a, b], caller)[0],
        caller is Some && caller != Some(a.flow->Some_0.src.ip) ==> !sent_by_caller(
            seq![a, b],
            caller,
        )[0],
        caller is None ==> sent_by_caller(seq![a, b], caller)[0],
{
    let v = seq![a, b];
    reveal_with_fuel(sides, 3);
    reveal_with_fuel(reverse_from, 3);
    assert(reverse_from(v, v[0], 0) == Some(1int));
    assert(reverse_from(v, v[1], 0) == Some(0int));
    assert(sides(v, caller, 2) == sides(v, caller, 1));
}

/// The phases of a call: dialing from the INVITE to the first provisional answer, ringing and setup to the
/// answer, and talking from the answer to the BYE, or else to the end.
pub proof fn law_phases(t: CallTimes, a: u64, b: u64)
    ensures
        t.spec_phases().contains(Phase::Ring(a, b)) <==> t.ringing_ts == Some(a) && t.answer_ts
            == Some(b),
        t.spec_phases().contains(Phase::Setup(a, b)) <==> t.invite_ts == Some(a) && t.answer_ts
            == Some(b),
        t.spec_phases().contains(Phase::Talk(a, b)) <==> t.answer_ts == Some(a) && (t.bye_ts == Some(
            b,
        ) || t.bye_ts is None && t.end_ts == Some(b)),
        t.spec_phases().contains(Phase::Dial(a, b)) <==> t.invite_ts == Some(a) && (t.trying_ts
            == Some(b) || t.ringing_ts == Some(b)) && (t.trying_ts matches Some(x) ==> b <= x) && (
        t.ringing_ts matches Some(x) ==> b <= x),
{
    let s = t.spec_phases();
    lemma_phase(s);
    let e = Seq::<Phase>::empty();
    let p0 = match (t.invite_ts, t.provisional()) {
        (Some(x), Some(y)) => seq![Phase::Dial(x, y)],
        _ => e,
    };
    let p1 = match (t.ringing_ts, t.answer_ts) {
        (Some(x), Some(y)) => p0.push(Phase::Ring(x, y)),
        _ => p0,
    };
    let p2 = match (t.invite_ts, t.answer_ts) {
        (Some(x), Some(y)) => p1.push(Phase::Setup(x, y)),
        _ => p1,
    };
    let p3 = match (t.answer_ts, crate::ui::lanes::either(t.bye_ts, t.end_ts)) {
        (Some(x), Some(y)) => p2.push(Phase::Talk(x, y)),
        _ => p2,
    };
    assert(s.len() == p3.len() || s.len() == p3.len() + 1);
    assert(s.take(p3.len() as int) =~= p3);
    assert forall|i: int| 0 <= i < p3.len() implies #[trigger] s[i] == p3[i] by {}
    if p0.len() > 0 {
        assert(s[0] == p0[0]);
    }
    if p1.len() > p0.len() {
        assert(s[p0.len() as int] == p1.last());
    }
    if p2.len() > p1.len() {
        assert(s[p1.len() as int] == p2.last());
    }
    if p3.len() > p2.len() {
        assert(s[p2.len() as int] == p3.last());
    }
}

proof fn lemma_phase(s: Seq<Phase>)
    ensures
        forall|p: Phase| s.contains(p) <==> exists|i: int| 0 <= i < s.len() && s[i] == p,
{
}

// ----------------------------- colours -----------------------------

/// The colours of the statuses and of the messages.
pub proof fn law_inks(code: nat, m: MsgView)
    ensures
        100 <= code < 200 ==> status_ink(code) == Ink::Info,
        200 <= code < 300 ==> status_ink(code) == Ink::Success,
        300 <= code < 400 ==> status_ink(code) == Ink::Warning,
        code >= 400 || code < 100 ==> status_ink(code) == Ink::Error,
        m.is_request && m.method == Some(Method::Invite) ==> message_ink(m) == Ink::Success,
        m.is_request && (m.method == Some(Method::Bye) || m.method == Some(Method::Cancel))
            ==> message_ink(m) == Ink::Error,
        m.is_request && m.method == Some(Method::Ack) ==> message_ink(m) == Ink::Info,
        !m.is_request ==> (m.status matches Some(s) ==> (200 <= s < 300 <==> message_ink(m)
            == Ink::Success) && (s >= 300 <==> message_ink(m) == Ink::Error) && (s < 200
            <==> message_ink(m) == Ink::Warning)),
{
}

/// A header shows its name and the colon in one colour, and its value in another; a value without URIs, branches
/// or tags stays whole.
pub proof fn law_header_spans(name: Seq<char>, value: Seq<char>)
    requires
        lacks(name, ':'),
        value.len() > 0,
        !crate::ui::highlight::is_request_line(text::words_of(name + seq![':'] + value)),
        status_of(text::words_of(name + seq![':'] + value)) is None,
        crate::ui::highlight::token_from(value, 0) is None,
    ensures
        head_spans(name + seq![':'] + value) == seq![
            bold_piece(name + seq![':'], Ink::Accent),
            piece(value, Ink::Plain),
        ],
{
    law_cut(name, ':', value);
    assert(value.skip(0) =~= value);
    assert(head_spans(name + seq![':'] + value) =~= seq![
        bold_piece(name + seq![':'], Ink::Accent),
        piece(value, Ink::Plain),
    ]);
}

/// A line of the body shows its key and its value: media lines and attributes have colours of their own.
pub proof fn law_body_spans(key: Seq<char>, value: Seq<char>)
    requires
        lacks(key, '='),
    ensures
        body_spans(key + seq!['='] + value) == seq![
            bold_piece(key + seq!['='], key_ink(key)),
            piece(value, Ink::Plain),
        ],
        body_spans(key) == seq![piece(key, Ink::Muted)],
        text::trimmed(key) == "m"@ ==> key_ink(key) == Ink::Warning,
        text::trimmed(key) == "a"@ ==> key_ink(key) == Ink::Info,
        text::trimmed(key) != "m"@ && text::trimmed(key) != "a"@ ==> key_ink(key) == Ink::Muted,
{
    reveal_strlit("m");
    reveal_strlit("a");
    assert("m"@[0] != "a"@[0]);
    law_cut(key, '=', value);
}

/// The lines before the first blank one are the head, and those behind it the body.
pub proof fn law_head_and_body(ls: Seq<Seq<char>>, i: int, k: int)
    requires
        0 <= i < ls.len(),
        0 <= k < ls.len(),
        text::trimmed(ls[k]).len() == 0,
        forall|j: int| 0 <= j < k ==> text::trimmed(#[trigger] ls[j]).len() > 0,
    ensures
        i < k ==> line_spans(ls, i) == head_spans(ls[i]),
        i > k ==> line_spans(ls, i) == body_spans(ls[i]),
        i == k && ls[i].len() == 0 ==> line_spans(ls, i).len() == 0,
{
    if i > k {
        assert(body_begun(ls, i));
    }
}

/// The line above a call that says how it ended.
pub proof fn law_end_line(c: u32, r: Seq<char>, ua: Seq<char>, a: SocketAddr)
    ensures
        end_of(None, None, None) == "End: -"@,
        end_of(None, Some(c), Some(r)) == "End: "@ + text::dec(c as nat) + " "@ + r,
        end_of(Some(HangupBy::Callee), Some(c), Some(r)) == "End: "@ + "←BYE"@ + " "@ + text::dec(
            c as nat,
        ),
        party_text(Some(ua), Some(a), false) == ua + " @ "@ + addr_text::socket_text(a),
        party_text(None, None, false) == "?"@ + " @ "@ + "?"@,
{
}

/// A call is shown in three lanes where it has two legs, each with an INVITE that opened it; else in two.
pub proof fn law_lane_count(msgs: Seq<MsgView>, legs: Seq<u8>, local: Seq<IpAddr>)
    ensures
        classified(msgs, legs, local) is Some ==> columns(msgs, legs, local).len() == 3
            && splits_in_two(legs) && leg_invite(msgs, legs, 0, 0) is Some && leg_invite(
            msgs,
            legs,
            1,
            0,
        ) is Some,
        classified(msgs, legs, local) is None ==> columns(msgs, legs, local).len() == 2,
        classified(msgs, legs, local) matches Some(l) ==> columns(msgs, legs, local)[0] == l.a_remote
            && columns(msgs, legs, local)[2] == l.b_remote,
        classified(msgs, legs, local) is None ==> (two_ends(msgs) matches Some(e) ==> columns(
            msgs,
            legs,
            local,
        ) == seq![e.0, e.1]),
{
}

/// The lane between shows the box at the address and port at which the first message to or from it has it.
pub proof fn law_box_address(msgs: Seq<MsgView>, ip: IpAddr, k: int)
    requires
        0 <= k < msgs.len(),
        forall|i: int|
            0 <= i < k ==> (#[trigger] msgs[i]).flow.src.ip != ip && msgs[i].flow.dst.ip != ip,
    ensures
        msgs[k].flow.src.ip == ip ==> seen_as(msgs, ip, 0) == msgs[k].flow.src,
        msgs[k].flow.src.ip != ip && msgs[k].flow.dst.ip == ip ==> seen_as(msgs, ip, 0)
            == msgs[k].flow.dst,
        seen_as(Seq::empty(), ip, 0) == (SocketAddr { ip, port: 5060 }),
{
    lemma_seen_as(msgs, ip, 0, k);
}

proof fn lemma_seen_as(msgs: Seq<MsgView>, ip: IpAddr, i: int, k: int)
    requires
        0 <= i <= k < msgs.len(),
        forall|j: int|
            i <= j < k ==> (#[trigger] msgs[j]).flow.src.ip != ip && msgs[j].flow.dst.ip != ip,
    ensures
        seen_as(msgs, ip, i) == seen_as(msgs, ip, k),
    decreases k - i,
{
    if i < k {
        lemma_seen_as(msgs, ip, i + 1, k);
    }
}

/// Without local addresses the box is where the legs meet, and the leg whose INVITE goes to it, the earlier of
/// two such, is the first.
pub proof fn law_lanes_around_meeting(
    msgs: Seq<MsgView>,
    legs: Seq<u8>,
    p: MsgView,
    q: MsgView,
    ip: IpAddr,
)
    requires
        mid_ip(msgs, legs) == Some(ip),
    ensures
        p.flow.dst.ip == ip && q.flow.dst.ip != ip ==> (lanes_of(msgs, legs, Seq::empty(), p, q)
            matches Some(l) && l.a_leg == 0 && l.b_leg == 1 && l.pbx == ip && l.a_remote == far_end(
            p.flow,
            ip,
        ) && l.b_remote == far_end(q.flow, ip)),
        p.flow.dst.ip != ip && q.flow.dst.ip == ip ==> (lanes_of(msgs, legs, Seq::empty(), p, q)
            matches Some(l) && l.a_leg == 1 && l.b_leg == 0 && l.pbx == ip && l.a_remote == far_end(
            q.flow,
            ip,
        )),
        p.flow.dst.ip == ip && q.flow.dst.ip == ip && p.ts_us <= q.ts_us ==> (lanes_of(
            msgs,
            legs,
            Seq::empty(),
            p,
            q,
        ) matches Some(l) && l.a_leg == 0),
        p.flow.dst.ip == ip && q.flow.dst.ip == ip && p.ts_us > q.ts_us ==> (lanes_of(
            msgs,
            legs,
            Seq::empty(),
            p,
            q,
        ) matches Some(l) && l.a_leg == 1),
        p.flow.dst.ip != ip && q.flow.dst.ip != ip ==> lanes_of(msgs, legs, Seq::empty(), p, q)
            is None,
{
}

/// The title of a call: its ID, its parties and its state; the other leg and a relay are told behind it.
pub proof fn law_title(f: FocusView, id: Seq<char>)
    requires
        f.b2bua is None,
        forall|i: int| 0 <= i < f.streams.len() ==> !(#[trigger] f.streams[i]).via_turn,
    ensures
        title_of(f, false, None) == "Call "@ + f.call_id + " ("@ + user_text(
            f.from_user,
            false,
            "?"@,
        ) + " → "@ + user_text(f.to_user, false, "?"@) + ") ["@ + f.state.spec_label() + "]"@,
        title_of(f, false, Some(id)) == "Call "@ + f.call_id + " ("@ + user_text(
            f.from_user,
            false,
            "?"@,
        ) + " → "@ + user_text(f.to_user, false, "?"@) + ") ["@ + f.state.spec_label() + "]"@ + (
        "  ⇄ b-leg "@ + id),
{
    let e = Seq::<char>::empty();
    let t = "Call "@ + f.call_id + " ("@ + user_text(f.from_user, false, "?"@) + " → "@ + user_text(
        f.to_user,
        false,
        "?"@,
    ) + ") ["@ + f.state.spec_label() + "]"@;
    assert(t + e + e + e =~= t);
    let l = "  ⇄ b-leg "@ + id;
    assert(t + e + l + e =~= t + l);
}

/// The times above a call are under their names.
pub proof fn law_timing(f: FocusView)
    ensures
        timing_of(f) == "PDD "@ + numfmt::secs_text(
            match f.pdd_ms {
                Some(n) => Some(n as u64),
                None => None,
            },
        ) + " | Setup "@ + numfmt::secs_text(
            match f.setup_ms {
                Some(n) => Some(n as u64),
                None => None,
            },
        ) + " | Ring "@ + numfmt::secs_text(
            match f.ring_ms {
                Some(n) => Some(n as u64),
                None => None,
            },
        ) + " | EarlyMedia "@ + (if f.early_media {
            "✓"@
        } else {
            "-"@
        }),
{
}

/// The caller stands above the callee.
pub proof fn law_heading(f: FocusView, privacy: bool, linked: Option<Seq<char>>)
    ensures
        heading_of(f, privacy, linked).len() == 4,
        heading_of(f, privacy, linked)[1] == "Caller ← "@ + party_text(
            f.caller_ua,
            f.caller_addr,
            privacy,
        ),
        heading_of(f, privacy, linked)[2] == "Callee → "@ + party_text(
            f.callee_ua,
            f.callee_addr,
            privacy,
        ),
{
}

/// The titles of the pages.
pub proof fn law_page_titles()
    ensures
        Page::Overview.spec_title() == "Overview"@,
        Page::CallDetail.spec_title() == "Call Detail"@,
        Page::Heatmap.spec_title() == "SIP Stats"@,
        Page::Streams.spec_title() == "Streams"@,
        Page::EventLog.spec_title() == "Event Log"@,
        Page::IpStats.spec_title() == "IP Stats"@,
{
}

/// A request line shows its method, its URI and its version.
pub proof fn law_request_line_spans(l: Seq<char>, uri: Seq<char>, ver: Seq<char>)
    requires
        text::words_of(l) == seq!["INVITE"@, uri, ver],
        text::occurs_at(ver, "SIP/"@, 0),
    ensures
        head_spans(l) == seq![
            bold_piece("INVITE"@, Ink::Success),
            piece(" "@, Ink::Bare),
            piece(uri, Ink::Info),
            piece(" "@, Ink::Bare),
            piece(ver, Ink::Muted),
        ],
{
}

/// A token begins where its mark stands first, and ends before the first character that ends it.
pub proof fn law_token(t: Seq<char>, p: Seq<char>, end: Class, kind: TokenKind, i: int)
    requires
        0 <= i <= t.len(),
        p.len() > 0,
    ensures
        token_like(t, i, p, end, kind) matches Some(x) ==> i <= x.0 && x.0 + p.len() <= x.1
            <= t.len() && text::occurs_at(t, p, x.0) && x.2 == kind && (x.1 < t.len() ==> end.has(
            t[x.1],
        )) && (forall|j: int| x.0 + p.len() <= j < x.1 ==> !end.has(#[trigger] t[j])) && (forall|
            j: int,
        |
            i <= j < x.0 ==> !#[trigger] text::occurs_at(t, p, j)),
        token_like(t, i, p, end, kind) is None ==> forall|j: int|
            i <= j ==> !#[trigger] text::occurs_at(t, p, j),
{
    text::lemma_find_from(t, p, i);
    if let Some(a) = text::find_from(t, p, i) {
        text::lemma_scan(t, a + p.len(), end, true);
    }
}

/// A URI, a branch and a tag have colours of their own.
pub proof fn law_token_inks()
    ensures
        TokenKind::Uri.spec_ink() == Ink::Info,
        TokenKind::Branch.spec_ink() == Ink::Warning,
        TokenKind::Tag.spec_ink() == Ink::Accent,
{
}

/// A message shows every line of its text, in order.
pub proof fn law_message_lines(t: Seq<char>, i: int)
    requires
        0 <= i < text::lines_of(t).len(),
    ensures
        message_spans(t).len() == text::lines_of(t).len(),
        message_spans(t)[i] == line_spans(text::lines_of(t), i),
{
}

/// A raw text of two lines is masked in both.
pub proof fn law_masked_raw(a: Seq<char>, b: Seq<char>)
    requires
        lacks(a, '\n'),
        lacks(b, '\n'),
        a.len() > 0,
        b.len() > 0,
        a.last() != '\r',
    ensures
        masked_raw(a) == masked_line(a),
        masked_raw(a + "\n"@ + b) == masked_line(a) + "\n"@ + masked_line(b),
{
    reveal_strlit("\n");
    law_lines(a, b);
    law_lines(b, Seq::empty());
    assert(text::lines_of(a + "\n"@ + b) =~= seq![a, b]);
    reveal_with_fuel(masked_lines, 3);
    assert("\n"@ =~= seq!['\n']);
}

/// The bars stand in the middle of the lanes, and nothing stands between them.
pub proof fn law_bars(cs: Seq<usize>, width: nat, n: int, j: int)
    requires
        0 <= n <= cs.len(),
        0 <= j < width,
        forall|i: int| 0 <= i < cs.len() ==> #[trigger] cs[i] < width,
    ensures
        bars(cs, width, n).len() == width,
        (exists|i: int| 0 <= i < n && #[trigger] cs[i] == j) ==> bars(cs, width, n)[j] == 124,
        (forall|i: int| 0 <= i < n ==> #[trigger] cs[i] != j) ==> bars(cs, width, n)[j] == 32,
    decreases n,
{
    if n > 0 {
        law_bars(cs, width, n - 1, j);
        if exists|i: int| 0 <= i < n && #[trigger] cs[i] == j {
            let i = choose|i: int| 0 <= i < n && #[trigger] cs[i] == j;
            if cs[n - 1] != j {
                assert(0 <= i < n - 1 && cs[i] == j);
            }
        }
    }
}

/// An arrow lies between the bars of its two lanes and leaves the rest of the row as it is; a message within one
/// lane has none.
pub proof fn law_row(n: nat, from: int, to: int, label: Seq<char>, width: nat, j: int)
    requires
        0 <= from < n,
        0 <= to < n,
        0 < width,
        0 <= j < width,
        forall|i: int| 0 <= i < n ==> #[trigger] centers(n, width)[i] < width,
    ensures
        from == to ==> row_canvas(n, from, to, label, width) == bars(
            centers(n, width),
            width,
            n as int,
        ),
        from < to && centers(n, width)[from] < centers(n, width)[to] && (j <= centers(n, width)[from]
            || j >= centers(n, width)[to]) ==> row_canvas(n, from, to, label, width)[j] == bars(
            centers(n, width),
            width,
            n as int,
        )[j],
        to < from && centers(n, width)[to] < centers(n, width)[from] && (j <= centers(n, width)[to]
            || j >= centers(n, width)[from]) ==> row_canvas(n, from, to, label, width)[j] == bars(
            centers(n, width),
            width,
            n as int,
        )[j],
{
    law_bars(centers(n, width), width, n as int, j);
}

} // verus!
