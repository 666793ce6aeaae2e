//! Start lines, headers and addresses of SIP messages.
use crate::correlate::call::attr_in;
use crate::correlate::call_laws::{law_same_word, same_letters};
use crate::decode::sip::{
    begins_as_sip, contact_of, count_of, cseq_of, first_value, head_of, host_at, host_in, kept,
    message_of, name_addr, named_value, opens_with, start_of, Start,
};
use crate::decode::tcp_reasm;
use crate::export::tables::method_of;
use crate::model::addr::SocketAddr;
use crate::model::addr_laws::{lacks, law_ip_read_back, law_socket_read_back};
use crate::model::addr_text;
use crate::model::packet::Flow5Tuple;
use crate::model::sip::Method;
use crate::text;
use crate::text::{dec, is_space, trimmed, words_of, Class};
use crate::text_laws::{law_cut, law_number, law_word_and_rest, law_words, none_of};
use vstd::prelude::*;

verus! {

// ----------------------------- start line -----------------------------

/// One word, without white space.
pub open spec fn is_word(w: Seq<char>) -> bool {
    w.len() > 0 && none_of(w, Class::Space)
}

proof fn lemma_three_words(a: Seq<char>, b: Seq<char>, c: Seq<char>)
    requires
        is_word(a),
        is_word(b),
        is_word(c),
    ensures
        words_of(a + " "@ + b + " "@ + c) == seq![a, b, c],
{
    law_word_and_rest(c, c);
    law_word_and_rest(b, c);
    law_word_and_rest(a, b + " "@ + c);
    assert(a + " "@ + (b + " "@ + c) =~= a + " "@ + b + " "@ + c);
    assert(seq![a] + (seq![b] + seq![c]) =~= seq![a, b, c]);
}

proof fn lemma_first_words(a: Seq<char>, b: Seq<char>, rest: Seq<char>)
    requires
        is_word(a),
        is_word(b),
        rest.len() == 0 || is_space(rest[0]),
    ensures
        words_of(a + " "@ + b + rest).len() >= 2,
        words_of(a + " "@ + b + rest)[0] == a,
        words_of(a + " "@ + b + rest)[1] == b,
{
    reveal_strlit(" ");
    let e = Seq::<char>::empty();
    let s = " "@;
    assert(is_space(s[0]));
    law_words(s, b, rest);
    law_words(e, a, s + b + rest);
    assert((s + b + rest)[0] == ' ');
    assert(e + a + (s + b + rest) =~= a + s + b + rest);
    assert(words_of(a + s + b + rest) == seq![a] + (seq![b] + words_of(rest)));
}

proof fn lemma_version_word()
    ensures
        is_word("SIP/2.0"@),
{
    reveal_strlit("SIP/2.0");
    assert forall|i: int| 0 <= i < "SIP/2.0"@.len() implies !Class::Space.has(
        #[trigger] "SIP/2.0"@[i],
    ) by {
    }
}

/// A request line is a method, a URI and the version.
pub proof fn law_request_line(method: Seq<char>, uri: Seq<char>)
    requires
        is_word(method),
        is_word(uri),
        method != "SIP/2.0"@,
    ensures
        start_of(method + " "@ + uri + " "@ + "SIP/2.0"@) == Some(Start::Request(method_of(method))),
{
    lemma_version_word();
    lemma_three_words(method, uri, "SIP/2.0"@);
}

/// A status line is the version and a status from 100 to 699, and whatever follows.
pub proof fn law_status_line(n: nat, rest: Seq<char>)
    requires
        rest.len() == 0 || is_space(rest[0]),
    ensures
        100 <= n <= 699 ==> start_of("SIP/2.0"@ + " "@ + dec(n) + rest) == Some(
            Start::Response(n as u16),
        ),
        n < 100 || n > 699 ==> start_of("SIP/2.0"@ + " "@ + dec(n) + rest) is None,
{
    lemma_version_word();
    crate::model::addr_laws::lemma_dec(n);
    assert(none_of(dec(n), Class::Space)) by {
        assert forall|i: int| 0 <= i < dec(n).len() implies !Class::Space.has(
            #[trigger] dec(n)[i],
        ) by {
            assert(text::is_digit(dec(n)[i]));
        }
    }
    lemma_first_words("SIP/2.0"@, dec(n), rest);
    law_number(n, 699);
}

/// A method is told by its name, in any case of letters.
pub proof fn law_method_named(t: Seq<char>, m: Method)
    ensures
        m != Method::Other && same_letters(t, m.spec_name()) ==> method_of(t) == m,
        method_of(t) != Method::Other ==> same_letters(t, method_of(t).spec_name()),
{
    law_same_word(t, "INVITE"@);
    law_same_word(t, "ACK"@);
    law_same_word(t, "BYE"@);
    law_same_word(t, "CANCEL"@);
    law_same_word(t, "REGISTER"@);
    law_same_word(t, "OPTIONS"@);
    law_same_word(t, "PRACK"@);
    law_same_word(t, "UPDATE"@);
    law_same_word(t, "SUBSCRIBE"@);
    law_same_word(t, "NOTIFY"@);
    law_same_word(t, "PUBLISH"@);
    law_same_word(t, "INFO"@);
    law_same_word(t, "REFER"@);
    law_same_word(t, "MESSAGE"@);
    if m != Method::Other && same_letters(t, m.spec_name()) {
        lemma_names_apart(t, m, method_of(t));
    }
}

proof fn lemma_names_apart(t: Seq<char>, a: Method, b: Method)
    requires
        a != Method::Other,
        b != Method::Other,
        same_letters(t, a.spec_name()),
        same_letters(t, b.spec_name()),
    ensures
        a == b,
{
    reveal_strlit("INVITE");
    reveal_strlit("ACK");
    reveal_strlit("BYE");
    reveal_strlit("CANCEL");
    reveal_strlit("REGISTER");
    reveal_strlit("OPTIONS");
    reveal_strlit("PRACK");
    reveal_strlit("UPDATE");
    reveal_strlit("SUBSCRIBE");
    reveal_strlit("NOTIFY");
    reveal_strlit("PUBLISH");
    reveal_strlit("INFO");
    reveal_strlit("REFER");
    reveal_strlit("MESSAGE");
    let x = a.spec_name();
    let y = b.spec_name();
    assert(x.len() == t.len() && y.len() == t.len());
    assert(crate::correlate::call_laws::alike(t[0], x[0]));
    assert(crate::correlate::call_laws::alike(t[0], y[0]));
    assert(crate::correlate::call_laws::alike(t[1], x[1]));
    assert(crate::correlate::call_laws::alike(t[1], y[1]));
    assert(crate::correlate::call_laws::alike(t[2], x[2]));
    assert(crate::correlate::call_laws::alike(t[2], y[2]));
}

// ----------------------------- headers -----------------------------

/// A header is found by its long or its short name in any case of letters; its value is what follows the
/// first colon, without white space at its ends.
pub proof fn law_header(name: Seq<char>, value: Seq<char>, long: Seq<char>, short: Seq<char>)
    requires
        lacks(name, ':'),
    ensures
        named_value(name + seq![':'] + value, long, short) == (if same_letters(trimmed(name), long)
            || same_letters(trimmed(name), short) {
            Some(trimmed(value))
        } else {
            None
        }),
        named_value(name, long, short) is None,
{
    law_cut(name, ':', value);
    law_same_word(trimmed(name), long);
    law_same_word(trimmed(name), short);
}

/// The first header of a name is the one that counts.
pub proof fn law_first_header(
    ls: Seq<Seq<char>>,
    long: Seq<char>,
    short: Seq<char>,
    i: int,
    k: int,
)
    requires
        0 <= i <= ls.len(),
    ensures
        i <= k < ls.len() && named_value(ls[k], long, short) is Some && (forall|x: int|
            i <= x < k ==> named_value(#[trigger] ls[x], long, short) is None) ==> first_value(
            ls,
            long,
            short,
            i,
        ) == named_value(ls[k], long, short),
        (forall|x: int| i <= x < ls.len() ==> named_value(#[trigger] ls[x], long, short) is None)
            ==> first_value(ls, long, short, i) is None,
    decreases ls.len() - i,
{
    if i < ls.len() && named_value(ls[i], long, short) is None {
        law_first_header(ls, long, short, i + 1, k);
    }
}

/// Every line of a name counts.
pub proof fn law_headers_counted(ls: Seq<Seq<char>>, name: Seq<char>, n: int)
    requires
        0 <= n < ls.len(),
    ensures
        count_of(ls, name, 0) == 0,
        named_value(ls[n], name, name) is Some ==> count_of(ls, name, n + 1) == count_of(ls, name, n) + 1,
        named_value(ls[n], name, name) is None ==> count_of(ls, name, n + 1) == count_of(ls, name, n),
{
}

/// The number of a CSeq value is its first word, the method its second.
pub proof fn law_cseq(n: u32, method: Seq<char>)
    requires
        is_word(method),
    ensures
        cseq_of(dec(n as nat) + " "@ + method) == (Some(n), Some(method)),
{
    crate::model::addr_laws::lemma_dec(n as nat);
    assert(none_of(dec(n as nat), Class::Space)) by {
        assert forall|i: int| 0 <= i < dec(n as nat).len() implies !Class::Space.has(
            #[trigger] dec(n as nat)[i],
        ) by {
            assert(text::is_digit(dec(n as nat)[i]));
        }
    }
    let e = Seq::<char>::empty();
    lemma_first_words(dec(n as nat), method, e);
    assert(dec(n as nat) + " "@ + method + e =~= dec(n as nat) + " "@ + method);
    law_number(n as nat, 0xffff_ffff);
}

/// A From or To value ends at its closing bracket, or else at its first parameter.
pub proof fn law_name_addr(a: Seq<char>, b: Seq<char>)
    requires
        lacks(a, '>'),
    ensures
        name_addr(a + seq!['>'] + b) == a + seq!['>'],
        lacks(a, ';') && lacks(b, '>') ==> name_addr(a + seq![';'] + b) == trimmed(a),
        lacks(a, ';') ==> name_addr(a) == trimmed(a),
{
    let v = a + seq!['>'] + b;
    let n = a.len() as int;
    assert forall|x: int| 0 <= x < n implies #[trigger] v[x] != '>' by {
        assert(v[x] == a[x]);
    }
    crate::model::addr_laws::lemma_scan_first(v, 0, '>', n);
    assert(v.take(n + 1) =~= a + seq!['>']);
    if lacks(a, ';') {
        law_cut(a, ';', b);
        crate::model::addr_laws::lemma_scan_lacking(a, 0, '>');
        if lacks(b, '>') {
            let w = a + seq![';'] + b;
            assert forall|i: int| 0 <= i < w.len() implies #[trigger] w[i] != '>' by {
                if i < n {
                    assert(w[i] == a[i]);
                } else if i > n {
                    assert(w[i] == b[i - n - 1]);
                }
            }
            crate::model::addr_laws::lemma_scan_lacking(w, 0, '>');
        }
    }
}

/// A Contact names the address and the port of its host; without a port it is 5060, and a name that is no
/// address names none.
pub proof fn law_contact(v: Seq<char>, a: SocketAddr)
    ensures
        host_in(v) == addr_text::socket_text(a) ==> contact_of(v) == Some(a),
        addr_text::socket_of(host_in(v)) is None && host_in(v) == addr_text::ip_text(a.ip)
            ==> contact_of(v) == Some(SocketAddr { ip: a.ip, port: 5060 }),
        addr_text::socket_of(host_in(v)) is None && addr_text::ip_of(host_in(v)) is None
            ==> contact_of(v) is None,
{
    law_socket_read_back(a);
    law_ip_read_back(a.ip);
}

/// The host stands behind the last at sign of a URI, or at its beginning.
pub proof fn law_host(user: Seq<char>, host: Seq<char>)
    requires
        lacks(host, '@'),
    ensures
        host_at(user + seq!['@'] + host) == user.len() + 1,
        host_at(host) == 0,
{
    let t = user + seq!['@'] + host;
    let n = user.len() as int;
    assert forall|x: int| n < x < t.len() implies #[trigger] t[x] != '@' by {
        assert(t[x] == host[x - n - 1]);
    }
    lemma_at(t, t.len() as int, n);
    lemma_no_at(host, host.len() as int);
}

proof fn lemma_at(t: Seq<char>, m: int, k: int)
    requires
        0 <= k < m <= t.len(),
        t[k] == '@',
        forall|x: int| k < x < m ==> #[trigger] t[x] != '@',
    ensures
        crate::correlate::call::last_before(t, '@', m) == k,
    decreases m,
{
    if m - 1 > k {
        assert(t[m - 1] != '@');
        lemma_at(t, m - 1, k);
    }
}

proof fn lemma_no_at(t: Seq<char>, m: int)
    requires
        0 <= m <= t.len(),
        lacks(t, '@'),
    ensures
        crate::correlate::call::last_before(t, '@', m) == t.len(),
    decreases m,
{
    if m > 0 {
        assert(t[m - 1] != '@');
        lemma_no_at(t, m - 1);
    }
}

// ----------------------------- messages -----------------------------

/// Which header each field of a message comes from. A message without a proper first line or without a
/// Call-ID is none.
pub proof fn law_message_fields(
    ts: u64,
    flow: Flow5Tuple,
    b: Seq<u8>,
    limit: Option<usize>,
    ls: Seq<Seq<char>>,
)
    ensures
        ls.len() == 0 ==> message_of(ts, flow, b, limit, ls) is None,
        ls.len() > 0 ==> (message_of(ts, flow, b, limit, ls) is Some <==> start_of(ls[0]) is Some
            && first_value(ls, "call-id"@, "i"@, 0) is Some),
        message_of(ts, flow, b, limit, ls) matches Some(m) ==> {
            &&& m.ts_us == ts
            &&& m.flow == flow
            &&& start_of(ls[0]) matches Some(Start::Request(k)) ==> m.is_request && m.method == Some(k)
                && m.status is None
            &&& start_of(ls[0]) matches Some(Start::Response(n)) ==> !m.is_request && m.method is None
                && m.status == Some(n)
            &&& Some(m.call_id) == first_value(ls, "call-id"@, "i"@, 0)
            &&& first_value(ls, "from"@, "f"@, 0) matches Some(v) ==> m.from_uri == Some(name_addr(v))
                && m.from_tag == attr_in(v, ";tag"@)
            &&& first_value(ls, "from"@, "f"@, 0) is None ==> m.from_uri is None && m.from_tag is None
            &&& first_value(ls, "to"@, "t"@, 0) matches Some(v) ==> m.to_uri == Some(name_addr(v))
                && m.to_tag == attr_in(v, ";tag"@)
            &&& first_value(ls, "to"@, "t"@, 0) is None ==> m.to_uri is None && m.to_tag is None
            &&& first_value(ls, "via"@, "v"@, 0) matches Some(v) ==> m.branch == attr_in(
                v,
                ";branch"@,
            )
            &&& first_value(ls, "cseq"@, "cseq"@, 0) matches Some(v) ==> m.cseq == cseq_of(v).0
                && m.cseq_method == cseq_of(v).1
            &&& first_value(ls, "cseq"@, "cseq"@, 0) is None ==> m.cseq is None && m.cseq_method
                is None
            &&& first_value(ls, "contact"@, "m"@, 0) matches Some(v) ==> m.contact_addr == contact_of(
                v,
            )
            &&& first_value(ls, "contact"@, "m"@, 0) is None ==> m.contact_addr is None
            &&& m.has_sdp <==> (first_value(ls, "content-type"@, "c"@, 0) is Some && text::has_sub(
                text::lower(first_value(ls, "content-type"@, "c"@, 0)->Some_0),
                "application/sdp"@,
            ))
            &&& m.route_count == count_of(ls, "route"@, ls.len() as int) as usize
            &&& m.record_route_count == count_of(ls, "record-route"@, ls.len() as int) as usize
            &&& m.raw == kept(b, limit)
        },
{
}

/// Of a message as many bytes are kept as the limit allows, from its beginning; all, without a limit.
pub proof fn law_bytes_kept(b: Seq<u8>, n: usize)
    ensures
        kept(b, None) == b,
        b.len() <= n ==> kept(b, Some(n)) == b,
        b.len() > n ==> kept(b, Some(n)) == b.take(n as int),
{
}

/// The headers are what stands before the first empty line, or everything.
pub proof fn law_head(b: Seq<u8>)
    ensures
        tcp_reasm::blank_line_from(b, 0) matches Some(i) ==> head_of(b) == b.take(i),
        tcp_reasm::blank_line_from(b, 0) is None ==> head_of(b) == b,
{
}

/// Bytes that begin with a method and a blank, or with the version of a status line and a blank, begin as
/// SIP does.
pub proof fn law_begins_as_sip(b: Seq<u8>, m: Method)
    requires
        m != Method::Other,
        b.len() > m.spec_name().len(),
        forall|i: int|
            0 <= i < m.spec_name().len() ==> #[trigger] b[i] as u32 == m.spec_name()[i] as u32,
        b[m.spec_name().len() as int] == 32,
    ensures
        begins_as_sip(b),
{
    reveal_strlit("INVITE");
    reveal_strlit("INVITE ");
    reveal_strlit("ACK");
    reveal_strlit("ACK ");
    reveal_strlit("BYE");
    reveal_strlit("BYE ");
    reveal_strlit("CANCEL");
    reveal_strlit("CANCEL ");
    reveal_strlit("REGISTER");
    reveal_strlit("REGISTER ");
    reveal_strlit("OPTIONS");
    reveal_strlit("OPTIONS ");
    reveal_strlit("PRACK");
    reveal_strlit("PRACK ");
    reveal_strlit("UPDATE");
    reveal_strlit("UPDATE ");
    reveal_strlit("SUBSCRIBE");
    reveal_strlit("SUBSCRIBE ");
    reveal_strlit("NOTIFY");
    reveal_strlit("NOTIFY ");
    reveal_strlit("PUBLISH");
    reveal_strlit("PUBLISH ");
    reveal_strlit("INFO");
    reveal_strlit("INFO ");
    reveal_strlit("REFER");
    reveal_strlit("REFER ");
    reveal_strlit("MESSAGE");
    reveal_strlit("MESSAGE ");
    match m {
        Method::Invite => { assert(opens_with(b, "INVITE "@)); },
        Method::Ack => { assert(opens_with(b, "ACK "@)); },
        Method::Bye => { assert(opens_with(b, "BYE "@)); },
        Method::Cancel => { assert(opens_with(b, "CANCEL "@)); },
        Method::Register => { assert(opens_with(b, "REGISTER "@)); },
        Method::Options => { assert(opens_with(b, "OPTIONS "@)); },
        Method::Prack => { assert(opens_with(b, "PRACK "@)); },
        Method::Update => { assert(opens_with(b, "UPDATE "@)); },
        Method::Subscribe => { assert(opens_with(b, "SUBSCRIBE "@)); },
        Method::Notify => { assert(opens_with(b, "NOTIFY "@)); },
        Method::Publish => { assert(opens_with(b, "PUBLISH "@)); },
        Method::Info => { assert(opens_with(b, "INFO "@)); },
        Method::Refer => { assert(opens_with(b, "REFER "@)); },
        Method::Message => { assert(opens_with(b, "MESSAGE "@)); },
        Method::Other => {},
    }
}

} // verus!
