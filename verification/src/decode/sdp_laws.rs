//! Session descriptions, line by line.
use crate::decode::sdp::{
    codec_in, codec_name, codec_of, codec_rate, codecs_for, connection_of, direction_of,
    endpoints_of, line_step, lines_step, media_of, offered, rate_in, session_of, static_name,
    CodecView, MediaView, SdpDirection, SdpProgress, SessionView,
};
use crate::model::addr::{IpAddr, SocketAddr};
use crate::model::addr_laws::{lacks, law_ip_read_back, lemma_dec, lemma_split_one, lemma_split_push};
use crate::model::addr_text;
use crate::text;
use crate::text::{dec, is_space, trimmed, words_of, Class};
use crate::text_laws::{law_cut, law_number, law_trimmed, law_word_and_rest, law_words, none_of};
use vstd::prelude::*;

verus! {

/// A text without white space at its ends.
pub open spec fn tight(t: Seq<char>) -> bool {
    t.len() > 0 && !is_space(t[0]) && !is_space(t.last())
}

proof fn lemma_tight(t: Seq<char>)
    requires
        tight(t),
    ensures
        trimmed(t) == t,
{
    let e = Seq::<char>::empty();
    law_trimmed(e, t, e, Class::Space);
    assert(e + t + e =~= t);
}

proof fn lemma_line(key: char, value: Seq<char>)
    requires
        key != '=',
        !is_space(key),
        tight(value),
    ensures
        text::split_once_at(trimmed(seq![key] + seq!['='] + value), '=') == Some((seq![key], value)),
        trimmed(value) == value,
{
    let l = seq![key] + seq!['='] + value;
    assert(l[0] == key);
    assert(l.last() == value.last());
    lemma_tight(l);
    lemma_tight(value);
    law_cut(seq![key], '=', value);
}

proof fn lemma_keys()
    ensures
        "c"@ =~= seq!['c'],
        "m"@ =~= seq!['m'],
        "a"@ =~= seq!['a'],
        "c"@ != "m"@,
        "c"@ != "a"@,
        "m"@ != "a"@,
{
    reveal_strlit("c");
    reveal_strlit("m");
    reveal_strlit("a");
    assert("c"@[0] == 'c' && "m"@[0] == 'm' && "a"@[0] == 'a');
}

// ----------------------------- lines -----------------------------

/// A connection line gives the address that it ends with.
pub proof fn law_connection(ip: IpAddr, a: Seq<char>, b: Seq<char>)
    requires
        a.len() > 0,
        none_of(a, Class::Space),
        b.len() > 0,
        none_of(b, Class::Space),
        none_of(addr_text::ip_text(ip), Class::Space),
        addr_text::ip_text(ip).len() > 0,
    ensures
        connection_of(a + " "@ + b + " "@ + addr_text::ip_text(ip)) == Some(ip),
        connection_of(addr_text::ip_text(ip)) == Some(ip),
        connection_of(Seq::empty()) is None,
{
    law_ip_read_back(ip);
    let c = addr_text::ip_text(ip);
    law_word_and_rest(c, c);
    law_word_and_rest(b, c);
    law_word_and_rest(a, b + " "@ + c);
    assert(a + " "@ + (b + " "@ + c) =~= a + " "@ + b + " "@ + c);
    assert(seq![a] + (seq![b] + seq![c]) =~= seq![a, b, c]);
    law_words(Seq::empty(), c, Seq::empty());
}

/// A connection line is about the media line before it, or about the session where none has come yet.
pub proof fn law_connection_line(p: SdpProgress, v: Seq<char>)
    requires
        tight(v),
    ensures
        p.current is None ==> line_step(p, "c="@ + v) == (SdpProgress {
            connection_ip: connection_of(v),
            ..p
        }),
        p.current matches Some(m) ==> line_step(p, "c="@ + v) == (SdpProgress {
            current: Some(MediaView { connection_ip: connection_of(v), ..m }),
            ..p
        }),
{
    reveal_strlit("c=");
    lemma_keys();
    lemma_line('c', v);
    assert("c="@ + v =~= seq!['c'] + seq!['='] + v);
}

/// A media line ends the one before it and begins another, without an address or a direction of its own.
pub proof fn law_media_line(p: SdpProgress, v: Seq<char>)
    requires
        tight(v),
    ensures
        ({
            let q = line_step(p, "m="@ + v);
            &&& q.done == (match p.current {
                Some(m) => p.done.push(m),
                None => p.done,
            })
            &&& q.current is Some
            &&& q.current->Some_0.connection_ip is None
            &&& q.current->Some_0.direction is None
            &&& q.current->Some_0.media == media_of(v).media
            &&& q.current->Some_0.port == media_of(v).port
            &&& q.current->Some_0.formats == media_of(v).formats
            &&& q.connection_ip == p.connection_ip
            &&& q.direction == p.direction
            &&& q.maps == p.maps
        }),
{
    reveal_strlit("m=");
    lemma_keys();
    lemma_line('m', v);
    assert("m="@ + v =~= seq!['m'] + seq!['='] + v);
}

/// A media line names its kind, its port and its transport, and then its formats; one whose port is no
/// number has the port zero.
pub proof fn law_media_value(kind: Seq<char>, port: u16, proto: Seq<char>, formats: Seq<char>)
    requires
        kind.len() > 0,
        none_of(kind, Class::Space),
        proto.len() > 0,
        none_of(proto, Class::Space),
    ensures
        ({
            let m = media_of(kind + " "@ + dec(port as nat) + " "@ + proto + " "@ + formats);
            &&& m.media == kind
            &&& m.port == port
            &&& m.proto == proto
            &&& m.formats == words_of(formats)
            &&& m.connection_ip is None
            &&& m.direction is None
            &&& m.codecs.len() == 0
        }),
{
    let d = dec(port as nat);
    lemma_dec(port as nat);
    law_number(port as nat, 0xffff);
    assert(none_of(d, Class::Space)) by {
        assert forall|i: int| 0 <= i < d.len() implies !Class::Space.has(#[trigger] d[i]) by {
            assert(text::is_digit(d[i]));
        }
    }
    law_word_and_rest(proto, formats);
    let x = proto + " "@ + formats;
    law_word_and_rest(d, x);
    let y = d + " "@ + x;
    law_word_and_rest(kind, y);
    let t = kind + " "@ + d + " "@ + proto + " "@ + formats;
    assert(kind + " "@ + y =~= t);
    let w = words_of(t);
    assert(w =~= seq![kind, d, proto] + words_of(formats));
    assert(w.skip(3) =~= words_of(formats));
    if w.len() == 3 {
        assert(words_of(formats) =~= Seq::<Seq<char>>::empty());
    }
}

/// A direction is about the media line before it, or about the session where none has come yet.
pub proof fn law_direction_line(p: SdpProgress, v: Seq<char>, d: SdpDirection)
    requires
        tight(v),
        direction_of(v) == Some(d),
        codec_of(v) is None,
    ensures
        p.current is None ==> line_step(p, "a="@ + v) == (SdpProgress { direction: Some(d), ..p }),
        p.current matches Some(m) ==> line_step(p, "a="@ + v) == (SdpProgress {
            current: Some(MediaView { direction: Some(d), ..m }),
            ..p
        }),
{
    reveal_strlit("a=");
    lemma_keys();
    lemma_line('a', v);
    assert("a="@ + v =~= seq!['a'] + seq!['='] + v);
}

/// The four directions by their names.
pub proof fn law_directions(v: Seq<char>)
    ensures
        direction_of(v) == Some(SdpDirection::SendRecv) <==> v == "sendrecv"@,
        direction_of(v) == Some(SdpDirection::SendOnly) <==> v == "sendonly"@,
        direction_of(v) == Some(SdpDirection::RecvOnly) <==> v == "recvonly"@,
        direction_of(v) == Some(SdpDirection::Inactive) <==> v == "inactive"@,
{
    reveal_strlit("sendrecv");
    reveal_strlit("sendonly");
    reveal_strlit("recvonly");
    reveal_strlit("inactive");
    assert("sendrecv"@[0] == 's' && "sendonly"@[0] == 's' && "recvonly"@[0] == 'r' && "inactive"@[0]
        == 'i');
    assert("sendrecv"@[4] == 'r' && "sendonly"@[4] == 'o');
}

/// A codec is mapped by its payload type, its name and its clock rate; without a rate it runs at 8000 Hz.
pub proof fn law_codec_line(p: SdpProgress, pt: u8, name: Seq<char>, rate: u32)
    requires
        tight(name),
        lacks(name, '/'),
    ensures
        codec_of("rtpmap:"@ + dec(pt as nat) + seq![' '] + name + seq!['/'] + dec(rate as nat)) == Some(
            CodecView { pt, name, clock_rate: rate },
        ),
        codec_of("rtpmap:"@ + dec(pt as nat) + seq![' '] + name) == Some(
            CodecView { pt, name, clock_rate: 8000 },
        ),
{
    lemma_dec(pt as nat);
    lemma_dec(rate as nat);
    law_number(pt as nat, 255);
    law_number(rate as nat, 0xffff_ffff);
    let k = "rtpmap:"@.len() as int;
    let a = dec(pt as nat);
    let r = dec(rate as nat);
    assert forall|i: int| 0 <= i < a.len() implies #[trigger] a[i] != ' ' by {
        assert(text::is_digit(a[i]));
    }
    assert(text::is_digit(a[0]) && text::is_digit(a[a.len() - 1]));
    assert(text::is_digit(r[r.len() - 1]));
    lemma_tight(a);
    assert forall|i: int| 0 <= i < r.len() implies #[trigger] r[i] != '/' by {
        assert(text::is_digit(r[i]));
    }
    let b1 = name + seq!['/'] + r;
    assert(b1[0] == name[0] && b1.last() == r[r.len() - 1]);
    lemma_tight(b1);
    lemma_tight(name);
    lemma_split_one(name, '/');
    lemma_split_push(name, '/', r, 0);
    assert(text::split_all(b1, '/') =~= seq![name, r]);
    let v1 = "rtpmap:"@ + a + seq![' '] + name + seq!['/'] + r;
    assert(v1.subrange(0, 0 + k) =~= "rtpmap:"@);
    assert(v1.skip(k) =~= a + seq![' '] + b1);
    law_cut(a, ' ', b1);
    let v2 = "rtpmap:"@ + a + seq![' '] + name;
    assert(v2.subrange(0, 0 + k) =~= "rtpmap:"@);
    assert(v2.skip(k) =~= a + seq![' '] + name);
    law_cut(a, ' ', name);
}

/// Lines are taken one after the other, from nothing.
pub proof fn law_lines_in_order(ls: Seq<Seq<char>>, n: nat)
    requires
        n < ls.len(),
    ensures
        lines_step(ls, n + 1) == line_step(lines_step(ls, n), ls[n as int]),
        lines_step(ls, 0).current is None,
        lines_step(ls, 0).done.len() == 0,
        lines_step(ls, 0).maps.len() == 0,
        lines_step(ls, 0).connection_ip is None,
        lines_step(ls, 0).direction is None,
{
}

/// The session has the address and direction given before the first media line, and every media line with
/// those of the mapped codecs that it offers.
pub proof fn law_session(t: Seq<char>, i: int)
    ensures
        ({
            let ls = text::lines_of(t);
            let p = lines_step(ls, ls.len());
            let s = session_of(t);
            &&& s.connection_ip == p.connection_ip
            &&& s.direction == p.direction
            &&& s.media.len() == p.done.len() + (if p.current is Some {
                1int
            } else {
                0int
            })
            &&& 0 <= i < p.done.len() ==> s.media[i].port == p.done[i].port && s.media[i].connection_ip
                == p.done[i].connection_ip && s.media[i].formats == p.done[i].formats
            &&& p.current matches Some(m) ==> s.media.last().port == m.port
                && s.media.last().connection_ip == m.connection_ip && s.media.last().direction
                == m.direction
        }),
{
}

/// A media line offers a mapped codec where the payload type stands among its formats.
pub proof fn law_codecs_offered(formats: Seq<Seq<char>>, maps: Seq<CodecView>, n: nat)
    requires
        n < maps.len(),
    ensures
        codecs_for(formats, maps, 0).len() == 0,
        formats.contains(dec(maps[n as int].pt as nat)) ==> codecs_for(formats, maps, n + 1)
            == codecs_for(formats, maps, n).push(maps[n as int]),
        !formats.contains(dec(maps[n as int].pt as nat)) ==> codecs_for(formats, maps, n + 1)
            == codecs_for(formats, maps, n),
{
}

// ----------------------------- what follows -----------------------------

/// A media line with a port is an endpoint at its own address or, where it has none, at that of the
/// session; a port of zero is none.
pub proof fn law_endpoints(s: SessionView, n: nat)
    requires
        n < s.media.len(),
    ensures
        ({
            let m = s.media[n as int];
            &&& endpoints_of(s, 0).len() == 0
            &&& m.port == 0 ==> endpoints_of(s, n + 1) == endpoints_of(s, n)
            &&& m.port != 0 && m.connection_ip is Some ==> endpoints_of(s, n + 1) == endpoints_of(
                s,
                n,
            ).push(SocketAddr { ip: m.connection_ip->Some_0, port: m.port })
            &&& m.port != 0 && m.connection_ip is None && s.connection_ip is Some ==> endpoints_of(
                s,
                n + 1,
            ) == endpoints_of(s, n).push(
                SocketAddr { ip: s.connection_ip->Some_0, port: m.port },
            )
            &&& m.connection_ip is None && s.connection_ip is None ==> endpoints_of(s, n + 1)
                == endpoints_of(s, n)
        }),
{
}

/// A payload type is offered where a media line has it among its formats.
pub proof fn law_offered(s: SessionView, pt: u8, i: int, j: int)
    requires
        0 <= i < s.media.len(),
        0 <= j < s.media[i].formats.len(),
        s.media[i].formats[j] == dec(pt as nat),
    ensures
        offered(s, pt),
{
    law_number(pt as nat, 255);
    assert(text::uint_of(s.media[i].formats[j], 255) == Some(pt as nat));
}

proof fn lemma_codec_in(cs: Seq<CodecView>, pt: u8, i: int, k: int)
    requires
        0 <= i <= k < cs.len(),
        cs[k].pt == pt,
        forall|x: int| i <= x < k ==> (#[trigger] cs[x]).pt != pt,
    ensures
        codec_in(cs, pt, i) == Some(cs[k].name),
        rate_in(cs, pt, i) == Some(cs[k].clock_rate),
    decreases k - i,
{
    if i < k {
        assert(cs[i].pt != pt);
        lemma_codec_in(cs, pt, i + 1, k);
    }
}

/// The first mapping of a payload type gives its name and its clock; a well-known type without one has its
/// well-known name, and no clock of the session's.
pub proof fn law_codec_of_type(s: SessionView, pt: u8, k: int)
    requires
        s.media.len() > 0,
    ensures
        0 <= k < s.media[0].codecs.len() && s.media[0].codecs[k].pt == pt && (forall|x: int|
            0 <= x < k ==> (#[trigger] s.media[0].codecs[x]).pt != pt) ==> codec_name(s, pt) == Some(
            s.media[0].codecs[k].name,
        ) && codec_rate(s, pt) == s.media[0].codecs[k].clock_rate,
{
    if 0 <= k < s.media[0].codecs.len() && s.media[0].codecs[k].pt == pt && (forall|x: int|
        0 <= x < k ==> (#[trigger] s.media[0].codecs[x]).pt != pt) {
        lemma_codec_in(s.media[0].codecs, pt, 0, k);
    }
}

/// The well-known names.
pub proof fn law_static_names(pt: u8)
    ensures
        static_name(pt) == (if pt == 0 {
            Some("PCMU"@)
        } else if pt == 8 {
            Some("PCMA"@)
        } else if pt == 9 {
            Some("G.722"@)
        } else if pt == 18 {
            Some("G.729"@)
        } else if pt == 4 || pt == 15 || pt == 16 {
            Some("G.723"@)
        } else if pt == 13 {
            Some("CN"@)
        } else if pt == 97 || pt == 98 || pt == 111 || pt == 112 || pt == 115 {
            Some("OPUS"@)
        } else if pt == 101 {
            Some("telephone-event"@)
        } else {
            None
        }),
{
}

} // verus!
