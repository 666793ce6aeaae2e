//! Session descriptions: media lines, connection addresses and codecs.
use crate::model::addr::{IpAddr, SocketAddr};
use crate::model::addr_text;
use crate::model::addr_text::parse_ip_addr;
use crate::text;
use crate::text::{
    begins_with, chars_of, is_word, lines, parse_uint, slice_of, split, split_once, str_eq,
    string_of, text_exact, trim, words,
};
use vstd::prelude::*;
use vstd::utf8::*;

verus! {

#[derive(Debug, Clone)]
pub struct SdpCodec {
    pub pt: u8,
    pub name: String,
    pub clock_rate: u32,
}

/// Which way media flows, as an attribute of the session or of a media line says.
#[derive(Debug, Clone, Copy, PartialEq, Eq, Structural)]
pub enum SdpDirection {
    SendRecv,
    SendOnly,
    RecvOnly,
    Inactive,
}

#[derive(Debug, Clone)]
pub struct SdpMedia {
    pub media: String,
    pub port: u16,
    pub proto: String,
    pub formats: Vec<String>,
    pub connection_ip: Option<IpAddr>,
    pub direction: Option<SdpDirection>,
    pub codecs: Vec<SdpCodec>,
}

#[derive(Debug, Clone)]
pub struct SdpSession {
    pub connection_ip: Option<IpAddr>,
    pub direction: Option<SdpDirection>,
    pub media: Vec<SdpMedia>,
}

/// A codec by its contents.
pub struct CodecView {
    pub pt: u8,
    pub name: Seq<char>,
    pub clock_rate: u32,
}

impl View for SdpCodec {
    type V = CodecView;

    open spec fn view(&self) -> CodecView {
        CodecView { pt: self.pt, name: self.name@, clock_rate: self.clock_rate }
    }
}

pub open spec fn codec_views(v: Seq<SdpCodec>) -> Seq<CodecView> {
    v.map_values(|c: SdpCodec| c@)
}

/// A media line by its contents.
pub struct MediaView {
    pub media: Seq<char>,
    pub port: u16,
    pub proto: Seq<char>,
    pub formats: Seq<Seq<char>>,
    pub connection_ip: Option<IpAddr>,
    pub direction: Option<SdpDirection>,
    pub codecs: Seq<CodecView>,
}

impl View for SdpMedia {
    type V = MediaView;

    open spec fn view(&self) -> MediaView {
        MediaView {
            media: self.media@,
            port: self.port,
            proto: self.proto@,
            formats: text::texts(self.formats@),
            connection_ip: self.connection_ip,
            direction: self.direction,
            codecs: codec_views(self.codecs@),
        }
    }
}

pub open spec fn media_views(v: Seq<SdpMedia>) -> Seq<MediaView> {
    v.map_values(|m: SdpMedia| m@)
}

/// A session by its contents.
pub struct SessionView {
    pub connection_ip: Option<IpAddr>,
    pub direction: Option<SdpDirection>,
    pub media: Seq<MediaView>,
}

impl View for SdpSession {
    type V = SessionView;

    open spec fn view(&self) -> SessionView {
        SessionView {
            connection_ip: self.connection_ip,
            direction: self.direction,
            media: media_views(self.media@),
        }
    }
}

// ----------------------------- the description -----------------------------

/// The address that a connection line ends with: "IN IP4 1.2.3.4", "IP6 ::1",
/// or the address alone.
pub open spec fn connection_of(v: Seq<char>) -> Option<IpAddr> {
    let w = text::words_of(v);
    if w.len() > 0 {
        addr_text::ip_of(w.last())
    } else {
        None
    }
}

/// The media line with the given value: kind, port, transport and formats.
pub open spec fn media_of(v: Seq<char>) -> MediaView {
    let w = text::words_of(v);
    MediaView {
        media: if w.len() > 0 {
            w[0]
        } else {
            "audio"@
        },
        port: if w.len() > 1 {
            match text::uint_of(w[1], 0xffff) {
                Some(p) => p as u16,
                None => 0,
            }
        } else {
            0
        },
        proto: if w.len() > 2 {
            w[2]
        } else {
            "RTP/AVP"@
        },
        formats: if w.len() > 3 {
            w.skip(3)
        } else {
            Seq::empty()
        },
        connection_ip: None,
        direction: None,
        codecs: Seq::empty(),
    }
}

/// The direction that an attribute with the given value sets.
pub open spec fn direction_of(v: Seq<char>) -> Option<SdpDirection> {
    if v == "sendrecv"@ {
        Some(SdpDirection::SendRecv)
    } else if v == "sendonly"@ {
        Some(SdpDirection::SendOnly)
    } else if v == "recvonly"@ {
        Some(SdpDirection::RecvOnly)
    } else if v == "inactive"@ {
        Some(SdpDirection::Inactive)
    } else {
        None
    }
}

/// The codec that an attribute with the given value maps: `rtpmap:` and the
/// payload type, a blank, and name and clock rate with a slash between them.
/// The clock rate is 8000 where none is given.
pub open spec fn codec_of(v: Seq<char>) -> Option<CodecView> {
    if text::occurs_at(v, "rtpmap:"@, 0) {
        match text::split_once_at(v.skip("rtpmap:"@.len() as int), ' ') {
            Some((a, b)) => match text::uint_of(text::trimmed(a), 255) {
                Some(pt) => {
                    let d = text::split_all(text::trimmed(b), '/');
                    Some(
                        CodecView {
                            pt: pt as u8,
                            name: d[0],
                            clock_rate: if d.len() > 1 {
                                match text::uint_of(d[1], 0xffff_ffff) {
                                    Some(c) => c as u32,
                                    None => 8000,
                                }
                            } else {
                                8000
                            },
                        },
                    )
                },
                None => None,
            },
            None => None,
        }
    } else {
        None
    }
}

/// What has been read of a description: the media lines before the current
/// one, the current one, and the mapped codecs.
pub struct SdpProgress {
    pub connection_ip: Option<IpAddr>,
    pub direction: Option<SdpDirection>,
    pub done: Seq<MediaView>,
    pub current: Option<MediaView>,
    pub maps: Seq<CodecView>,
}

pub open spec fn finished(p: SdpProgress) -> Seq<MediaView> {
    match p.current {
        Some(m) => p.done.push(m),
        None => p.done,
    }
}

pub open spec fn with_direction(p: SdpProgress, d: SdpDirection) -> SdpProgress {
    match p.current {
        Some(m) => SdpProgress { current: Some(MediaView { direction: Some(d), ..m }), ..p },
        None => SdpProgress { direction: Some(d), ..p },
    }
}

/// One line: a connection line or a direction concerns the current media line, or the
/// session before the first; a media line ends the current one.
pub open spec fn line_step(p: SdpProgress, line: Seq<char>) -> SdpProgress {
    match text::split_once_at(text::trimmed(line), '=') {
        None => p,
        Some((k, v)) => {
            let val = text::trimmed(v);
            if k == "c"@ {
                match p.current {
                    Some(m) => SdpProgress {
                        current: Some(MediaView { connection_ip: connection_of(val), ..m }),
                        ..p
                    },
                    None => SdpProgress { connection_ip: connection_of(val), ..p },
                }
            } else if k == "m"@ {
                SdpProgress { done: finished(p), current: Some(media_of(val)), ..p }
            } else if k == "a"@ {
                match codec_of(val) {
                    Some(c) => SdpProgress { maps: p.maps.push(c), ..p },
                    None => match direction_of(val) {
                        Some(d) => with_direction(p, d),
                        None => p,
                    },
                }
            } else {
                p
            }
        },
    }
}

/// The first `n` lines.
pub open spec fn lines_step(ls: Seq<Seq<char>>, n: nat) -> SdpProgress
    decreases n,
{
    if n == 0 {
        SdpProgress {
            connection_ip: None,
            direction: None,
            done: Seq::empty(),
            current: None,
            maps: Seq::empty(),
        }
    } else {
        line_step(lines_step(ls, (n - 1) as nat), ls[n - 1])
    }
}

/// Those of the first `n` mapped codecs whose payload type is among the
/// formats.
pub open spec fn codecs_for(formats: Seq<Seq<char>>, maps: Seq<CodecView>, n: nat) -> Seq<CodecView>
    decreases n,
{
    if n == 0 {
        Seq::empty()
    } else {
        let before = codecs_for(formats, maps, (n - 1) as nat);
        if formats.contains(text::dec(maps[n - 1].pt as nat)) {
            before.push(maps[n - 1])
        } else {
            before
        }
    }
}

/// A media line with the mapped codecs that it offers.
pub open spec fn with_codecs(m: MediaView, maps: Seq<CodecView>) -> MediaView {
    MediaView { codecs: codecs_for(m.formats, maps, maps.len()), ..m }
}

/// The session that a text describes.
pub open spec fn session_of(t: Seq<char>) -> SessionView {
    let ls = text::lines_of(t);
    let p = lines_step(ls, ls.len());
    SessionView {
        connection_ip: p.connection_ip,
        direction: p.direction,
        media: finished(p).map_values(|m: MediaView| with_codecs(m, p.maps)),
    }
}

// ----------------------------- reading -----------------------------

struct Progress {
    connection_ip: Option<IpAddr>,
    direction: Option<SdpDirection>,
    done: Vec<SdpMedia>,
    current: Option<SdpMedia>,
    maps: Vec<SdpCodec>,
}

impl Progress {
    spec fn view(self) -> SdpProgress {
        SdpProgress {
            connection_ip: self.connection_ip,
            direction: self.direction,
            done: media_views(self.done@),
            current: match self.current {
                Some(m) => Some(m@),
                None => None,
            },
            maps: codec_views(self.maps@),
        }
    }
}

/// Reads the address of a connection line.
pub fn parse_ip(v: &[char]) -> (r: Option<IpAddr>)
    ensures
        r == connection_of(v@),
{
    let w = words(v);
    assert(text::words_of(v@).len() == w@.len());
    if w.len() == 0 {
        return None;
    }
    assert(text::words_of(v@).last() == w@[w@.len() - 1]@);
    parse_ip_addr(w[w.len() - 1].as_slice())
}

fn parse_media(v: &[char]) -> (r: SdpMedia)
    ensures
        r@ == media_of(v@),
{
    let w = words(v);
    let ghost wv = text::words_of(v@);
    assert(wv.len() == w@.len());
    let media = if w.len() > 0 {
        assert(wv[0] == w@[0]@);
        string_of(w[0].as_slice())
    } else {
        "audio".to_owned()
    };
    let port: u16 = if w.len() > 1 {
        assert(wv[1] == w@[1]@);
        match parse_uint(w[1].as_slice(), 0xffff) {
            Some(p) => p as u16,
            None => 0,
        }
    } else {
        0
    };
    let proto = if w.len() > 2 {
        assert(wv[2] == w@[2]@);
        string_of(w[2].as_slice())
    } else {
        "RTP/AVP".to_owned()
    };
    let mut formats: Vec<String> = Vec::new();
    let mut i: usize = 3;
    assert(text::texts(formats@) =~= Seq::<Seq<char>>::empty());
    while i < w.len()
        invariant
            3 <= i,
            i == 3 || i <= w@.len(),
            wv == text::deep(w@),
            formats@.len() == if i <= w@.len() {
                i - 3
            } else {
                0
            },
            forall|k: int| 0 <= k < formats@.len() ==> #[trigger] formats@[k]@ == wv[k + 3],
        decreases w.len() - i,
    {
        assert(wv[i as int] == w@[i as int]@);
        formats.push(string_of(w[i].as_slice()));
        i += 1;
    }
    assert(text::texts(formats@) =~= media_of(v@).formats);
    let codecs: Vec<SdpCodec> = Vec::new();
    assert(codec_views(codecs@) =~= Seq::<CodecView>::empty());
    SdpMedia { media, port, proto, formats, connection_ip: None, direction: None, codecs }
}

fn parse_codec(v: &[char]) -> (r: Option<SdpCodec>)
    ensures
        match codec_of(v@) {
            Some(c) => r is Some && r->Some_0@ == c,
            None => r is None,
        },
{
    if !begins_with(v, "rtpmap:") {
        return None;
    }
    let tag = chars_of("rtpmap:");
    let rest = slice_of(v, tag.len(), v.len());
    assert(rest@ =~= v@.skip("rtpmap:"@.len() as int));
    let (a, b) = match split_once(rest.as_slice(), ' ') {
        Some(p) => p,
        None => return None,
    };
    let at = trim(a.as_slice());
    let pt: u8 = match parse_uint(at.as_slice(), 255) {
        Some(p) => p as u8,
        None => return None,
    };
    let bt = trim(b.as_slice());
    let d = split(bt.as_slice(), '/');
    let ghost dv = text::split_all(text::trimmed(b@), '/');
    assert(dv.len() == d@.len());
    assert(dv[0] == d@[0]@);
    let name = string_of(d[0].as_slice());
    let clock_rate: u32 = if d.len() > 1 {
        assert(dv[1] == d@[1]@);
        match parse_uint(d[1].as_slice(), 0xffff_ffff) {
            Some(c) => c as u32,
            None => 8000,
        }
    } else {
        8000
    };
    Some(SdpCodec { pt, name, clock_rate })
}

fn parse_direction(v: &[char]) -> (r: Option<SdpDirection>)
    ensures
        r == direction_of(v@),
{
    if is_word(v, "sendrecv") {
        Some(SdpDirection::SendRecv)
    } else if is_word(v, "sendonly") {
        Some(SdpDirection::SendOnly)
    } else if is_word(v, "recvonly") {
        Some(SdpDirection::RecvOnly)
    } else if is_word(v, "inactive") {
        Some(SdpDirection::Inactive)
    } else {
        None
    }
}

impl Progress {
    fn finish_media(&mut self)
        ensures
            final(self)@ == (SdpProgress { done: finished(old(self)@), current: None, ..old(self)@ }),
    {
        let ghost before = self.done@;
        match self.current.take() {
            Some(m) => {
                self.done.push(m);
                assert(media_views(self.done@) =~= media_views(before).push(m@));
            },
            None => {},
        }
    }

    fn step(&mut self, line: &[char])
        ensures
            final(self)@ == line_step(old(self)@, line@),
    {
        let t = trim(line);
        let (k, v) = match split_once(t.as_slice(), '=') {
            Some(p) => p,
            None => return,
        };
        let val = trim(v.as_slice());
        if is_word(k.as_slice(), "c") {
            let ip = parse_ip(val.as_slice());
            match self.current.take() {
                Some(m) => {
                    let mut n = m;
                    n.connection_ip = ip;
                    self.current = Some(n);
                },
                None => {
                    self.connection_ip = ip;
                },
            }
        } else if is_word(k.as_slice(), "m") {
            self.finish_media();
            let m = parse_media(val.as_slice());
            self.current = Some(m);
        } else if is_word(k.as_slice(), "a") {
            if let Some(c) = parse_codec(val.as_slice()) {
                let ghost before = self.maps@;
                self.maps.push(c);
                assert(codec_views(self.maps@) =~= codec_views(before).push(c@));
            } else if let Some(d) = parse_direction(val.as_slice()) {
                match self.current.take() {
                    Some(m) => {
                        let mut n = m;
                        n.direction = Some(d);
                        self.current = Some(n);
                    },
                    None => {
                        self.direction = Some(d);
                    },
                }
            }
        }
    }
}

fn copy_codec(c: &SdpCodec) -> (r: SdpCodec)
    ensures
        r@ == c@,
{
    SdpCodec { pt: c.pt, name: c.name.clone(), clock_rate: c.clock_rate }
}

fn offers(formats: &Vec<String>, pt: u8) -> (r: bool)
    ensures
        r == text::texts(formats@).contains(text::dec(pt as nat)),
{
    let mut name = String::new();
    text::push_dec(&mut name, pt as u64);
    assert(name@ =~= text::dec(pt as nat));
    let ghost fv = text::texts(formats@);
    let mut i: usize = 0;
    while i < formats.len()
        invariant
            i <= formats.len(),
            fv == text::texts(formats@),
            name@ == text::dec(pt as nat),
            forall|k: int| 0 <= k < i ==> #[trigger] fv[k] != name@,
        decreases formats.len() - i,
    {
        assert(fv[i as int] == formats@[i as int]@);
        if str_eq(formats[i].as_str(), name.as_str()) {
            return true;
        }
        i += 1;
    }
    false
}

fn add_codecs(m: SdpMedia, maps: &Vec<SdpCodec>) -> (r: SdpMedia)
    ensures
        r@ == with_codecs(m@, codec_views(maps@)),
{
    let mut m = m;
    let ghost mv = codec_views(maps@);
    let ghost fv = m@.formats;
    let ghost m0 = m@;
    let mut i: usize = 0;
    m.codecs = Vec::new();
    assert(codec_views(m.codecs@) =~= Seq::<CodecView>::empty());
    while i < maps.len()
        invariant
            i <= maps.len(),
            mv == codec_views(maps@),
            fv == m0.formats,
            m@ == (MediaView { codecs: codecs_for(fv, mv, i as nat), ..m0 }),
        decreases maps.len() - i,
    {
        assert(mv[i as int] == maps@[i as int]@);
        if offers(&m.formats, maps[i].pt) {
            let ghost before = m.codecs@;
            m.codecs.push(copy_codec(&maps[i]));
            assert(codec_views(m.codecs@) =~= codec_views(before).push(mv[i as int]));
        }
        i += 1;
    }
    m
}

/// Parses a session description. `None` where the body is not UTF-8 text.
pub fn parse(body: &[u8]) -> (r: Option<SdpSession>)
    ensures
        if valid_utf8(body@) {
            r is Some && r->Some_0@ == session_of(decode_utf8(body@))
        } else {
            r is None
        },
{
    let t = match text_exact(body) {
        Some(t) => t,
        None => return None,
    };
    let c = chars_of(t.as_str());
    let ls = lines(c.as_slice());
    let ghost lv = text::lines_of(c@);
    let mut p = Progress {
        connection_ip: None,
        direction: None,
        done: Vec::new(),
        current: None,
        maps: Vec::new(),
    };
    assert(p@.done =~= Seq::<MediaView>::empty());
    assert(p@.maps =~= Seq::<CodecView>::empty());
    let mut i: usize = 0;
    while i < ls.len()
        invariant
            i <= ls.len(),
            lv == text::deep(ls@),
            p@ == lines_step(lv, i as nat),
        decreases ls.len() - i,
    {
        assert(lv[i as int] == ls@[i as int]@);
        p.step(ls[i].as_slice());
        i += 1;
    }
    let ghost pv = lines_step(lv, lv.len());
    p.finish_media();
    let mut rest = p.done;
    let ghost all = rest@;
    let maps = p.maps;
    let mut out: Vec<SdpMedia> = Vec::new();
    while rest.len() > 0
        invariant
            out@.len() + rest@.len() == all.len(),
            rest@ == all.skip(out@.len() as int),
            forall|k: int|
                0 <= k < out@.len() ==> (#[trigger] out@[k])@ == with_codecs(
                    all[k]@,
                    codec_views(maps@),
                ),
        decreases rest@.len(),
    {
        let m = rest.remove(0);
        out.push(add_codecs(m, &maps));
        assert(rest@ =~= all.skip(out@.len() as int));
    }
    proof {
        let want = session_of(c@).media;
        assert(media_views(out@) =~= want) by {
            assert forall|k: int| 0 <= k < out@.len() implies out@[k]@ == #[trigger] want[k] by {
                assert(media_views(all)[k] == all[k]@);
            }
        }
    }
    Some(SdpSession { connection_ip: p.connection_ip, direction: p.direction, media: out })
}

// ----------------------------- queries -----------------------------

/// The endpoints of the first `n` media lines: those with a port, at their own
/// address or else the session's.
pub open spec fn endpoints_of(s: SessionView, n: nat) -> Seq<SocketAddr>
    decreases n,
{
    if n == 0 {
        Seq::empty()
    } else {
        let before = endpoints_of(s, (n - 1) as nat);
        let m = s.media[n - 1];
        let ip = if m.connection_ip is Some {
            m.connection_ip
        } else {
            s.connection_ip
        };
        if m.port != 0 && ip is Some {
            before.push(SocketAddr { ip: ip->Some_0, port: m.port })
        } else {
            before
        }
    }
}

/// A payload type is offered by some media line.
pub open spec fn offered(s: SessionView, pt: u8) -> bool {
    exists|i: int, j: int|
        0 <= i < s.media.len() && 0 <= j < s.media[i].formats.len() && text::uint_of(
            #[trigger] s.media[i].formats[j],
            255,
        ) == Some(pt as nat)
}

/// The offered payload types below `n`, in ascending order.
pub open spec fn offered_below(s: SessionView, n: int) -> Seq<u8>
    decreases n,
{
    if n <= 0 {
        Seq::empty()
    } else if offered(s, (n - 1) as u8) {
        offered_below(s, n - 1).push((n - 1) as u8)
    } else {
        offered_below(s, n - 1)
    }
}

/// The list of payload types is ascending and holds exactly those offered.
pub proof fn law_offered_listed(s: SessionView, n: int)
    requires
        0 <= n <= 256,
    ensures
        forall|i: int, j: int|
            0 <= i < j < offered_below(s, n).len() ==> offered_below(s, n)[i] < offered_below(
                s,
                n,
            )[j],
        forall|i: int|
            0 <= i < offered_below(s, n).len() ==> #[trigger] offered_below(s, n)[i] < n,
        forall|pt: u8|
            #![trigger offered(s, pt)]
            pt < n ==> (offered_below(s, n).contains(pt) <==> offered(s, pt)),
    decreases n,
{
    if n > 0 {
        law_offered_listed(s, n - 1);
        let before = offered_below(s, n - 1);
        let after = offered_below(s, n);
        let x = (n - 1) as u8;
        assert forall|pt: u8| pt < n implies (after.contains(pt) <==> #[trigger] offered(s, pt)) by {
            if pt < n - 1 {
                if before.contains(pt) {
                    let k = choose|k: int| 0 <= k < before.len() && before[k] == pt;
                    assert(after[k] == pt);
                }
                if after.contains(pt) {
                    let k = choose|k: int| 0 <= k < after.len() && after[k] == pt;
                    assert(k < before.len());
                    assert(before[k] == pt);
                }
            } else if offered(s, x) {
                assert(after[before.len() as int] == x);
            } else if after.contains(pt) {
                let k = choose|k: int| 0 <= k < before.len() && before[k] == pt;
                assert(before[k] < n - 1);
            }
        }
    }
}

/// The name of the codec with a payload type: as mapped, or else the
/// well-known one.
pub open spec fn codec_name(s: SessionView, pt: u8) -> Option<Seq<char>> {
    if mapped_name(s, pt, 0) is Some {
        mapped_name(s, pt, 0)
    } else {
        static_name(pt)
    }
}

/// The first codec of a list from `k` on with a payload type.
pub open spec fn codec_in(cs: Seq<CodecView>, pt: u8, k: int) -> Option<Seq<char>>
    decreases cs.len() - k,
{
    if k >= cs.len() {
        None
    } else if cs[k].pt == pt {
        Some(cs[k].name)
    } else {
        codec_in(cs, pt, k + 1)
    }
}

pub open spec fn mapped_name(s: SessionView, pt: u8, i: int) -> Option<Seq<char>>
    decreases s.media.len() - i,
{
    if i >= s.media.len() {
        None
    } else if codec_in(s.media[i].codecs, pt, 0) is Some {
        codec_in(s.media[i].codecs, pt, 0)
    } else {
        mapped_name(s, pt, i + 1)
    }
}

/// The clock rate of the first codec of a list from `k` on with a payload type.
pub open spec fn rate_in(cs: Seq<CodecView>, pt: u8, k: int) -> Option<u32>
    decreases cs.len() - k,
{
    if k >= cs.len() {
        None
    } else if cs[k].pt == pt {
        Some(cs[k].clock_rate)
    } else {
        rate_in(cs, pt, k + 1)
    }
}

pub open spec fn mapped_rate(s: SessionView, pt: u8, i: int) -> Option<u32>
    decreases s.media.len() - i,
{
    if i >= s.media.len() {
        None
    } else if rate_in(s.media[i].codecs, pt, 0) is Some {
        rate_in(s.media[i].codecs, pt, 0)
    } else {
        mapped_rate(s, pt, i + 1)
    }
}

/// The clock rate that a payload type is mapped to; zero where it is not mapped.
pub open spec fn codec_rate(s: SessionView, pt: u8) -> u32 {
    match mapped_rate(s, pt, 0) {
        Some(r) => r,
        None => 0,
    }
}

impl SdpSession {
    /// All media endpoints (ip:port) advertised, resolved against the
    /// connection address.
    pub fn endpoints(&self) -> (r: Vec<SocketAddr>)
        ensures
            r@ == endpoints_of(self@, self@.media.len()),
    {
        let mut out: Vec<SocketAddr> = Vec::new();
        let mut i: usize = 0;
        while i < self.media.len()
            invariant
                i <= self.media.len(),
                out@ == endpoints_of(self@, i as nat),
            decreases self.media.len() - i,
        {
            assert(self@.media[i as int] == self.media@[i as int]@);
            let m = &self.media[i];
            if m.port != 0 {
                let ip = match m.connection_ip {
                    Some(a) => Some(a),
                    None => self.connection_ip,
                };
                if let Some(a) = ip {
                    out.push(SocketAddr { ip: a, port: m.port });
                }
            }
            i += 1;
        }
        out
    }

    /// Union of all offered payload types, in ascending order.
    pub fn payload_types(&self) -> (r: Vec<u8>)
        ensures
            r@ == offered_below(self@, 256),
    {
        let mut out: Vec<u8> = Vec::new();
        let mut pt: u16 = 0;
        while pt < 256
            invariant
                pt <= 256,
                out@ == offered_below(self@, pt as int),
            decreases 256 - pt,
        {
            let x: u8 = pt as u8;
            if self.has_format(x) {
                out.push(x);
            }
            pt += 1;
        }
        out
    }

    fn has_format(&self, pt: u8) -> (r: bool)
        ensures
            r == offered(self@, pt),
    {
        let mut i: usize = 0;
        while i < self.media.len()
            invariant
                i <= self.media.len(),
                forall|a: int, j: int|
                    0 <= a < i && 0 <= j < self@.media[a].formats.len() ==> text::uint_of(
                        #[trigger] self@.media[a].formats[j],
                        255,
                    ) != Some(pt as nat),
            decreases self.media.len() - i,
        {
            assert(self@.media[i as int] == self.media@[i as int]@);
            let fs = &self.media[i].formats;
            let mut j: usize = 0;
            while j < fs.len()
                invariant
                    j <= fs.len(),
                    i < self.media.len(),
                    fs@ == self.media@[i as int].formats@,
                    self@.media[i as int] == self.media@[i as int]@,
                    forall|b: int|
                        0 <= b < j ==> text::uint_of(
                            #[trigger] self@.media[i as int].formats[b],
                            255,
                        ) != Some(pt as nat),
                decreases fs.len() - j,
            {
                assert(self@.media[i as int].formats[j as int] == fs@[j as int]@);
                let c = chars_of(fs[j].as_str());
                if let Some(v) = parse_uint(c.as_slice(), 255) {
                    if v == pt as u64 {
                        return true;
                    }
                }
                j += 1;
            }
            i += 1;
        }
        false
    }

    /// The name of the codec with a payload type: as mapped by the first media
    /// line that maps it, or else the well-known one.
    pub fn codec_name_for_pt(&self, pt: u8) -> (r: Option<String>)
        ensures
            text::opt_text(r) == codec_name(self@, pt),
    {
        let mut i: usize = 0;
        while i < self.media.len()
            invariant
                i <= self.media.len(),
                mapped_name(self@, pt, 0) == mapped_name(self@, pt, i as int),
            decreases self.media.len() - i,
        {
            assert(self@.media[i as int] == self.media@[i as int]@);
            let cs = &self.media[i].codecs;
            let ghost cv = self@.media[i as int].codecs;
            let mut k: usize = 0;
            while k < cs.len()
                invariant
                    k <= cs.len(),
                    cv == codec_views(cs@),
                    i < self@.media.len(),
                    cv == self@.media[i as int].codecs,
                    mapped_name(self@, pt, 0) == mapped_name(self@, pt, i as int),
                    codec_in(cv, pt, 0) == codec_in(cv, pt, k as int),
                decreases cs.len() - k,
            {
                assert(cv[k as int] == cs@[k as int]@);
                if cs[k].pt == pt {
                    return Some(cs[k].name.clone());
                }
                k += 1;
            }
            i += 1;
        }
        match static_codec_name(pt) {
            Some(n) => Some(n.to_owned()),
            None => None,
        }
    }

    /// The clock rate of a payload type, as mapped by the first media line that
    /// maps it; zero where none does.
    pub fn clock_rate_for_pt(&self, pt: u8) -> (r: u32)
        ensures
            r == codec_rate(self@, pt),
    {
        let mut i: usize = 0;
        while i < self.media.len()
            invariant
                i <= self.media.len(),
                mapped_rate(self@, pt, 0) == mapped_rate(self@, pt, i as int),
            decreases self.media.len() - i,
        {
            assert(self@.media[i as int] == self.media@[i as int]@);
            let cs = &self.media[i].codecs;
            let ghost cv = self@.media[i as int].codecs;
            let mut k: usize = 0;
            while k < cs.len()
                invariant
                    k <= cs.len(),
                    cv == codec_views(cs@),
                    i < self@.media.len(),
                    cv == self@.media[i as int].codecs,
                    mapped_rate(self@, pt, 0) == mapped_rate(self@, pt, i as int),
                    rate_in(cv, pt, 0) == rate_in(cv, pt, k as int),
                decreases cs.len() - k,
            {
                assert(cv[k as int] == cs@[k as int]@);
                if cs[k].pt == pt {
                    return cs[k].clock_rate;
                }
                k += 1;
            }
            i += 1;
        }
        0
    }
}

/// The well-known name of a payload type.
pub open spec fn static_name(pt: u8) -> Option<Seq<char>> {
    match pt {
        0 => Some("PCMU"@),
        8 => Some("PCMA"@),
        9 => Some("G.722"@),
        18 => Some("G.729"@),
        4 | 15 | 16 => Some("G.723"@),
        13 => Some("CN"@),
        97 | 98 | 111 | 112 | 115 => Some("OPUS"@),
        101 => Some("telephone-event"@),
        _ => None,
    }
}

pub fn static_codec_name(pt: u8) -> (r: Option<&'static str>)
    ensures
        match r {
            Some(n) => static_name(pt) == Some(n@),
            None => static_name(pt) is None,
        },
{
    match pt {
        0 => Some("PCMU"),
        8 => Some("PCMA"),
        9 => Some("G.722"),
        18 => Some("G.729"),
        4 | 15 | 16 => Some("G.723"),
        13 => Some("CN"),
        97 | 98 | 111 | 112 | 115 => Some("OPUS"),
        101 => Some("telephone-event"),
        _ => None,
    }
}

} // verus!
