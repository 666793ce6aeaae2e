//! Settings of a monitoring session.
use crate::model::addr::{has_ip, IpAddr};
use crate::text;
use crate::text::{clone_opt, str_eq};
use vstd::prelude::*;

verus! {

/// Bucket granularity for heatmap aggregation.
#[derive(Debug, Clone, Copy, PartialEq, Eq, Hash, Structural)]
pub enum Bucket {
    FifteenMin,
    OneHour,
    OneDay,
}

impl Bucket {
    pub open spec fn spec_seconds(self) -> u64 {
        match self {
            Bucket::FifteenMin => 900,
            Bucket::OneHour => 3600,
            Bucket::OneDay => 86_400,
        }
    }

    pub fn seconds(self) -> (r: u64)
        ensures
            r == self.spec_seconds(),
    {
        match self {
            Bucket::FifteenMin => 900,
            Bucket::OneHour => 3600,
            Bucket::OneDay => 86_400,
        }
    }

    pub open spec fn named(t: Seq<char>) -> Bucket {
        if t == "15m"@ {
            Bucket::FifteenMin
        } else if t == "1d"@ {
            Bucket::OneDay
        } else {
            Bucket::OneHour
        }
    }

    /// The granularity that a text names; one hour where it names none.
    pub fn from_str_lossy(s: &str) -> (r: Bucket)
        ensures
            r == Bucket::named(s@),
    {
        if str_eq(s, "15m") {
            Bucket::FifteenMin
        } else if str_eq(s, "1d") {
            Bucket::OneDay
        } else {
            Bucket::OneHour
        }
    }
}

#[derive(Debug, Clone)]
pub struct Config {
    pub raw_truncate: Option<usize>,
    pub bucket: Bucket,
    pub ring_hours: u64,
    pub export_jsonl: Option<String>,
    pub no_media: bool,
    pub bpf: Option<String>,
    /// Binary event-log output path (None = no event logging).
    pub evlog: Option<String>,
    /// Pure in-memory analysis: no event log, no files written.
    pub dry_run: bool,
    /// Maximum retained calls (evicted oldest-terminated first).
    pub max_calls: usize,
    /// Maximum retained RTP streams (ring).
    pub max_streams: usize,
    /// Maximum retained diagnostics (ring).
    pub max_diagnostics: usize,
    /// Minimum diagnostic severity to record/display: info|warn|critical.
    pub diag_level: String,
    /// Optional TURN server IPs to label server-side flows (auto-learned too).
    pub turn_servers: Vec<IpAddr>,
    /// Live libpcap capture buffer size, in MiB.
    pub pcap_buffer_mib: i32,
    /// Live capture snapshot length, in bytes.
    pub snaplen: i32,
    /// IPs of the local (monitored) machine; empty = no directional anchor.
    pub local_ips: Vec<IpAddr>,
    /// Drop idle and terminated calls after this many seconds (0 = keep until
    /// `max_calls`).
    pub call_ttl_secs: u64,
    /// When false, drop a call from memory as soon as it has ended.
    pub keep_terminated: bool,
}

impl Default for Config {
    fn default() -> (r: Config)
        ensures
            r.raw_truncate is None,
            r.bucket == Bucket::FifteenMin,
            r.ring_hours == 24,
            r.export_jsonl is None,
            !r.no_media,
            r.bpf is None,
            r.evlog is None,
            !r.dry_run,
            r.max_calls == 100_000,
            r.max_streams == 50_000,
            r.max_diagnostics == 50_000,
            r.diag_level@ == "warn"@,
            r.turn_servers@.len() == 0,
            r.pcap_buffer_mib == 64,
            r.snaplen == 65_535,
            r.local_ips@.len() == 0,
            r.call_ttl_secs == 900,
            r.keep_terminated,
    {
        Config {
            raw_truncate: None,
            bucket: Bucket::FifteenMin,
            ring_hours: 24,
            export_jsonl: None,
            no_media: false,
            bpf: None,
            evlog: None,
            dry_run: false,
            max_calls: 100_000,
            max_streams: 50_000,
            max_diagnostics: 50_000,
            diag_level: "warn".to_owned(),
            turn_servers: Vec::new(),
            pcap_buffer_mib: 64,
            snaplen: 65_535,
            local_ips: Vec::new(),
            call_ttl_secs: 900,
            keep_terminated: true,
        }
    }
}

impl Config {
    /// Where the event log goes: nowhere in a dry run.
    pub open spec fn spec_log_path(self) -> Option<Seq<char>> {
        if self.dry_run {
            None
        } else {
            text::opt_text(self.evlog)
        }
    }

    pub fn log_path(&self) -> (r: Option<String>)
        ensures
            text::opt_text(r) == self.spec_log_path(),
    {
        if self.dry_run {
            None
        } else {
            clone_opt(&self.evlog)
        }
    }

    /// Sets up a recording: it always writes its event log.
    pub fn record_to(self, path: String) -> (r: Config)
        ensures
            r.spec_log_path() == Some(path@),
            r == (Config { evlog: Some(path), dry_run: false, ..self }),
    {
        Config { evlog: Some(path), dry_run: false, ..self }
    }
}

/// Whether an interface address can stand for this machine: not loopback,
/// unspecified, multicast or link-local.
pub open spec fn usable(ip: IpAddr) -> bool {
    match ip {
        IpAddr::V4(v) => v / 0x100_0000 != 127 && v != 0 && v / 0x1000_0000 != 14 && v / 0x1_0000
            != 0xa9fe,
        IpAddr::V6(v) => v != 1 && v != 0 && v / 0x100_0000_0000_0000_0000_0000_0000_0000 != 0xff
            && v / 0x40_0000_0000_0000_0000_0000_0000_0000 != 0x3fa,
    }
}

fn is_usable(ip: IpAddr) -> (r: bool)
    ensures
        r == usable(ip),
{
    match ip {
        IpAddr::V4(v) => v / 0x100_0000 != 127 && v != 0 && v / 0x1000_0000 != 14 && v / 0x1_0000
            != 0xa9fe,
        IpAddr::V6(v) => v != 1 && v != 0 && v / 0x100_0000_0000_0000_0000_0000_0000_0000 != 0xff
            && v / 0x40_0000_0000_0000_0000_0000_0000_0000 != 0x3fa,
    }
}

/// Of the first `n` interface addresses the usable ones, each once, in order.
pub open spec fn usable_of(all: Seq<IpAddr>, n: nat) -> Seq<IpAddr>
    decreases n,
{
    if n == 0 {
        Seq::empty()
    } else {
        let before = usable_of(all, (n - 1) as nat);
        if usable(all[n - 1]) && !before.contains(all[n - 1]) {
            before.push(all[n - 1])
        } else {
            before
        }
    }
}

/// The addresses of this machine: the given ones where there are any,
/// otherwise the usable ones among its interfaces'.
pub fn resolve_local_ips(explicit: &Vec<IpAddr>, interfaces: &Vec<IpAddr>) -> (r: Vec<IpAddr>)
    ensures
        r@ == if explicit@.len() > 0 {
            explicit@
        } else {
            usable_of(interfaces@, interfaces@.len())
        },
{
    let mut out: Vec<IpAddr> = Vec::new();
    let mut i: usize = 0;
    if explicit.len() > 0 {
        while i < explicit.len()
            invariant
                i <= explicit.len(),
                out@ == explicit@.take(i as int),
            decreases explicit.len() - i,
        {
            out.push(explicit[i]);
            i += 1;
            assert(out@ =~= explicit@.take(i as int));
        }
        assert(out@ =~= explicit@);
        return out;
    }
    while i < interfaces.len()
        invariant
            i <= interfaces.len(),
            out@ == usable_of(interfaces@, i as nat),
        decreases interfaces.len() - i,
    {
        if is_usable(interfaces[i]) && !has_ip(&out, interfaces[i]) {
            out.push(interfaces[i]);
        }
        i += 1;
    }
    out
}

proof fn lemma_usable(all: Seq<IpAddr>, n: nat)
    ensures
        forall|i: int|
            0 <= i < usable_of(all, n).len() ==> usable(#[trigger] usable_of(all, n)[i]),
        usable_of(all, n).no_duplicates(),
    decreases n,
{
    if n > 0 {
        lemma_usable(all, (n - 1) as nat);
    }
}

/// Detection never yields a loopback address or another that cannot stand for
/// this machine, nor any address twice.
pub proof fn law_detected_usable(interfaces: Seq<IpAddr>)
    ensures
        forall|ip: IpAddr|
            usable_of(interfaces, interfaces.len()).contains(ip) ==> #[trigger] usable(ip),
        usable_of(interfaces, interfaces.len()).no_duplicates(),
{
    lemma_usable(interfaces, interfaces.len());
}

} // verus!
