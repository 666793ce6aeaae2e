//! Numbers and times as text, and the capture loop.
use sipmon::model::addr_text::{ip_from_str, ip_string, socket_from_str, socket_string};
use sipmon::numfmt::{
    bucket_label, dec_string, fmt_bytes, fmt_bytes_short, fmt_count, fmt_dur, fmt_elapsed,
    fmt_secs, fmt_size, fmt_span, fmt_time_delta, fmt_time_tz, push_dec_right, push_left,
    push_right,
};
use sipmon::pipeline::{file_mode, next_turn, pcap_ts_us, FileMode, Pipeline, Turn};
use sipmon::text::{chars_of, lossy_string, parse_uint, split, to_lower, trim, words};

fn numbers() -> Vec<u64> {
    let mut v = Vec::new();
    let mut n: u64 = 1;
    while n < u64::MAX / 7 {
        for d in [0u64, 1, 51, 511, 512, 513] {
            v.push(n + d);
        }
        n = n * 7 / 2 + 1;
    }
    v
}

#[test]
fn sizes_round_as_floats_do() {
    const KB: f64 = 1024.0;
    const MB: f64 = KB * 1024.0;
    const GB: f64 = MB * 1024.0;
    for v in numbers() {
        let f = v as f64;
        let small = if f >= MB {
            format!("{:.1} MB", f / MB)
        } else if f >= KB {
            format!("{:.1} KB", f / KB)
        } else {
            format!("{v} B")
        };
        assert_eq!(fmt_bytes(v), small);
        let large = if f >= GB { format!("{:.2} GB", f / GB) } else { small };
        assert_eq!(fmt_size(v), large);
        let short = if f >= MB {
            format!("{:.1}M", f / MB)
        } else if f >= KB {
            format!("{:.0}K", f / KB)
        } else {
            format!("{v}")
        };
        assert_eq!(fmt_bytes_short(v), short);
    }
    // A tie goes to the even digit, as the exact value is halfway.
    assert_eq!(fmt_bytes_short(1536), format!("{:.0}K", 1.5));
    assert_eq!(fmt_bytes_short(2560), format!("{:.0}K", 2.5));
}

#[test]
fn counts_and_spans_round_as_floats_do() {
    for v in numbers() {
        let want = if v == 0 {
            "\u{b7}".to_string()
        } else if v < 10_000 {
            v.to_string()
        } else if v < 1_000_000 {
            format!("{:.1}k", v as f64 / 1000.0)
        } else {
            format!("{:.1}M", v as f64 / 1_000_000.0)
        };
        assert_eq!(fmt_count(v), want, "{v}");
    }
    assert_eq!(fmt_count(0), "\u{b7}");
    for ms in [0u64, 7, 95, 105, 125, 994, 995, 999] {
        assert_eq!(fmt_elapsed(ms * 1000), format!("{:.2}s", ms as f64 / 1000.0), "{ms}");
    }
    for ms in [1_000u64, 1_050, 1_250, 10_050, 12_345, 59_949, 59_950] {
        assert_eq!(fmt_elapsed(ms * 1000), format!("{:.1}s", ms as f64 / 1000.0), "{ms}");
    }
    assert_eq!(fmt_elapsed(61_000_000), "1m01s");
    assert_eq!(fmt_elapsed(3_723_000_000), "1h02m");
    assert_eq!(fmt_span(5_000_000), "5s");
    assert_eq!(fmt_span(65_000_000), "1m05s");
    assert_eq!(fmt_span(3_723_000_000), "1h02m");
    assert_eq!(fmt_secs(Some(9_500)), "9.50s");
    assert_eq!(fmt_secs(Some(100)), "0.10s");
    assert_eq!(fmt_secs(None), "-");
    assert_eq!(fmt_dur(Some(12_345)), "12.3s");
    assert_eq!(fmt_dur(Some(61_000)), "1m1s");
    assert_eq!(fmt_dur(None), "-");
    assert_eq!(bucket_label(60), "1m");
    assert_eq!(bucket_label(300), "5m");
    assert_eq!(bucket_label(900), "15m");
}

#[test]
fn times_of_day() {
    // 2001-09-09 01:46:40 UTC.
    let ts = 1_000_000_000_000_000u64;
    assert_eq!(fmt_time_tz(ts, 0), "01:46:40");
    assert_eq!(fmt_time_tz(ts, 7200), "03:46:40");
    assert_eq!(fmt_time_tz(ts, -7200), "23:46:40");
    assert_eq!(fmt_time_tz(u64::MAX, 0), "??:??:??");
    assert_eq!(fmt_time_delta(ts + 1_500_000, ts, 0), "01:46:41(+1.5s)");
}

#[test]
fn columns_are_padded() {
    let mut s = String::new();
    push_left(&mut s, "ab", 4);
    push_right(&mut s, "c", 3);
    push_dec_right(&mut s, 42, 5);
    assert_eq!(s, format!("{:<4}{:>3}{:>5}", "ab", "c", 42));
    let mut s = String::new();
    push_left(&mut s, "toolong", 3);
    assert_eq!(s, "toolong");
    assert_eq!(dec_string(u64::MAX), u64::MAX.to_string());
}

#[test]
fn text_helpers() {
    assert_eq!(lossy_string(b"a\xffb"), "a\u{fffd}b");
    let t = chars_of("  Ab\tc ");
    assert_eq!(trim(&t).iter().collect::<String>(), "Ab\tc");
    assert_eq!(words(&t).len(), 2);
    assert_eq!(to_lower(&chars_of("AbÇ")).iter().collect::<String>(), "abÇ");
    assert_eq!(split(&chars_of("a,,b"), ',').len(), 3);
    assert_eq!(parse_uint(&chars_of("65535"), 65535), Some(65535));
    assert_eq!(parse_uint(&chars_of("65536"), 65535), None);
    assert_eq!(parse_uint(&chars_of(""), 9), None);
}

#[test]
fn the_loop_flushes_once_and_publishes_when_due() {
    assert_eq!(next_turn(true, true), Turn::Stop);
    assert_eq!(next_turn(false, true), Turn::Wait);
    assert_eq!(next_turn(false, false), Turn::Pull);
    let mut p = Pipeline::new(true);
    assert!(!p.after_frame(99, 1, &None));
    assert!(p.after_frame(100, 1, &None));
    assert!(!p.after_frame(100, 1, &None));
    assert!(p.after_frame(100, 1, &Some("c".into())));
    let e = p.at_end(&Some("c".into()));
    assert!(e.flush && e.publish && e.stay);
    let e = p.at_end(&Some("c".into()));
    assert!(!e.flush && !e.publish && e.stay);
    let e = p.at_end(&None);
    assert!(!e.flush && e.publish);
    let mut q = Pipeline::new(false);
    assert!(!q.at_end(&None).stay);
    assert_eq!(pcap_ts_us(2, 5), 2_000_005);
}

#[test]
fn files_by_extension() {
    assert_eq!(file_mode("PCAPNG"), Some(FileMode::Capture));
    assert_eq!(file_mode("evlog"), Some(FileMode::Replay));
    assert_eq!(file_mode("jsonl"), Some(FileMode::View));
    assert_eq!(file_mode("txt"), None);
}

#[test]
fn addresses_are_read_back() {
    for t in [
        "0.0.0.0:0",
        "255.255.255.255:65535",
        "10.0.200.1:5060",
        "[::]:1",
        "[::1]:5060",
        "[fe80::1:0:0:a]:9",
        "[2001:db8::]:80",
        "[1:2:3:4:5:6:7:8]:443",
        "[1:0:3:4:5:6:7:8]:443",
        "[::ffff:192.0.2.33]:5061",
        "[0:0:1::]:2",
    ] {
        let a = socket_from_str(t).unwrap();
        let written = socket_string(a);
        assert_eq!(socket_from_str(&written), Some(a), "{written}");
        assert_eq!(ip_from_str(&ip_string(a.ip)), Some(a.ip));
    }
    assert_eq!(socket_string(socket_from_str("[0:0:0:1:0:0:0:0]:2").unwrap()), "[0:0:0:1::]:2");
    assert_eq!(socket_from_str("1.2.3:4"), None);
    assert_eq!(socket_from_str("1.2.3.04:4"), None);
    assert_eq!(ip_from_str("1:2:3:4:5:6:7:8:9"), None);
}
