//! How traffic and loss are counted per IP, by direction and by time.
use crate::model::addr::IpAddr;
use crate::model::packet::Flow5Tuple;
use crate::store::ipstats;
use crate::store::ipstats::{
    columns, entry_of, flow_lost, flow_packets, last_totals, moved_on, ring_plus, ring_totals,
    ring_wf, slot, window_after, window_secs, Bucket, Dir, IpView,
};
use vstd::prelude::*;

verus! {

// ----------------------------- windows -----------------------------

/// The windows go round from one second over five, ten, twenty, a minute, ten minutes and an hour to all
/// time; a length that is none of them is followed by the second.
pub proof fn law_windows_go_round(i: int, secs: u64)
    requires
        0 <= i < 8,
    ensures
        window_secs(i) == seq![1u64, 5, 10, 20, 60, 600, 3600, 0][i],
        window_after(window_secs(i)) == (i + 1) % 8,
        (forall|k: int| 0 <= k < 8 ==> #[trigger] window_secs(k) != secs) ==> window_after(secs) == 1,
{
    if forall|k: int| 0 <= k < 8 ==> #[trigger] window_secs(k) != secs {
        assert(window_secs(0) != secs && window_secs(1) != secs && window_secs(2) != secs
            && window_secs(3) != secs && window_secs(4) != secs && window_secs(5) != secs
            && window_secs(6) != secs && window_secs(7) != secs);
    }
}

// ----------------------------- rings -----------------------------

/// What a ring holds for a key: nothing, where the key lies outside.
pub open spec fn held(r: Seq<(u64, Bucket)>, key: u64) -> Bucket {
    if r.len() > 0 && r[0].0 <= key && key - r[0].0 < r.len() {
        r[key - r[0].0].1
    } else {
        Bucket { packets: 0, lost: 0, bytes: 0 }
    }
}

/// A count falls into the bucket of its time, and the other buckets that stay keep what they hold. The
/// ring reaches to the latest time, and back over as many buckets as are kept.
pub proof fn law_ring_counts(
    r: Seq<(u64, Bucket)>,
    ts: u64,
    width: u64,
    retain: u64,
    packets: u64,
    lost: u64,
    bytes: u64,
    other: u64,
)
    requires
        ring_wf(r, retain),
        retain > 0,
        width > 0,
        r.len() == 0 || r[0].0 <= ts / width,
        held(r, (ts / width) as u64).packets + packets <= u64::MAX,
        held(r, (ts / width) as u64).lost + lost <= u64::MAX,
        held(r, (ts / width) as u64).bytes + bytes <= u64::MAX,
    ensures
        ({
            let key = (ts / width) as u64;
            let w = ring_plus(r, ts, width, retain, packets, lost, bytes);
            let last = if r.len() > 0 && r.last().0 > key {
                r.last().0
            } else {
                key
            };
            &&& w.len() > 0
            &&& w.len() <= retain
            &&& w.last().0 == last
            &&& held(w, key).packets == held(r, key).packets + packets
            &&& held(w, key).lost == held(r, key).lost + lost
            &&& held(w, key).bytes == held(r, key).bytes + bytes
            &&& other != key && other <= last && last - other < retain ==> held(w, other) == held(
                r,
                other,
            )
        }),
{
    let key = (ts / width) as u64;
    let m = moved_on(r, key, retain);
    ipstats::lemma_moved_on(r, key, retain);
    let w = ring_plus(r, ts, width, retain, packets, lost, bytes);
    let i = slot(m, key);
    if r.len() > 0 {
        assert(r[r.len() - 1].0 == r[0].0 + (r.len() - 1));
        if key > r.last().0 {
            let last = r.last().0;
            let n = (key - last) as nat;
            let long = r + Seq::new(
                n,
                |k: int| ((last + 1 + k) as u64, ipstats::empty_bucket()),
            );
            assert(long.len() == r.len() + n);
            let cut: int = if long.len() > retain {
                long.len() - retain
            } else {
                0
            };
            assert(m =~= long.skip(cut));
            assert(m[0] == long[cut]);
            assert(m[m.len() - 1] == long[long.len() - 1]);
            assert(key - m[0].0 == m.len() - 1);
            assert(held(m, key) == held(r, key));
            if other != key && other <= key && key - other < retain {
                if m[0].0 <= other {
                    let x = other - m[0].0;
                    assert(m[x] == long[cut + x]);
                }
                assert(held(m, other) == held(r, other));
            }
        } else {
            assert(m == r);
        }
    }
}

/// A count that is older than all that is kept falls into the oldest bucket.
pub proof fn law_ring_counts_late(
    r: Seq<(u64, Bucket)>,
    ts: u64,
    width: u64,
    retain: u64,
    packets: u64,
    lost: u64,
    bytes: u64,
)
    requires
        ring_wf(r, retain),
        r.len() > 0,
        width > 0,
        ts / width < r[0].0,
        r[0].1.packets + packets <= u64::MAX,
    ensures
        ring_plus(r, ts, width, retain, packets, lost, bytes).len() == r.len(),
        ring_plus(r, ts, width, retain, packets, lost, bytes)[0].0 == r[0].0,
        ring_plus(r, ts, width, retain, packets, lost, bytes)[0].1.packets == r[0].1.packets + packets,
        ring_plus(r, ts, width, retain, packets, lost, bytes).skip(1) == r.skip(1),
{
    assert(r[r.len() - 1].0 == r[0].0 + (r.len() - 1));
    assert(ring_plus(r, ts, width, retain, packets, lost, bytes).skip(1) =~= r.skip(1));
}

/// A window is the sum of the latest buckets, one by one.
pub proof fn law_window_sums(r: Seq<(u64, Bucket)>, n: int)
    requires
        0 <= n < r.len(),
    ensures
        last_totals(r, 0) == (0nat, 0nat, 0nat),
        last_totals(r, n + 1).0 == last_totals(r, n).0 + r[r.len() - n - 1].1.packets,
        last_totals(r, n + 1).1 == last_totals(r, n).1 + r[r.len() - n - 1].1.lost,
        last_totals(r, n + 1).2 == last_totals(r, n).2 + r[r.len() - n - 1].1.bytes,
        last_totals(r, r.len() as int) == last_totals(r, r.len() as int + 1),
{
    let a = r.skip(r.len() - n);
    let b = r.skip(r.len() - n - 1);
    assert(b.skip(1) =~= a);
    ipstats::lemma_totals_first(b);
    assert(r.skip(r.len() as int).len() == 0);
    assert(r.skip(r.len() - (n + 1)) =~= b);
    if n + 1 == r.len() {
        assert(r.skip(0) =~= b);
    }
}

/// Up to ten minutes a window is counted in seconds, beyond in minutes that are rounded up; zero means
/// all time.
pub proof fn law_window_of(v: IpView, secs: u64)
    ensures
        secs == 0 ==> v.in_window(secs) == (v.pkts_total as nat, v.lost_total as nat, v.bytes_total as nat),
        1 <= secs <= 600 ==> v.in_window(secs) == last_totals(v.sec1, secs as int),
        secs > 600 && secs % 60 == 0 ==> v.in_window(secs) == last_totals(v.sec60, secs as int / 60),
        secs > 600 && secs % 60 != 0 ==> v.in_window(secs) == last_totals(v.sec60, secs as int / 60 + 1),
{
}

// ----------------------------- one IP -----------------------------

/// Packets count in all, in their direction, in their second and in their minute, and the IP was seen
/// then; the other direction and the loss stay.
pub proof fn law_packets_counted(v: IpView, ts: u64, packets: u64, bytes: u64, dir: Dir)
    requires
        v.pkts_total + packets <= u64::MAX,
        v.bytes_total + bytes <= u64::MAX,
        v.wf(),
    ensures
        ({
            let w = v.with_packets(ts, packets, bytes, dir);
            &&& w.pkts_total == v.pkts_total + packets
            &&& w.bytes_total == v.bytes_total + bytes
            &&& w.lost_total == v.lost_total
            &&& w.active_calls == v.active_calls
            &&& w.last_seen_us == Some(ts)
            &&& v.first_seen_us is None ==> w.first_seen_us == Some(ts)
            &&& v.first_seen_us is Some ==> w.first_seen_us == v.first_seen_us
            &&& dir == Dir::Tx ==> w.rx == v.rx && w.tx.packets == v.tx.packets + packets && w.tx.bytes
                == v.tx.bytes + bytes && w.tx.lost == v.tx.lost
            &&& dir == Dir::Rx ==> w.tx == v.tx && w.rx.packets == v.rx.packets + packets && w.rx.bytes
                == v.rx.bytes + bytes && w.rx.lost == v.rx.lost
            &&& w.sec1 == ring_plus(v.sec1, ts, 1_000_000, 600, packets, 0, bytes)
            &&& w.sec60 == ring_plus(v.sec60, ts, 60_000_000, 60, packets, 0, bytes)
        }),
{
}

/// Lost packets count in the same way; nothing lost changes nothing.
pub proof fn law_losses_counted(v: IpView, ts: u64, lost: u64, dir: Dir)
    requires
        v.lost_total + lost <= u64::MAX,
        v.wf(),
    ensures
        ({
            let w = v.with_lost_on(ts, lost, dir);
            &&& lost == 0 ==> w == v
            &&& w.lost_total == v.lost_total + lost
            &&& w.pkts_total == v.pkts_total
            &&& w.bytes_total == v.bytes_total
            &&& w.active_calls == v.active_calls
            &&& w.first_seen_us == v.first_seen_us
            &&& v.last_seen_us is Some ==> w.last_seen_us == v.last_seen_us
            &&& dir == Dir::Tx ==> w.rx == v.rx && w.tx.lost == v.tx.lost + lost && w.tx.packets
                == v.tx.packets
            &&& dir == Dir::Rx ==> w.tx == v.tx && w.rx.lost == v.rx.lost + lost && w.rx.packets
                == v.rx.packets
            &&& lost > 0 ==> w.sec1 == ring_plus(v.sec1, ts, 1_000_000, 600, 0, lost, 0)
            &&& lost > 0 ==> w.sec60 == ring_plus(v.sec60, ts, 60_000_000, 60, 0, lost, 0)
        }),
{
}

/// The number of concurrent calls goes up and down by what it is told, and stays within its range.
pub proof fn law_active_moves(v: IpView, delta: i32)
    ensures
        0 <= v.active_calls + delta <= u32::MAX ==> v.with_active(delta).active_calls
            == v.active_calls + delta,
        v.active_calls + delta < 0 ==> v.with_active(delta).active_calls == 0,
        v.active_calls + delta > u32::MAX ==> v.with_active(delta).active_calls == u32::MAX,
        v.with_active(delta) == (IpView {
            active_calls: v.with_active(delta).active_calls,
            ..v
        }),
{
}

// ----------------------------- both ends -----------------------------

/// The packets of a flow are sent by its source and received by its destination, and nobody else's.
pub proof fn law_flow_packets(
    m: Map<IpAddr, IpView>,
    flow: Flow5Tuple,
    ts: u64,
    packets: u64,
    bytes: u64,
    ip: IpAddr,
)
    requires
        flow.src.ip != flow.dst.ip,
    ensures
        entry_of(flow_packets(m, flow, ts, packets, bytes), flow.src.ip) == entry_of(
            m,
            flow.src.ip,
        ).with_packets(ts, packets, bytes, Dir::Tx),
        entry_of(flow_packets(m, flow, ts, packets, bytes), flow.dst.ip) == entry_of(
            m,
            flow.dst.ip,
        ).with_packets(ts, packets, bytes, Dir::Rx),
        ip != flow.src.ip && ip != flow.dst.ip ==> entry_of(
            flow_packets(m, flow, ts, packets, bytes),
            ip,
        ) == entry_of(m, ip),
{
}

/// So are its lost packets.
pub proof fn law_flow_losses(
    m: Map<IpAddr, IpView>,
    flow: Flow5Tuple,
    ts: u64,
    lost: u64,
    ip: IpAddr,
)
    requires
        flow.src.ip != flow.dst.ip,
    ensures
        entry_of(flow_lost(m, flow, ts, lost), flow.src.ip) == entry_of(m, flow.src.ip).with_lost_on(
            ts,
            lost,
            Dir::Tx,
        ),
        entry_of(flow_lost(m, flow, ts, lost), flow.dst.ip) == entry_of(m, flow.dst.ip).with_lost_on(
            ts,
            lost,
            Dir::Rx,
        ),
        ip != flow.src.ip && ip != flow.dst.ip ==> entry_of(flow_lost(m, flow, ts, lost), ip)
            == entry_of(m, ip),
{
}

// ----------------------------- columns -----------------------------

/// Packets and lost packets of all columns.
pub open spec fn column_sums(c: Seq<(u64, nat, nat)>) -> (nat, nat)
    decreases c.len(),
{
    if c.len() == 0 {
        (0, 0)
    } else {
        (
            column_sums(c.drop_last()).0 + c.last().1,
            column_sums(c.drop_last()).1 + c.last().2,
        )
    }
}

/// The columns of a map hold what the buckets hold that they are made of, no more and no less, and a column
/// bears the number that its buckets share.
pub proof fn law_columns_hold_all(r: Seq<(u64, Bucket)>, group: u64, n: nat)
    requires
        n <= r.len(),
        group > 0,
    ensures
        column_sums(columns(r, group, n)).0 == ring_totals(r.take(n as int)).0,
        column_sums(columns(r, group, n)).1 == ring_totals(r.take(n as int)).1,
        n > 0 ==> columns(r, group, n).len() > 0 && columns(r, group, n).last().0 == r[n - 1].0 / group,
        n > 1 && r[n - 1].0 / group == r[n - 2].0 / group ==> columns(r, group, n).len() == columns(
            r,
            group,
            (n - 1) as nat,
        ).len(),
        n > 1 && r[n - 1].0 / group != r[n - 2].0 / group ==> columns(r, group, n).len() == columns(
            r,
            group,
            (n - 1) as nat,
        ).len() + 1,
    decreases n,
{
    if n > 0 {
        law_columns_hold_all(r, group, (n - 1) as nat);
        let a = columns(r, group, (n - 1) as nat);
        let b = columns(r, group, n);
        assert(r.take(n as int).drop_last() =~= r.take(n - 1));
        assert(r.take(n as int).last() == r[n - 1]);
        if b.len() == a.len() {
            assert(b.drop_last() =~= a.drop_last());
        } else {
            assert(b.drop_last() =~= a);
        }
    } else {
        assert(r.take(0).len() == 0);
    }
}

} // verus!
