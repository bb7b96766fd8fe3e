//! The arithmetic behind the statistics shown on the panel.
use vstd::prelude::*;
use crate::text::{
    all_digits, append_chars, append_str, decimal, decimal_chars, digit_value, digits_value, is_digit, lemma_decimal_digits,
    string_from_chars, two_digit_chars, two_digits,
};

verus! {

/// An interface name from the configuration; empty means "not configured".
pub fn normalize_interface(name: Option<String>) -> (r: Option<String>)
    ensures
        r == match name {
            Some(s) => if s@.len() > 0 { Some(s) } else { None },
            None => None,
        },
{
    match name {
        Some(s) => if s.as_str().is_empty() {
            None
        } else {
            Some(s)
        },
        None => None,
    }
}

/// Bytes sent and received on one network interface since the last refresh.
pub struct NetSample {
    pub name: String,
    pub transmitted: u64,
    pub received: u64,
}

/// An interface counts when it is one of the configured ones, or, when none
/// is configured, always.
pub open spec fn counted(s: NetSample, eth: Option<String>, wlo: Option<String>) -> bool {
    if eth is Some || wlo is Some {
        (eth matches Some(e) && e@ == s.name@) || (wlo matches Some(w) && w@ == s.name@)
    } else {
        true
    }
}

pub open spec fn sent_total(ss: Seq<NetSample>, eth: Option<String>, wlo: Option<String>) -> int
    decreases ss.len(),
{
    if ss.len() == 0 {
        0
    } else {
        sent_total(ss.drop_last(), eth, wlo) + if counted(ss.last(), eth, wlo) {
            ss.last().transmitted as int
        } else {
            0
        }
    }
}

pub open spec fn received_total(ss: Seq<NetSample>, eth: Option<String>, wlo: Option<String>) -> int
    decreases ss.len(),
{
    if ss.len() == 0 {
        0
    } else {
        received_total(ss.drop_last(), eth, wlo) + if counted(ss.last(), eth, wlo) {
            ss.last().received as int
        } else {
            0
        }
    }
}

proof fn lemma_net_totals_prefix(ss: Seq<NetSample>, eth: Option<String>, wlo: Option<String>, i: int)
    requires
        0 <= i <= ss.len(),
    ensures
        0 <= sent_total(ss.take(i), eth, wlo) <= sent_total(ss, eth, wlo),
        0 <= received_total(ss.take(i), eth, wlo) <= received_total(ss, eth, wlo),
    decreases ss.len() - i,
{
    if i < ss.len() {
        lemma_net_totals_prefix(ss, eth, wlo, i + 1);
        assert(ss.take(i + 1).drop_last() =~= ss.take(i));
        lemma_net_totals_nonneg(ss.take(i), eth, wlo);
    } else {
        assert(ss.take(i) =~= ss);
        lemma_net_totals_nonneg(ss, eth, wlo);
    }
}

proof fn lemma_net_totals_nonneg(ss: Seq<NetSample>, eth: Option<String>, wlo: Option<String>)
    ensures
        sent_total(ss, eth, wlo) >= 0,
        received_total(ss, eth, wlo) >= 0,
    decreases ss.len(),
{
    if ss.len() > 0 {
        lemma_net_totals_nonneg(ss.drop_last(), eth, wlo);
    }
}

/// How the totals grow with one more sample: with no interface configured,
/// every sample counts; once either `eth` or `wlo` is configured (even only
/// one of them), a sample counts exactly when its name is a configured one,
/// so with only `wlo` set to `w` the totals are those of the samples named `w`.
/// No samples give nothing.
pub proof fn network_totals_count_configured_interfaces(
    ss: Seq<NetSample>,
    s: NetSample,
    eth: Option<String>,
    wlo: Option<String>,
)
    ensures
        sent_total(seq![], eth, wlo) == 0,
        received_total(seq![], eth, wlo) == 0,
        ({
            let named = (eth matches Some(e) && e@ == s.name@) || (wlo matches Some(w) && w@ == s.name@);
            let counts = (eth is None && wlo is None) || named;
            &&& sent_total(ss.push(s), eth, wlo) == sent_total(ss, eth, wlo) + if counts {
                s.transmitted as int
            } else {
                0
            }
            &&& received_total(ss.push(s), eth, wlo) == received_total(ss, eth, wlo) + if counts {
                s.received as int
            } else {
                0
            }
        }),
{
    assert(ss.push(s).drop_last() =~= ss);
}

/// With only the wireless interface `w` configured, the totals are the sums
/// over the samples named `w`: a sample named otherwise adds nothing.
pub proof fn network_totals_only_wireless(ss: Seq<NetSample>, s: NetSample, w: String)
    ensures
        s.name@ != w@ ==> sent_total(ss.push(s), None, Some(w)) == sent_total(ss, None, Some(w))
            && received_total(ss.push(s), None, Some(w)) == received_total(ss, None, Some(w)),
        s.name@ == w@ ==> sent_total(ss.push(s), None, Some(w)) == sent_total(ss, None, Some(w))
            + s.transmitted && received_total(ss.push(s), None, Some(w)) == received_total(ss, None, Some(w))
            + s.received,
{
    network_totals_count_configured_interfaces(ss, s, None, Some(w));
}

fn name_matches(cfg: &Option<String>, name: &String) -> (r: bool)
    ensures
        r == (cfg matches Some(c) && c@ == name@),
{
    match cfg {
        Some(c) => *c == *name,
        None => false,
    }
}

/// Bytes sent and received over the counted interfaces.
pub fn network_totals(samples: &Vec<NetSample>, eth: &Option<String>, wlo: &Option<String>) -> (r: (
    u64,
    u64,
))
    requires
        sent_total(samples@, *eth, *wlo) <= u64::MAX,
        received_total(samples@, *eth, *wlo) <= u64::MAX,
    ensures
        r.0 == sent_total(samples@, *eth, *wlo),
        r.1 == received_total(samples@, *eth, *wlo),
{
    let filter_active = eth.is_some() || wlo.is_some();
    let mut up: u64 = 0;
    let mut down: u64 = 0;
    let mut i: usize = 0;
    assert(samples@.take(0) =~= Seq::<NetSample>::empty());
    while i < samples.len()
        invariant
            i <= samples@.len(),
            filter_active == (eth is Some || wlo is Some),
            sent_total(samples@, *eth, *wlo) <= u64::MAX,
            received_total(samples@, *eth, *wlo) <= u64::MAX,
            up == sent_total(samples@.take(i as int), *eth, *wlo),
            down == received_total(samples@.take(i as int), *eth, *wlo),
        decreases samples@.len() - i,
    {
        let s = &samples[i];
        assert(samples@.take(i + 1).drop_last() =~= samples@.take(i as int));
        proof {
            lemma_net_totals_prefix(samples@, *eth, *wlo, i + 1);
        }
        let counts = if filter_active {
            name_matches(eth, &s.name) || name_matches(wlo, &s.name)
        } else {
            true
        };
        if counts {
            up = up + s.transmitted;
            down = down + s.received;
        }
        i += 1;
    }
    assert(samples@.take(samples@.len() as int) =~= samples@);
    (up, down)
}

/// Whole mebibytes in a byte count.
pub fn bytes_to_mb(bytes: u64) -> (mb: u64)
    ensures
        mb == bytes / 1048576u64,
{
    bytes / (1024 * 1024)
}

/// Size and free space of one disk, in bytes.
pub struct DiskSpace {
    pub total: u64,
    pub available: u64,
}

/// Bytes in use on a disk; nothing when it reports more free space than its size.
pub open spec fn used_space(d: DiskSpace) -> int {
    if d.total >= d.available {
        d.total - d.available
    } else {
        0
    }
}

pub open spec fn used_total(ds: Seq<DiskSpace>) -> int
    decreases ds.len(),
{
    if ds.len() == 0 {
        0
    } else {
        used_total(ds.drop_last()) + used_space(ds.last())
    }
}

pub open spec fn size_total(ds: Seq<DiskSpace>) -> int
    decreases ds.len(),
{
    if ds.len() == 0 {
        0
    } else {
        size_total(ds.drop_last()) + ds.last().total
    }
}

proof fn lemma_disk_prefix(ds: Seq<DiskSpace>, i: int)
    requires
        0 <= i <= ds.len(),
    ensures
        0 <= used_total(ds.take(i)) <= used_total(ds),
        0 <= size_total(ds.take(i)) <= size_total(ds),
    decreases ds.len() - i,
{
    if i < ds.len() {
        lemma_disk_prefix(ds, i + 1);
        assert(ds.take(i + 1).drop_last() =~= ds.take(i));
        lemma_disk_nonneg(ds.take(i));
    } else {
        assert(ds.take(i) =~= ds);
        lemma_disk_nonneg(ds);
    }
}

proof fn lemma_disk_nonneg(ds: Seq<DiskSpace>)
    ensures
        used_total(ds) >= 0,
        size_total(ds) >= 0,
    decreases ds.len(),
{
    if ds.len() > 0 {
        lemma_disk_nonneg(ds.drop_last());
    }
}

/// The disk totals grow disk by disk: a disk adds its size to the total size
/// and its size less its free space (nothing if it reports more free space
/// than size) to the space in use; so the space in use never exceeds the
/// total size, and no disks give nothing.
pub proof fn disk_totals_add_up(ds: Seq<DiskSpace>, d: DiskSpace)
    ensures
        used_total(seq![]) == 0 && size_total(seq![]) == 0,
        size_total(ds.push(d)) == size_total(ds) + d.total,
        used_total(ds.push(d)) == used_total(ds) + if d.available <= d.total {
            d.total - d.available
        } else {
            0
        },
        0 <= used_total(ds) <= size_total(ds),
    decreases ds.len(),
{
    assert(ds.push(d).drop_last() =~= ds);
    if ds.len() > 0 {
        disk_totals_add_up(ds.drop_last(), ds.last());
        assert(ds.drop_last().push(ds.last()) =~= ds);
    }
}

/// Bytes in use and total size over all disks.
pub fn disk_totals(disks: &Vec<DiskSpace>) -> (r: (u64, u64))
    requires
        used_total(disks@) <= u64::MAX,
        size_total(disks@) <= u64::MAX,
    ensures
        r.0 == used_total(disks@),
        r.1 == size_total(disks@),
{
    let mut used: u64 = 0;
    let mut size: u64 = 0;
    let mut i: usize = 0;
    assert(disks@.take(0) =~= Seq::<DiskSpace>::empty());
    while i < disks.len()
        invariant
            i <= disks@.len(),
            used_total(disks@) <= u64::MAX,
            size_total(disks@) <= u64::MAX,
            used == used_total(disks@.take(i as int)),
            size == size_total(disks@.take(i as int)),
        decreases disks@.len() - i,
    {
        assert(disks@.take(i + 1).drop_last() =~= disks@.take(i as int));
        proof {
            lemma_disk_prefix(disks@, i + 1);
        }
        used = used + disks[i].total.saturating_sub(disks[i].available);
        size = size + disks[i].total;
        i += 1;
    }
    assert(disks@.take(disks@.len() as int) =~= disks@);
    (used, size)
}

/// Gigabytes (10^9 bytes) in use over all disks.
pub fn disk_used_gb(disks: &Vec<DiskSpace>) -> (gb: u64)
    requires
        used_total(disks@) <= u64::MAX,
        size_total(disks@) <= u64::MAX,
    ensures
        gb == used_total(disks@) / 1_000_000_000,
{
    disk_totals(disks).0 / 1_000_000_000
}

/// Total size of all disks in gigabytes (10^9 bytes).
pub fn disk_total_gb(disks: &Vec<DiskSpace>) -> (gb: u64)
    requires
        used_total(disks@) <= u64::MAX,
        size_total(disks@) <= u64::MAX,
    ensures
        gb == size_total(disks@) / 1_000_000_000,
{
    disk_totals(disks).1 / 1_000_000_000
}

pub open spec fn freq_sum(fs: Seq<i64>) -> int
    decreases fs.len(),
{
    if fs.len() == 0 {
        0
    } else {
        freq_sum(fs.drop_last()) + fs.last()
    }
}

/// Integer division rounding towards zero, as Rust's `/` does.
pub open spec fn div_toward_zero(a: int, b: int) -> int {
    if a >= 0 {
        a / b
    } else {
        -((-a) / b)
    }
}

/// The processor clock in MHz: the mean of the per-thread clocks, or, without
/// them, the first core's clock as the system reports it (0 without one).
pub open spec fn cpu_mhz(fs: Seq<i64>, first_core_mhz: Option<u64>) -> u64 {
    if fs.len() == 0 {
        match first_core_mhz {
            Some(f) => f,
            None => 0,
        }
    } else {
        div_toward_zero(freq_sum(fs), fs.len() as int) as u64
    }
}

/// Every prefix sum of the clocks stays within `i64`.
pub open spec fn sums_fit(fs: Seq<i64>) -> bool {
    forall|i: int| 0 <= i <= fs.len() ==> i64::MIN <= #[trigger] freq_sum(fs.take(i)) <= i64::MAX
}

pub fn cpu_frequency_mhz(freqs: &Vec<i64>, first_core_mhz: Option<u64>) -> (mhz: u64)
    requires
        sums_fit(freqs@),
        freqs@.len() <= i64::MAX,
    ensures
        mhz == cpu_mhz(freqs@, first_core_mhz),
{
    if freqs.len() == 0 {
        return match first_core_mhz {
            Some(f) => f,
            None => 0,
        };
    }
    let mut sum: i64 = 0;
    let mut i: usize = 0;
    assert(freqs@.take(0) =~= Seq::<i64>::empty());
    while i < freqs.len()
        invariant
            i <= freqs@.len(),
            sums_fit(freqs@),
            sum == freq_sum(freqs@.take(i as int)),
        decreases freqs@.len() - i,
    {
        assert(freqs@.take(i + 1).drop_last() =~= freqs@.take(i as int));
        assert(i64::MIN <= freq_sum(freqs@.take(i + 1)) <= i64::MAX);
        sum = sum + freqs[i];
        i += 1;
    }
    assert(freqs@.take(freqs@.len() as int) =~= freqs@);
    let n = freqs.len() as i64;
    let q: i64 = sum / n;
    assert(q == div_toward_zero(sum as int, n as int));
    #[verifier::truncate] (q as u64)
}

/// The processor clock: the clocks add up one by one, and with any per-thread
/// clocks summing to a non-negative value the result is their mean rounded
/// down (so equal clocks give that clock); without them it is the first
/// core's clock, or 0.
pub proof fn cpu_clock_is_the_mean(fs: Seq<i64>, v: i64, first_core_mhz: Option<u64>)
    ensures
        freq_sum(seq![]) == 0,
        freq_sum(fs.push(v)) == freq_sum(fs) + v,
        fs.len() == 0 ==> cpu_mhz(fs, first_core_mhz) == match first_core_mhz {
            Some(f) => f,
            None => 0,
        },
        fs.len() > 0 && freq_sum(fs) >= 0 && freq_sum(fs) / (fs.len() as int) <= u64::MAX ==> {
            let m = cpu_mhz(fs, first_core_mhz) as int;
            &&& m * fs.len() <= freq_sum(fs)
            &&& freq_sum(fs) < (m + 1) * fs.len()
        },
{
    assert(fs.push(v).drop_last() =~= fs);
    if fs.len() > 0 && freq_sum(fs) >= 0 && freq_sum(fs) / (fs.len() as int) <= u64::MAX {
        let n = fs.len() as int;
        let s = freq_sum(fs);
        let m = s / n;
        assert(cpu_mhz(fs, first_core_mhz) as int == m);
        assert(m * n <= s && s < (m + 1) * n) by (nonlinear_arith)
            requires m == s / n, n > 0, s >= 0;
    }
}

proof fn lemma_leading_zero(d: Seq<char>)
    ensures
        digits_value(seq!['0'] + d) == digits_value(d),
    decreases d.len(),
{
    if d.len() > 0 {
        lemma_leading_zero(d.drop_last());
        let e = seq!['0'] + d;
        assert(e.drop_last() =~= seq!['0'] + d.drop_last());
        assert(e.last() == d.last());
        assert(digits_value(e) == digits_value(e.drop_last()) * 10 + digit_value(e.last()));
        assert(digits_value(d) == digits_value(d.drop_last()) * 10 + digit_value(d.last()));
    } else {
        let e = seq!['0'] + d;
        assert(e =~= seq!['0']);
        assert(e.drop_last() =~= Seq::<char>::empty());
        assert(digits_value(e) == digits_value(e.drop_last()) * 10 + digit_value(e.last()));
        assert(digit_value('0') == 0);
    }
}

proof fn lemma_two_digits(n: nat)
    ensures
        two_digits(n).len() >= 2,
        n < 100 ==> two_digits(n).len() == 2,
        all_digits(two_digits(n)),
        digits_value(two_digits(n)) == n,
{
    lemma_decimal_digits(n);
    if n < 10 {
        lemma_leading_zero(decimal(n));
        assert(decimal(n).len() == 1);
        assert forall|i: int| 0 <= i < two_digits(n).len() implies is_digit(#[trigger] two_digits(n)[i]) by {
            if i > 0 {
                assert(two_digits(n)[i] == decimal(n)[i - 1]);
            }
        }
    } else {
        assert(decimal(n).len() >= 2) by {
            assert(decimal(n) == decimal(n / 10) + seq![((n % 10) + '0' as nat) as char]);
            lemma_decimal_digits(n / 10);
        }
        if n < 100 {
            assert(decimal(n / 10).len() == 1);
        }
    }
}

/// The uptime text reads back as the uptime: hours (two digits or more), a
/// colon, two digits of minutes below 60, a colon and two digits of seconds
/// below 60, together making up exactly `secs` seconds.
pub proof fn uptime_text_reads_back(secs: u64)
    ensures
        ({
            let t = uptime_text(secs);
            let n = t.len() as int;
            &&& n >= 8
            &&& t[n - 6] == ':' && t[n - 3] == ':'
            &&& all_digits(t.subrange(0, n - 6))
            &&& all_digits(t.subrange(n - 5, n - 3))
            &&& all_digits(t.subrange(n - 2, n))
            &&& digits_value(t.subrange(n - 5, n - 3)) < 60
            &&& digits_value(t.subrange(n - 2, n)) < 60
            &&& digits_value(t.subrange(0, n - 6)) * 3600 + digits_value(t.subrange(n - 5, n - 3)) * 60
                + digits_value(t.subrange(n - 2, n)) == secs
        }),
{
    let h = two_digits((secs / 3600) as nat);
    let m = two_digits(((secs % 3600) / 60) as nat);
    let s = two_digits((secs % 60) as nat);
    lemma_two_digits((secs / 3600) as nat);
    lemma_two_digits(((secs % 3600) / 60) as nat);
    lemma_two_digits((secs % 60) as nat);
    let t = uptime_text(secs);
    let n = t.len() as int;
    assert(t == h + seq![':'] + m + seq![':'] + s);
    assert(t.subrange(0, n - 6) =~= h);
    assert(t.subrange(n - 5, n - 3) =~= m);
    assert(t.subrange(n - 2, n) =~= s);
    assert(secs == (secs / 3600) * 3600 + ((secs % 3600) / 60) * 60 + secs % 60);
}

/// Seconds of uptime as `HH:MM:SS` (hours may run past two digits).
pub open spec fn uptime_text(secs: u64) -> Seq<char> {
    two_digits((secs / 3600) as nat) + seq![':'] + two_digits(((secs % 3600) / 60) as nat) + seq![
        ':',
    ] + two_digits((secs % 60) as nat)
}

pub fn format_uptime(secs: u64) -> (s: String)
    ensures
        s@ == uptime_text(secs),
{
    let mut v = two_digit_chars(secs / 3600);
    v.push(':');
    let m = two_digit_chars((secs % 3600) / 60);
    append_chars(&mut v, &m);
    v.push(':');
    let sec = two_digit_chars(secs % 60);
    append_chars(&mut v, &sec);
    string_from_chars(&v)
}

/// A count followed by its unit, as `"{}M"` or `"{}G"` formats it.
pub fn amount_text(n: u64, unit: &str) -> (s: String)
    ensures
        s@ == decimal(n as nat) + unit@,
{
    let mut v = decimal_chars(n);
    append_str(&mut v, unit);
    string_from_chars(&v)
}

} // verus!
