//! Parsing of the kernel's CPU and memory statistics and of battery readings.
use vstd::prelude::*;
use crate::text::{
    chars_of, has_prefix, lines, lines_exec, numbers, numbers_exec, parse_u64, parse_u64_exec,
    parse_u8, parse_u8_exec, starts_with, str_eq, trim, trim_exec, views, words, words_exec,
};

verus! {

/// Aggregate CPU times, in jiffies.
#[derive(Debug, Clone, Copy, PartialEq, Eq)]
pub struct CpuStats {
    pub user: u64,
    pub nice: u64,
    pub system: u64,
    pub idle: u64,
    pub iowait: u64,
    pub irq: u64,
    pub softirq: u64,
}

/// The line read when the statistics are empty.
pub open spec fn default_stat_line() -> Seq<char> {
    "cpu 0 0 0 0 0 0 0"@
}

/// The first line of the statistics, or the all-zero line when there is none.
pub open spec fn first_stat_line(content: Seq<char>) -> Seq<char> {
    let ls = lines(content);
    if ls.len() > 0 {
        ls[0]
    } else {
        default_stat_line()
    }
}

/// The numbers after the first word of the first line.
pub open spec fn stat_numbers(content: Seq<char>) -> Seq<u64> {
    let w = words(first_stat_line(content));
    numbers(
        if w.len() > 0 {
            w.skip(1)
        } else {
            w
        },
    )
}

/// The `i`th number, or zero when there are fewer.
pub open spec fn nth_or_zero(v: Seq<u64>, i: int) -> u64 {
    if 0 <= i < v.len() {
        v[i]
    } else {
        0
    }
}

fn nth_or_zero_exec(v: &Vec<u64>, i: usize) -> (r: u64)
    ensures
        r == nth_or_zero(v@, i as int),
{
    if i < v.len() {
        v[i]
    } else {
        0
    }
}

/// Parse the first line of the CPU statistics (aggregate CPU):
/// `cpu  user nice system idle iowait irq softirq ...`; absent or
/// unreadable numbers count as zero.
pub fn parse_cpu_stat(content: &str) -> (r: CpuStats)
    ensures
        r.user == nth_or_zero(stat_numbers(content@), 0),
        r.nice == nth_or_zero(stat_numbers(content@), 1),
        r.system == nth_or_zero(stat_numbers(content@), 2),
        r.idle == nth_or_zero(stat_numbers(content@), 3),
        r.iowait == nth_or_zero(stat_numbers(content@), 4),
        r.irq == nth_or_zero(stat_numbers(content@), 5),
        r.softirq == nth_or_zero(stat_numbers(content@), 6),
{
    let c = chars_of(content);
    let ls = lines_exec(&c);
    let line = if ls.len() > 0 {
        crate::text::slice_chars(&ls[0], 0, ls[0].len())
    } else {
        chars_of("cpu 0 0 0 0 0 0 0")
    };
    proof {
        if ls@.len() > 0 {
            assert(views(ls@)[0] == ls@[0]@);
            assert(ls@[0]@.subrange(0, ls@[0]@.len() as int) =~= ls@[0]@);
        }
    }
    assert(line@ == first_stat_line(content@));
    let mut ws = words_exec(&line);
    let ghost w = views(ws@);
    if ws.len() > 0 {
        ws.remove(0);
        assert(views(ws@) =~= w.skip(1));
    }
    let nums = numbers_exec(&ws);
    CpuStats {
        user: nth_or_zero_exec(&nums, 0),
        nice: nth_or_zero_exec(&nums, 1),
        system: nth_or_zero_exec(&nums, 2),
        idle: nth_or_zero_exec(&nums, 3),
        iowait: nth_or_zero_exec(&nums, 4),
        irq: nth_or_zero_exec(&nums, 5),
        softirq: nth_or_zero_exec(&nums, 6),
    }
}

/// Idle time: idle plus waiting on I/O.
pub open spec fn idle_time(s: CpuStats) -> int {
    s.idle + s.iowait
}

/// Total time over all seven counters.
pub open spec fn total_time(s: CpuStats) -> int {
    s.user + s.nice + s.system + s.idle + s.iowait + s.irq + s.softirq
}

/// The busy and total time between two samples; none when no time passed.
pub fn cpu_time_deltas(prev: CpuStats, current: CpuStats) -> (r: Option<(u64, u64)>)
    requires
        total_time(prev) <= u64::MAX,
        total_time(current) <= u64::MAX,
        idle_time(prev) <= idle_time(current),
        total_time(prev) <= total_time(current),
        total_time(current) - total_time(prev) != 0 ==> idle_time(current) - idle_time(prev)
            <= total_time(current) - total_time(prev),
    ensures
        total_time(current) == total_time(prev) ==> r is None,
        total_time(current) != total_time(prev) ==> r == Some(
            (
                ((total_time(current) - total_time(prev)) - (idle_time(current) - idle_time(
                    prev,
                ))) as u64,
                (total_time(current) - total_time(prev)) as u64,
            ),
        ),
{
    let prev_idle = prev.idle + prev.iowait;
    let current_idle = current.idle + current.iowait;
    let prev_total = prev.user + prev.nice + prev.system + prev.idle + prev.iowait + prev.irq
        + prev.softirq;
    let current_total = current.user + current.nice + current.system + current.idle
        + current.iowait + current.irq + current.softirq;
    let idle_delta = current_idle - prev_idle;
    let total_delta = current_total - prev_total;
    if total_delta == 0 {
        None
    } else {
        Some((total_delta - idle_delta, total_delta))
    }
}

/// The value of the first line that starts with `key` and has at least two
/// words: its second word as a number, zero when that does not parse; zero
/// when no line qualifies.
pub open spec fn meminfo_value(ls: Seq<Seq<char>>, key: Seq<char>) -> u64
    decreases ls.len(),
{
    if ls.len() == 0 {
        0
    } else if has_prefix(ls[0], key) && words(ls[0]).len() >= 2 {
        match parse_u64(words(ls[0])[1]) {
            Some(v) => v,
            None => 0,
        }
    } else {
        meminfo_value(ls.drop_first(), key)
    }
}

/// Parse a value from the memory statistics: `MemTotal:       16384000 kB`.
pub fn parse_meminfo_value(content: &str, key: &str) -> (r: u64)
    ensures
        r == meminfo_value(lines(content@), key@),
{
    let c = chars_of(content);
    let k = chars_of(key);
    let ls = lines_exec(&c);
    let ghost lv = views(ls@);
    let mut i: usize = 0;
    assert(lv.skip(0) =~= lv);
    while i < ls.len()
        invariant
            i <= ls@.len(),
            lv == views(ls@),
            lv == lines(content@),
            k@ == key@,
            meminfo_value(lv, k@) == meminfo_value(lv.skip(i as int), k@),
        decreases ls.len() - i,
    {
        assert(lv.skip(i as int)[0] == ls@[i as int]@);
        assert(lv.skip(i as int).drop_first() =~= lv.skip(i + 1));
        if starts_with(&ls[i], &k) {
            let ws = words_exec(&ls[i]);
            if ws.len() >= 2 {
                assert(views(ws@)[1] == ws@[1]@);
                return match parse_u64_exec(&ws[1]) {
                    Some(v) => v,
                    None => 0,
                };
            }
        }
        i = i + 1;
    }
    0
}

/// RAM in use, in megabytes: total less available, in kilobytes, over 1024.
pub open spec fn ram_usage_spec(content: Seq<char>) -> u64 {
    let total = meminfo_value(lines(content), "MemTotal"@);
    let avail = meminfo_value(lines(content), "MemAvailable"@);
    (if total >= avail {
        total - avail
    } else {
        0
    }) as u64 / 1024
}

/// RAM in use, in megabytes, from the memory statistics.
pub fn ram_usage_mb(content: &str) -> (r: u64)
    ensures
        r == ram_usage_spec(content@),
{
    let total = parse_meminfo_value(content, "MemTotal");
    let avail = parse_meminfo_value(content, "MemAvailable");
    total.saturating_sub(avail) / 1024
}

/// The battery charge of a capacity reading.
pub fn parse_capacity(reading: &str) -> (r: Option<u8>)
    ensures
        r == parse_u8(trim(reading@)),
{
    let c = chars_of(reading);
    let t = trim_exec(&c);
    parse_u8_exec(&t)
}

/// Whether a power-supply type reading names a battery.
pub fn is_battery_type(reading: &str) -> (r: bool)
    ensures
        r == (trim(reading@) == "Battery"@),
{
    let c = chars_of(reading);
    let t = trim_exec(&c);
    let b = chars_of("Battery");
    crate::text::chars_eq(&t, &b)
}

} // verus!
