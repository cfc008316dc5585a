//! Processor count, load averages and uptime of the host.
use vstd::prelude::*;
use crate::text::{
    decimal_value, fields, is_decimal, is_digit, parse_u64, same_bytes, split_fields, views,
};

verus! {

/// The two leading fraction digits of `b`, as hundredths.
pub open spec fn two_digits(b: Seq<u8>) -> nat {
    ((b[0] - 48) * 10 + if b.len() > 1 { b[1] - 48 } else { 0 }) as nat
}

/// `s` is a run of digits, a point at `k`, and a run of digits.
pub open spec fn point_at(s: Seq<u8>, k: int) -> bool {
    0 <= k < s.len() && s[k] == 46 && is_decimal(s.take(k)) && is_decimal(s.skip(k + 1))
}

/// The number that `s` writes, in hundredths, with the fraction cut after
/// two digits: digits alone, or digits, a point and digits.
pub open spec fn hundredths(s: Seq<u8>) -> Option<nat> {
    if is_decimal(s) {
        Some(decimal_value(s) * 100)
    } else if exists|k: int| point_at(s, k) {
        let k = choose|k: int| point_at(s, k);
        Some(decimal_value(s.take(k)) * 100 + two_digits(s.skip(k + 1)))
    } else {
        None
    }
}

/// What `parse_hundredths` yields: `hundredths(s)` where it fits in `u64`.
pub open spec fn parsed_hundredths(s: Seq<u8>) -> Option<u64> {
    match hundredths(s) {
        Some(v) => if v <= u64::MAX { Some(v as u64) } else { None },
        None => None,
    }
}

/// The bytes of "processor".
pub open spec fn processor_tag() -> Seq<u8> {
    seq![112u8, 114, 111, 99, 101, 115, 115, 111, 114]
}

/// A line of `s` starts at `i` and begins with `p`.
pub open spec fn line_starts_with(s: Seq<u8>, i: int, p: Seq<u8>) -> bool {
    &&& 0 <= i
    &&& i == 0 || s[i - 1] == 10
    &&& i + p.len() <= s.len()
    &&& s.subrange(i, i + p.len()) == p
}

/// How many lines of `s` that start before `n` begin with `p`.
pub open spec fn count_line_starts(s: Seq<u8>, p: Seq<u8>, n: int) -> nat
    decreases n,
{
    if n <= 0 {
        0
    } else {
        count_line_starts(s, p, n - 1) + if line_starts_with(s, n - 1, p) { 1nat } else { 0nat }
    }
}

/// Days, hours and minutes of a span of `seconds`.
pub open spec fn span_parts(seconds: nat) -> (nat, nat, nat) {
    (seconds / 86400, (seconds % 86400) / 3600, (seconds % 3600) / 60)
}

fn all_digits(s: &[u8]) -> (r: bool)
    ensures
        r == is_decimal(s@),
{
    if s.len() == 0 {
        return false;
    }
    let mut i: usize = 0;
    while i < s.len()
        invariant
            i <= s@.len(),
            forall|k: int| 0 <= k < i ==> is_digit(#[trigger] s@[k]),
        decreases s.len() - i,
    {
        if s[i] < 48 || s[i] > 57 {
            assert(!is_digit(s@[i as int]));
            return false;
        }
        i = i + 1;
    }
    true
}

/// Reads a number written with at most one decimal point, in hundredths;
/// fraction digits after the second are cut off.
pub fn parse_hundredths(s: &[u8]) -> (r: Option<u64>)
    ensures
        r == parsed_hundredths(s@),
{
    let mut k: usize = 0;
    while k < s.len() && s[k] != 46
        invariant
            k <= s@.len(),
            forall|m: int| 0 <= m < k ==> s@[m] != 46,
        decreases s.len() - k,
    {
        k = k + 1;
    }
    if k == s.len() {
        proof {
            assert forall|j: int| !point_at(s@, j) by {}
        }
        match parse_u64(s) {
            Some(v) => {
                if v <= u64::MAX / 100 {
                    Some(v * 100)
                } else {
                    None
                }
            },
            None => None,
        }
    } else {
        let whole_part = vstd::slice::slice_subrange(s, 0, k);
        let frac_part = vstd::slice::slice_subrange(s, k + 1, s.len());
        assert(whole_part@ =~= s@.take(k as int));
        assert(frac_part@ =~= s@.skip(k + 1));
        assert(!is_digit(s@[k as int]));
        proof {
            assert forall|j: int| #[trigger] point_at(s@, j) implies j == k by {
                if j > k {
                    assert(s@.take(j)[k as int] == s@[k as int]);
                }
            }
        }
        if !all_digits(frac_part) {
            return None;
        }
        let whole = match parse_u64(whole_part) {
            Some(v) => v,
            None => return None,
        };
        assert(point_at(s@, k as int));
        let f = (frac_part[0] - 48) as u64 * 10 + if frac_part.len() > 1 {
            (frac_part[1] - 48) as u64
        } else {
            0
        };
        if whole > (u64::MAX - f) / 100 {
            return None;
        }
        Some(whole * 100 + f)
    }
}

/// Counts the lines of `contents` that begin with "processor": one per
/// logical core in the kernel's processor description.
pub fn count_processors(contents: &[u8]) -> (r: usize)
    ensures
        r == count_line_starts(contents@, processor_tag(), contents@.len() as int),
{
    let tag = vec![112u8, 114, 111, 99, 101, 115, 115, 111, 114];
    assert(tag@ =~= processor_tag());
    let mut n: usize = 0;
    let mut i: usize = 0;
    while i < contents.len()
        invariant
            i <= contents@.len(),
            tag@ == processor_tag(),
            n <= i,
            n == count_line_starts(contents@, processor_tag(), i as int),
        decreases contents.len() - i,
    {
        if (i == 0 || contents[i - 1] == 10) && tag.len() <= contents.len() - i {
            let window = vstd::slice::slice_subrange(contents, i, i + tag.len());
            if same_bytes(window, tag.as_slice()) {
                n = n + 1;
            }
        }
        i = i + 1;
    }
    n
}

/// Splits a span of seconds into days, hours and minutes.
pub fn uptime_parts(seconds: u64) -> (r: (u64, u64, u64))
    ensures
        (r.0 as nat, r.1 as nat, r.2 as nat) == span_parts(seconds as nat),
{
    (seconds / 86400, (seconds % 86400) / 3600, (seconds % 3600) / 60)
}

/// Processor and load figures of the host.
pub struct CpuInfo {
    /// Load averages over 1, 5 and 15 minutes, in hundredths.
    load_avg: (u64, u64, u64),
    core_count: usize,
    thread_count: usize,
    /// Days, hours and minutes since boot, once known.
    uptime: Option<(u64, u64, u64)>,
}

impl CpuInfo {
    pub closed spec fn load_avg_view(&self) -> (u64, u64, u64) {
        self.load_avg
    }

    pub closed spec fn core_count_view(&self) -> usize {
        self.core_count
    }

    pub closed spec fn thread_count_view(&self) -> usize {
        self.thread_count
    }

    pub closed spec fn uptime_view(&self) -> Option<(u64, u64, u64)> {
        self.uptime
    }

    /// Nothing known yet: zero loads and cores, no uptime.
    pub fn new() -> (r: CpuInfo)
        ensures
            r.load_avg_view() == (0u64, 0u64, 0u64),
            r.core_count_view() == 0,
            r.thread_count_view() == 0,
            r.uptime_view() is None,
    {
        CpuInfo { load_avg: (0, 0, 0), core_count: 0, thread_count: 0, uptime: None }
    }

    /// Takes in the processor description, the load-average record and the
    /// uptime record, each where it could be read. The core count is the
    /// number of processor entries, with two threads counted per core. The
    /// loads are the first three fields when there are three (0 for one
    /// that is not a number). The uptime is the first field in seconds.
    /// What could not be read, or is not in shape, leaves its figure as it
    /// was.
    pub fn collect_cpu_info(&mut self, cpuinfo: Option<&[u8]>, loadavg: Option<&[u8]>, uptime: Option<&[u8]>)
        ensures
            match cpuinfo {
                Some(c) => {
                    &&& final(self).core_count_view() == count_line_starts(c@, processor_tag(), c@.len() as int)
                    &&& final(self).thread_count_view() == if final(self).core_count_view() <= usize::MAX / 2 {
                        final(self).core_count_view() * 2
                    } else {
                        usize::MAX as int
                    }
                },
                None => final(self).core_count_view() == old(self).core_count_view()
                    && final(self).thread_count_view() == old(self).thread_count_view(),
            },
            match loadavg {
                Some(l) if fields(l@).len() >= 3 => {
                    let f = fields(l@);
                    final(self).load_avg_view() == (
                        or_zero(parsed_hundredths(f[0])),
                        or_zero(parsed_hundredths(f[1])),
                        or_zero(parsed_hundredths(f[2])),
                    )
                },
                _ => final(self).load_avg_view() == old(self).load_avg_view(),
            },
            match uptime {
                Some(u) if fields(u@).len() >= 1 && parsed_hundredths(fields(u@)[0]) is Some => {
                    final(self).uptime_view() matches Some(p)
                        && (p.0 as nat, p.1 as nat, p.2 as nat) == span_parts(
                            (parsed_hundredths(fields(u@)[0])->0 / 100) as nat,
                        )
                },
                _ => final(self).uptime_view() == old(self).uptime_view(),
            },
    {
        match cpuinfo {
            Some(c) => {
                let cores = count_processors(c);
                self.core_count = cores;
                self.thread_count = if cores <= usize::MAX / 2 { cores * 2 } else { usize::MAX };
            },
            None => {},
        }
        match loadavg {
            Some(l) => {
                let f = split_fields(l);
                if f.len() >= 3 {
                    assert(views(f@)[0] == f@[0]@ && views(f@)[1] == f@[1]@ && views(f@)[2] == f@[2]@);
                    self.load_avg = (
                        value_or_zero(parse_hundredths(f[0].as_slice())),
                        value_or_zero(parse_hundredths(f[1].as_slice())),
                        value_or_zero(parse_hundredths(f[2].as_slice())),
                    );
                }
            },
            None => {},
        }
        match uptime {
            Some(u) => {
                let f = split_fields(u);
                if f.len() >= 1 {
                    assert(views(f@)[0] == f@[0]@);
                    match parse_hundredths(f[0].as_slice()) {
                        Some(h) => {
                            self.uptime = Some(uptime_parts(h / 100));
                        },
                        None => {},
                    }
                }
            },
            None => {},
        }
    }

    /// Load averages over 1, 5 and 15 minutes, in hundredths.
    pub fn get_load_avg(&self) -> (r: (u64, u64, u64))
        ensures
            r == self.load_avg_view(),
    {
        self.load_avg
    }

    pub fn get_core_count(&self) -> (r: usize)
        ensures
            r == self.core_count_view(),
    {
        self.core_count
    }

    pub fn get_thread_count(&self) -> (r: usize)
        ensures
            r == self.thread_count_view(),
    {
        self.thread_count
    }

    /// Days, hours and minutes since boot, once known.
    pub fn get_uptime(&self) -> (r: Option<(u64, u64, u64)>)
        ensures
            r == self.uptime_view(),
    {
        self.uptime
    }
}

/// A parsed figure, or 0 where there is none.
pub open spec fn or_zero(v: Option<u64>) -> u64 {
    match v {
        Some(x) => x,
        None => 0,
    }
}

fn value_or_zero(v: Option<u64>) -> (r: u64)
    ensures
        r == or_zero(v),
{
    match v {
        Some(x) => x,
        None => 0,
    }
}

} // verus!
