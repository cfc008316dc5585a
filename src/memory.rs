//! Memory and swap totals read out of the kernel's memory summary.
use vstd::prelude::*;
use crate::text::{fields, parse_u64, parsed_u64, same_bytes, split_fields, views};

verus! {

/// Memory and swap figures of the host, in kibibytes, with the used shares
/// in hundredths of a percent.
#[derive(Debug, Clone, Copy, PartialEq, Eq, Structural)]
pub struct MemoryInfo {
    pub total: u64,
    pub available: u64,
    pub used_percent: u64,
    pub swap_total: u64,
    pub swap_used_percent: u64,
}

/// The value that follows the last field equal to `key`, read as a number,
/// or 0 when there is none or it is not a number.
pub open spec fn value_after(f: Seq<Seq<u8>>, key: Seq<u8>) -> nat
    decreases f.len(),
{
    if f.len() < 2 {
        0
    } else if f[f.len() - 2] == key {
        match parsed_u64(f.last()) {
            Some(v) => v as nat,
            None => 0,
        }
    } else {
        value_after(f.drop_last(), key)
    }
}

/// The share of `total` that is not `free`, in hundredths of a percent;
/// 0 for an empty total, and nothing below 0.
pub open spec fn used_share(total: nat, free: nat) -> nat {
    if total == 0 || free >= total {
        0
    } else {
        (((total - free) * 10000) as int / total as int) as nat
    }
}

/// The labels of the memory summary: "MemTotal:", "MemAvailable:",
/// "SwapTotal:" and "SwapFree:".
pub open spec fn mem_total_key() -> Seq<u8> {
    seq![77u8, 101, 109, 84, 111, 116, 97, 108, 58]
}

pub open spec fn mem_available_key() -> Seq<u8> {
    seq![77u8, 101, 109, 65, 118, 97, 105, 108, 97, 98, 108, 101, 58]
}

pub open spec fn swap_total_key() -> Seq<u8> {
    seq![83u8, 119, 97, 112, 84, 111, 116, 97, 108, 58]
}

pub open spec fn swap_free_key() -> Seq<u8> {
    seq![83u8, 119, 97, 112, 70, 114, 101, 101, 58]
}

fn value_for(f: &Vec<Vec<u8>>, key: &Vec<u8>) -> (r: u64)
    ensures
        r == value_after(views(f@), key@),
{
    let ghost fv = views(f@);
    let mut i: usize = f.len();
    assert(fv.take(i as int) =~= fv);
    while i >= 2
        invariant
            i <= f@.len(),
            fv == views(f@),
            value_after(fv, key@) == value_after(fv.take(i as int), key@),
        decreases i,
    {
        let ghost t = fv.take(i as int);
        assert(t[t.len() - 2] == f@[i - 2]@ && t.last() == f@[i - 1]@);
        if same_bytes(f[i - 2].as_slice(), key.as_slice()) {
            return match parse_u64(f[i - 1].as_slice()) {
                Some(v) => v,
                None => 0,
            };
        }
        assert(t.drop_last() =~= fv.take(i - 1));
        i = i - 1;
    }
    0
}

fn share(total: u64, free: u64) -> (r: u64)
    ensures
        r == used_share(total as nat, free as nat),
{
    if total == 0 || free >= total {
        0
    } else {
        let used = (total - free) as u128;
        assert(used * 10000 <= (total as u128) * 10000) by (nonlinear_arith)
            requires used <= total;
        let t = total as u128;
        let q = used * 10000 / t;
        assert(q <= 10000) by (nonlinear_arith)
            requires q == (used * 10000) as int / t as int, used <= t, t > 0;
        q as u64
    }
}

/// Reads the memory summary. Each figure is the number after its label,
/// or 0 where the label or a number is missing.
pub fn parse_memory_info(contents: &[u8]) -> (r: MemoryInfo)
    ensures
        r.total == value_after(fields(contents@), mem_total_key()),
        r.available == value_after(fields(contents@), mem_available_key()),
        r.swap_total == value_after(fields(contents@), swap_total_key()),
        r.used_percent == used_share(r.total as nat, r.available as nat),
        r.swap_used_percent == used_share(
            r.swap_total as nat,
            value_after(fields(contents@), swap_free_key()),
        ),
{
    let f = split_fields(contents);
    let mem_total = vec![77u8, 101, 109, 84, 111, 116, 97, 108, 58];
    let mem_available = vec![77u8, 101, 109, 65, 118, 97, 105, 108, 97, 98, 108, 101, 58];
    let swap_total = vec![83u8, 119, 97, 112, 84, 111, 116, 97, 108, 58];
    let swap_free = vec![83u8, 119, 97, 112, 70, 114, 101, 101, 58];
    assert(mem_total@ =~= mem_total_key());
    assert(mem_available@ =~= mem_available_key());
    assert(swap_total@ =~= swap_total_key());
    assert(swap_free@ =~= swap_free_key());
    let total = value_for(&f, &mem_total);
    let available = value_for(&f, &mem_available);
    let swap = value_for(&f, &swap_total);
    let swap_free_kb = value_for(&f, &swap_free);
    MemoryInfo {
        total,
        available,
        used_percent: share(total, available),
        swap_total: swap,
        swap_used_percent: share(swap, swap_free_kb),
    }
}

} // verus!
