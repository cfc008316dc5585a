//! Reading one process's counters out of the kernel's per-process records.
use vstd::prelude::*;
use crate::text::{fields, is_space, parse_u64, parsed_u64, split_fields, views};

verus! {

/// What was read for one process: its command-name record and its status
/// record, as bytes, and the wall-clock time of the read in milliseconds.
pub struct RawRecord {
    pub pid: u32,
    pub comm: Vec<u8>,
    pub stat: Vec<u8>,
    pub sampled_at: u64,
}

/// Why one process contributes nothing to a cycle.
#[derive(Debug, Clone, Copy, PartialEq, Eq, Structural)]
pub enum ReadError {
    /// The process exited between enumeration and read.
    ProcessVanished,
    /// The status record does not have the expected shape.
    MalformedRecord,
}

/// One process's counters at one point in time.
pub struct RawSample {
    pub pid: u32,
    pub name: String,
    pub state: String,
    /// User plus kernel execution time, in scheduler ticks.
    pub cpu_ticks: u64,
    /// Wall-clock time of the read, in milliseconds.
    pub sampled_at: u64,
}

/// The text that `String::from_utf8_lossy` makes of some bytes.
pub uninterp spec fn utf8_lossy(b: Seq<u8>) -> Seq<char>;

/// Relies on `String::from_utf8_lossy`: the text depends on the bytes alone,
/// and no bytes give no text.
#[verifier::external_body]
fn text_of(b: &[u8]) -> (r: String)
    ensures
        r@ == utf8_lossy(b@),
        b@.len() == 0 ==> r@.len() == 0,
{
    String::from_utf8_lossy(b).into_owned()
}

/// `s` without its trailing whitespace.
pub open spec fn trim_end(s: Seq<u8>) -> Seq<u8>
    decreases s.len(),
{
    if s.len() > 0 && is_space(s.last()) {
        trim_end(s.drop_last())
    } else {
        s
    }
}

/// `s` without its leading whitespace.
pub open spec fn trim_start(s: Seq<u8>) -> Seq<u8>
    decreases s.len(),
{
    if s.len() > 0 && is_space(s[0]) {
        trim_start(s.drop_first())
    } else {
        s
    }
}

/// `s` without whitespace at either end.
pub open spec fn trimmed(s: Seq<u8>) -> Seq<u8> {
    trim_start(trim_end(s))
}

/// The run state and the accumulated ticks that a status record holds:
/// field 2 is the state, fields 13 and 14 the user and kernel ticks.
pub open spec fn stat_counters(stat: Seq<u8>) -> Option<(Seq<u8>, nat)> {
    let f = fields(stat);
    if f.len() >= 15 && parsed_u64(f[13]) is Some && parsed_u64(f[14]) is Some
        && parsed_u64(f[13])->0 + parsed_u64(f[14])->0 <= u64::MAX {
        Some((f[2], (parsed_u64(f[13])->0 + parsed_u64(f[14])->0) as nat))
    } else {
        None
    }
}

/// The process name: the command-name record without surrounding whitespace.
pub open spec fn name_of(comm: Seq<u8>) -> Seq<char> {
    utf8_lossy(trimmed(comm))
}

/// The sample that a record yields, when its status record is well formed.
pub open spec fn sample_matches(rec: RawRecord, s: RawSample) -> bool {
    match stat_counters(rec.stat@) {
        Some((state, ticks)) => {
            &&& s.pid == rec.pid
            &&& s.name@ == name_of(rec.comm@)
            &&& s.state@ == utf8_lossy(state)
            &&& s.cpu_ticks == ticks
            &&& s.sampled_at == rec.sampled_at
        },
        None => false,
    }
}

fn trim_bytes(s: &[u8]) -> (r: &[u8])
    ensures
        r@ == trimmed(s@),
{
    let mut j: usize = s.len();
    assert(s@.subrange(0, j as int) =~= s@);
    while j > 0 && (s[j - 1] == 32 || s[j - 1] == 9 || s[j - 1] == 10 || s[j - 1] == 11
        || s[j - 1] == 12 || s[j - 1] == 13)
        invariant
            j <= s@.len(),
            trim_end(s@) == trim_end(s@.subrange(0, j as int)),
        decreases j,
    {
        assert(s@.subrange(0, j as int).drop_last() =~= s@.subrange(0, j - 1));
        j = j - 1;
    }
    let ghost e = s@.subrange(0, j as int);
    assert(trim_end(e) == e);
    let mut i: usize = 0;
    while i < j && (s[i] == 32 || s[i] == 9 || s[i] == 10 || s[i] == 11 || s[i] == 12
        || s[i] == 13)
        invariant
            i <= j <= s@.len(),
            e == s@.subrange(0, j as int),
            trim_start(e) == trim_start(s@.subrange(i as int, j as int)),
        decreases j - i,
    {
        assert(s@.subrange(i as int, j as int).drop_first() =~= s@.subrange(i + 1, j as int));
        i = i + 1;
    }
    let r = vstd::slice::slice_subrange(s, i, j);
    assert(trim_start(r@) == r@);
    r
}

/// Reads the counters of one process out of its records.
pub fn parse_sample(rec: &RawRecord) -> (r: Result<RawSample, ReadError>)
    ensures
        match r {
            Ok(s) => sample_matches(*rec, s),
            Err(e) => e == ReadError::MalformedRecord && stat_counters(rec.stat@) is None,
        },
{
    let f = split_fields(rec.stat.as_slice());
    let ghost fv = fields(rec.stat@);
    assert(views(f@) == fv);
    if f.len() < 15 {
        return Err(ReadError::MalformedRecord);
    }
    assert(f@[13]@ == fv[13] && f@[14]@ == fv[14] && f@[2]@ == fv[2]);
    let utime = match parse_u64(f[13].as_slice()) {
        Some(v) => v,
        None => return Err(ReadError::MalformedRecord),
    };
    let stime = match parse_u64(f[14].as_slice()) {
        Some(v) => v,
        None => return Err(ReadError::MalformedRecord),
    };
    if utime > u64::MAX - stime {
        return Err(ReadError::MalformedRecord);
    }
    let name = text_of(trim_bytes(rec.comm.as_slice()));
    let state = text_of(f[2].as_slice());
    Ok(RawSample { pid: rec.pid, name, state, cpu_ticks: utime + stime, sampled_at: rec.sampled_at })
}

} // verus!
