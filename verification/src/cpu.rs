//! CPU accessors: frequency, load average, core counts, and the
//! cumulative time-accounting counters.
//!
//! The pseudo-file parsers here take the file's bytes; the kernel-call
//! normalizers take the call's status and raw output.  The platform
//! driver performs the reads and calls and hands the raw material in.

use crate::error::Error;
use crate::models::{CpuStats, Frequency, LoadAvg};
use crate::text::{
    all_digits, digits_val, is_digit, is_ws, leading_ws, lemma_digits_val_prefix_le,
    lemma_leading_ws_is, lemma_len_until_is, len_until, parse_u64, slice_to_vec_range,
    spec_fields, spec_lines, split_fields, split_lines,
};
use vstd::prelude::*;

verus! {

/// The label that marks a frequency line in the CPU-info pseudo-file:
/// the bytes of `cpu MHz`.
pub open spec fn freq_label() -> Seq<u8> {
    seq![99u8, 112u8, 117u8, 32u8, 77u8, 72u8, 122u8]
}

/// The fixed-point value of the first three fractional digits, in
/// thousandths: `123` is 123, `1` is 100, nothing is 0.  Digits past the
/// third are ignored.
pub open spec fn frac_milli(f: Seq<u8>) -> nat {
    if f.len() >= 3 {
        digits_val(f.take(3))
    } else if f.len() == 2 {
        digits_val(f) * 10
    } else if f.len() == 1 {
        digits_val(f) * 100
    } else {
        0
    }
}

/// The value of a decimal numeral `digits[.digits]`, in thousandths,
/// or `None` when the text is not such a numeral.  At least one digit
/// must be present on one side of the dot.
pub open spec fn dec_milli(s: Seq<u8>) -> Option<nat> {
    let d = len_until(s, 46) as int;
    if d == s.len() {
        if s.len() > 0 && all_digits(s) {
            Some(digits_val(s) * 1000)
        } else {
            None
        }
    } else {
        let ip = s.take(d);
        let fp = s.subrange(d + 1, s.len() as int);
        if (ip.len() == 0 && fp.len() == 0) || !all_digits(ip) || !all_digits(fp) {
            None
        } else {
            Some(digits_val(ip) * 1000 + frac_milli(fp))
        }
    }
}

/// What one CPU-info line contributes: the labelled frequency in
/// thousandths of a MHz, or `None` when the line carries no such field.
pub open spec fn freq_of_line(l: Seq<u8>) -> Option<nat> {
    if l.len() >= 7 && l.take(7) == freq_label() {
        let c = len_until(l, 58) as int;
        if c == l.len() {
            None
        } else {
            let v = l.subrange(c + 1, l.len() as int);
            dec_milli(v.subrange(leading_ws(v) as int, v.len() as int))
        }
    } else {
        None
    }
}

/// The first line whose frequency field parses (and fits a `u64`) wins;
/// a malformed field means the scan continues.
pub open spec fn freq_scan(ls: Seq<Seq<u8>>) -> Option<nat>
    decreases ls.len(),
{
    if ls.len() == 0 {
        None
    } else {
        match freq_of_line(ls[0]) {
            Some(v) => if v <= u64::MAX {
                Some(v)
            } else {
                freq_scan(ls.drop_first())
            },
            None => freq_scan(ls.drop_first()),
        }
    }
}

/// Parses the CPU-info pseudo-file: scans its lines for the first
/// parsable `cpu MHz` field and returns it in thousandths of a MHz.
/// A file with no such line — including one where every candidate line
/// is malformed — is `NotFound`.
pub fn get_cpufreq(text: &[u8]) -> (r: Result<Frequency, Error>)
    ensures
        match freq_scan(spec_lines(text@)) {
            Some(v) => r == Ok::<Frequency, Error>(Frequency { milli_mhz: v as u64 }),
            None => r == Err::<Frequency, Error>(Error::NotFound),
        },
{
    let lines = split_lines(text);
    let n = lines.len();
    let ghost all = lines.deep_view();
    let mut i: usize = 0;
    proof {
        assert(all.subrange(0, n as int) =~= all);
    }
    while i < n
        invariant
            0 <= i <= n == all.len(),
            all == lines.deep_view(),
            spec_lines(text@) == all,
            freq_scan(all) == freq_scan(all.subrange(i as int, n as int)),
        decreases n - i,
    {
        let cand = parse_freq_line(lines[i].as_slice());
        proof {
            assert(all[i as int] =~= lines@[i as int]@);
            assert(all.subrange(i as int, n as int)[0] == all[i as int]);
            assert(all.subrange(i as int, n as int).drop_first() =~= all.subrange(
                i + 1,
                n as int,
            ));
        }
        match cand {
            Some(v) => {
                return Ok(Frequency { milli_mhz: v });
            },
            None => {},
        }
        i = i + 1;
    }
    proof {
        assert(all.subrange(n as int, n as int) =~= Seq::<Seq<u8>>::empty());
    }
    Err(Error::NotFound)
}

/// Parses one CPU-info line: `Some` exactly when [`freq_of_line`] yields
/// a value that fits a `u64`.
fn parse_freq_line(l: &[u8]) -> (r: Option<u64>)
    ensures
        match freq_of_line(l@) {
            Some(v) => if v <= u64::MAX {
                r == Some(v as u64)
            } else {
                r == None::<u64>
            },
            None => r == None::<u64>,
        },
{
    let n = l.len();
    if n < 7 {
        return None;
    }
    if !(l[0] == 99 && l[1] == 112 && l[2] == 117 && l[3] == 32 && l[4] == 77 && l[5] == 72
        && l[6] == 122) {
        proof {
            assert(l@.take(7) != freq_label()) by {
                if l@.take(7) == freq_label() {
                    assert(l@.take(7)[0] == 99 && l@.take(7)[1] == 112 && l@.take(7)[2] == 117
                        && l@.take(7)[3] == 32 && l@.take(7)[4] == 77 && l@.take(7)[5] == 72
                        && l@.take(7)[6] == 122);
                }
            }
        }
        return None;
    }
    proof {
        assert(l@.take(7) =~= freq_label());
    }
    // Find the first colon.
    let mut c: usize = 0;
    while c < n && l[c] != 58
        invariant
            0 <= c <= n == l@.len(),
            forall|j: int| 0 <= j < c ==> l@[j] != 58,
        decreases n - c,
    {
        c = c + 1;
    }
    proof {
        lemma_len_until_is(l@, 58, c as int);
    }
    if c == n {
        return None;
    }
    // Skip the separator run after the colon.
    let ghost v = l@.subrange(c + 1, n as int);
    let mut k: usize = c + 1;
    while k < n && (l[k] == 32 || l[k] == 9)
        invariant
            c + 1 <= k <= n == l@.len(),
            forall|j: int| c + 1 <= j < k ==> is_ws(#[trigger] l@[j]),
        decreases n - k,
    {
        k = k + 1;
    }
    proof {
        assert(forall|j: int| 0 <= j < k - c - 1 ==> is_ws(#[trigger] v[j]));
        lemma_leading_ws_is(v, k - c - 1);
        assert(v.subrange(leading_ws(v) as int, v.len() as int) =~= l@.subrange(
            k as int,
            n as int,
        ));
    }
    parse_dec_milli(l, k)
}

/// Parses the decimal numeral in `l[from..]` into thousandths: `Some`
/// exactly when [`dec_milli`] of that region yields a value that fits a
/// `u64`.
fn parse_dec_milli(l: &[u8], from: usize) -> (r: Option<u64>)
    requires
        from <= l@.len(),
    ensures
        match dec_milli(l@.subrange(from as int, l@.len() as int)) {
            Some(v) => if v <= u64::MAX {
                r == Some(v as u64)
            } else {
                r == None::<u64>
            },
            None => r == None::<u64>,
        },
{
    let n = l.len();
    let ghost s = l@.subrange(from as int, n as int);
    // Find the first dot.
    let mut m: usize = from;
    while m < n && l[m] != 46
        invariant
            from <= m <= n == l@.len(),
            forall|j: int| from <= j < m ==> l@[j] != 46,
        decreases n - m,
    {
        m = m + 1;
    }
    proof {
        assert(forall|j: int| 0 <= j < m - from ==> s[j] != 46);
        lemma_len_until_is(s, 46, m - from);
    }
    if m == n {
        // No dot: a plain integer of whole MHz.
        let ip = slice_to_vec_range(l, from, n);
        proof {
            assert(ip@ =~= s);
        }
        match parse_u64(ip.as_slice()) {
            Some(v) => {
                proof {
                    if digits_val(s) * 1000 > u64::MAX {
                        assert(v == digits_val(s));
                    }
                }
                match v.checked_mul(1000) {
                    Some(t) => Some(t),
                    None => None,
                }
            },
            None => {
                proof {
                    if s.len() > 0 && all_digits(s) {
                        assert(digits_val(s) > u64::MAX);
                        assert(digits_val(s) * 1000 >= digits_val(s)) by (nonlinear_arith);
                    }
                }
                None
            },
        }
    } else {
        let ghost ip_s = s.take(m - from);
        let ghost fp_s = s.subrange(m - from + 1, s.len() as int);
        proof {
            assert(ip_s =~= l@.subrange(from as int, m as int));
            assert(fp_s =~= l@.subrange(m + 1, n as int));
        }
        // Integer part: may be empty (`.5` is a valid numeral).
        let ipval: u64;
        if m == from {
            ipval = 0;
            proof {
                assert(ip_s.len() == 0);
                assert(digits_val(ip_s) == 0);
            }
        } else {
            let ip = slice_to_vec_range(l, from, m);
            proof {
                assert(ip@ =~= ip_s);
            }
            match parse_u64(ip.as_slice()) {
                Some(v) => {
                    ipval = v;
                },
                None => {
                    proof {
                        if all_digits(ip_s) {
                            assert(digits_val(ip_s) > u64::MAX);
                            assert(digits_val(ip_s) * 1000 >= digits_val(ip_s))
                                by (nonlinear_arith);
                        }
                    }
                    return None;
                },
            }
        }
        // Fraction part: check every byte is a digit, then take the first
        // three as thousandths.
        if m + 1 == n && m == from {
            // A lone dot: no digit on either side.
            return None;
        }
        let mut j: usize = m + 1;
        while j < n && l[j] >= 48 && l[j] <= 57
            invariant
                m + 1 <= j <= n == l@.len(),
                forall|p: int| m + 1 <= p < j ==> is_digit(#[trigger] l@[p]),
            decreases n - j,
        {
            j = j + 1;
        }
        if j < n {
            proof {
                assert(!is_digit(l@[j as int]));
                assert(fp_s[j - m - 1] == l@[j as int]);
                assert(!all_digits(fp_s));
            }
            return None;
        }
        proof {
            assert(forall|p: int| 0 <= p < fp_s.len() ==> is_digit(#[trigger] fp_s[p]));
            assert(all_digits(fp_s));
        }
        // frac_milli of the fraction region.
        let flen = n - (m + 1);
        let frac: u64;
        if flen == 0 {
            frac = 0;
        } else if flen == 1 {
            frac = ((l[m + 1] - 48) as u64) * 100;
            proof {
                assert(fp_s.last() == l@[m + 1]);
                assert(fp_s.drop_last() =~= Seq::<u8>::empty());
                assert(digits_val(Seq::<u8>::empty()) == 0);
                assert(digits_val(fp_s) == (fp_s.last() - 48) as nat);
            }
        } else if flen == 2 {
            frac = (((l[m + 1] - 48) as u64) * 10 + ((l[m + 2] - 48) as u64)) * 10;
            proof {
                let t1 = fp_s.drop_last();
                assert(t1.drop_last() =~= Seq::<u8>::empty());
                assert(digits_val(Seq::<u8>::empty()) == 0);
                assert(t1.last() == l@[m + 1]);
                assert(digits_val(t1) == (l@[m + 1] - 48) as nat);
                assert(fp_s.last() == l@[m + 2]);
                assert(digits_val(fp_s) == digits_val(t1) * 10 + (l@[m + 2] - 48) as nat);
            }
        } else {
            frac = ((l[m + 1] - 48) as u64) * 100 + ((l[m + 2] - 48) as u64) * 10 + ((l[m + 3]
                - 48) as u64);
            proof {
                let t3 = fp_s.take(3);
                let t2 = fp_s.take(2);
                let t1 = fp_s.take(1);
                assert(t3.drop_last() =~= t2);
                assert(t2.drop_last() =~= t1);
                assert(t1.drop_last() =~= Seq::<u8>::empty());
                assert(digits_val(Seq::<u8>::empty()) == 0);
                assert(t1.last() == l@[m + 1]);
                assert(digits_val(t1) == (l@[m + 1] - 48) as nat);
                assert(t2.last() == l@[m + 2]);
                assert(digits_val(t2) == digits_val(t1) * 10 + (l@[m + 2] - 48) as nat);
                assert(t3.last() == l@[m + 3]);
                assert(digits_val(t3) == digits_val(t2) * 10 + (l@[m + 3] - 48) as nat);
            }
        }
        proof {
            assert(frac == frac_milli(fp_s));
        }
        let hi = match ipval.checked_mul(1000) {
            Some(hi) => hi,
            None => {
                return None;
            },
        };
        match hi.checked_add(frac) {
            Some(t) => Some(t),
            None => None,
        }
    }
}

/// The bytes of the `cpu` label that opens the time-accounting stat line.
pub open spec fn stat_label() -> Seq<u8> {
    seq![99u8, 112u8, 117u8]
}

/// A stat line is well formed when it opens with the `cpu` label and its
/// first ten counter fields (fewer are allowed) are decimal numbers that
/// fit a `u64`.
pub open spec fn stat_line_ok(fields: Seq<Seq<u8>>) -> bool {
    &&& fields.len() >= 1
    &&& fields[0] == stat_label()
    &&& forall|i: int|
        1 <= i < fields.len() && i <= 10 ==> (#[trigger] fields[i]).len() > 0 && all_digits(
            fields[i],
        ) && digits_val(fields[i]) <= u64::MAX
}

/// Counter number `i` (counting from 0) of the stat line, zero when the
/// line ends before it.
pub open spec fn stat_field(fields: Seq<Seq<u8>>, i: int) -> nat {
    if i + 1 < fields.len() {
        digits_val(fields[i + 1])
    } else {
        0
    }
}

/// Parses the first line of the CPU-stat pseudo-file: `cpu` followed by
/// whitespace-separated cumulative tick counters in the fixed order
/// user, nice, system, idle, iowait, irq, softirq, steal, guest,
/// guest_nice.  Missing trailing counters read as zero; a malformed line
/// is a `ParseError`.
pub fn get_cpustats(line: &[u8]) -> (r: Result<CpuStats, Error>)
    ensures
        stat_line_ok(spec_fields(line@)) ==> r == Ok::<CpuStats, Error>(
            CpuStats {
                user: stat_field(spec_fields(line@), 0) as u64,
                nice: stat_field(spec_fields(line@), 1) as u64,
                system: stat_field(spec_fields(line@), 2) as u64,
                idle: stat_field(spec_fields(line@), 3) as u64,
                iowait: stat_field(spec_fields(line@), 4) as u64,
                irq: stat_field(spec_fields(line@), 5) as u64,
                softirq: stat_field(spec_fields(line@), 6) as u64,
                steal: stat_field(spec_fields(line@), 7) as u64,
                guest: stat_field(spec_fields(line@), 8) as u64,
                guest_nice: stat_field(spec_fields(line@), 9) as u64,
            },
        ),
        !stat_line_ok(spec_fields(line@)) ==> r == Err::<CpuStats, Error>(Error::ParseError),
{
    let fields = split_fields(line);
    let ghost fs = fields.deep_view();
    if fields.len() == 0 {
        return Err(Error::ParseError);
    }
    let f0 = &fields[0];
    proof {
        assert(fs[0] =~= fields@[0]@);
    }
    if !(f0.len() == 3 && f0[0] == 99 && f0[1] == 112 && f0[2] == 117) {
        proof {
            assert(fs[0] != stat_label()) by {
                if fs[0] == stat_label() {
                    assert(fs[0][0] == 99 && fs[0][1] == 112 && fs[0][2] == 117);
                }
            }
        }
        return Err(Error::ParseError);
    }
    proof {
        assert(fs[0] =~= stat_label());
    }
    let mut vals: Vec<u64> = Vec::new();
    let mut i: usize = 1;
    let count = if fields.len() > 11 {
        11
    } else {
        fields.len()
    };
    while i < count
        invariant
            1 <= i <= count <= fs.len(),
            count <= 11,
            fields.deep_view() == fs,
            fs == spec_fields(line@),
            fs[0] == stat_label(),
            count == if fs.len() > 11 { 11int } else { fs.len() as int },
            vals@.len() == i - 1,
            forall|j: int|
                1 <= j < i ==> (#[trigger] fs[j]).len() > 0 && all_digits(fs[j]) && digits_val(
                    fs[j],
                ) <= u64::MAX,
            forall|j: int| 1 <= j < i ==> vals@[j - 1] == digits_val(fs[j]),
        decreases count - i,
    {
        proof {
            assert(fs[i as int] =~= fields@[i as int]@);
        }
        match parse_u64(fields[i].as_slice()) {
            Some(v) => {
                vals.push(v);
            },
            None => {
                return Err(Error::ParseError);
            },
        }
        i = i + 1;
    }
    while vals.len() < 10
        invariant
            1 <= count <= fs.len(),
            count <= 11,
            count == if fs.len() > 11 { 11int } else { fs.len() as int },
            fs == spec_fields(line@),
            fs[0] == stat_label(),
            forall|j: int|
                1 <= j < count ==> (#[trigger] fs[j]).len() > 0 && all_digits(fs[j])
                    && digits_val(fs[j]) <= u64::MAX,
            count - 1 <= vals@.len() <= 10,
            forall|j: int| 0 <= j < count - 1 ==> vals@[j] == digits_val(fs[j + 1]),
            forall|j: int| count - 1 <= j < vals@.len() ==> vals@[j] == 0,
        decreases 10 - vals@.len(),
    {
        let ghost prevseq = vals@;
        vals.push(0);
        proof {
            assert(vals@ == prevseq.push(0));
            assert forall|j: int| count - 1 <= j < vals@.len() implies vals@[j] == 0 by {
                if j < prevseq.len() {
                    assert(prevseq.push(0)[j] == prevseq[j]);
                    assert(prevseq[j] == 0);
                } else {
                    assert(prevseq.push(0)[j] == 0);
                }
            }
            assert forall|j: int| 0 <= j < count - 1 implies vals@[j] == digits_val(
                fs[j + 1],
            ) by {
                assert(prevseq.push(0)[j] == prevseq[j]);
            }
        }
    }
    proof {
        assert forall|k: int| 0 <= k <= 9 implies vals@[k] == stat_field(fs, k) by {
            if k < count - 1 {
                assert(vals@[k] == digits_val(fs[k + 1]));
                assert(k + 1 < fs.len());
            } else {
                assert(vals@[k] == 0);
                assert(k + 1 >= count);
                assert(count == 11 ==> k >= 10);
                assert(k + 1 >= fs.len());
            }
        }
    }
    Ok(
        CpuStats {
            user: vals[0],
            nice: vals[1],
            system: vals[2],
            idle: vals[3],
            iowait: vals[4],
            irq: vals[5],
            softirq: vals[6],
            steal: vals[7],
            guest: vals[8],
            guest_nice: vals[9],
        },
    )
}

/// Parses the whole CPU-stat pseudo-file: its first line carries the
/// aggregate counters, and an empty file is a `ParseError`.
pub fn cpustats_from_text(text: &[u8]) -> (r: Result<CpuStats, Error>)
    ensures
        spec_lines(text@).len() == 0 ==> r == Err::<CpuStats, Error>(Error::ParseError),
        spec_lines(text@).len() > 0 ==> ({
            let fields = spec_fields(spec_lines(text@)[0]);
            &&& stat_line_ok(fields) ==> r == Ok::<CpuStats, Error>(
                CpuStats {
                    user: stat_field(fields, 0) as u64,
                    nice: stat_field(fields, 1) as u64,
                    system: stat_field(fields, 2) as u64,
                    idle: stat_field(fields, 3) as u64,
                    iowait: stat_field(fields, 4) as u64,
                    irq: stat_field(fields, 5) as u64,
                    softirq: stat_field(fields, 6) as u64,
                    steal: stat_field(fields, 7) as u64,
                    guest: stat_field(fields, 8) as u64,
                    guest_nice: stat_field(fields, 9) as u64,
                },
            )
            &&& !stat_line_ok(fields) ==> r == Err::<CpuStats, Error>(Error::ParseError)
        }),
{
    let lines = split_lines(text);
    if lines.len() == 0 {
        return Err(Error::ParseError);
    }
    proof {
        assert(lines.deep_view()[0] =~= lines@[0]@);
    }
    get_cpustats(lines[0].as_slice())
}

/// Whether `later` dominates `earlier` in every counter: what two
/// successive samples of the cumulative time-accounting counters must
/// satisfy on a live system, since such counters never regress.  The
/// kernel owns that guarantee; this is the check a caller applies to two
/// samples before differencing them into rates.
pub fn cpu_stats_monotonic(earlier: &CpuStats, later: &CpuStats) -> (r: bool)
    ensures
        r == (earlier.user <= later.user && earlier.nice <= later.nice && earlier.system
            <= later.system && earlier.idle <= later.idle && earlier.iowait <= later.iowait
            && earlier.irq <= later.irq && earlier.softirq <= later.softirq && earlier.steal
            <= later.steal && earlier.guest <= later.guest && earlier.guest_nice
            <= later.guest_nice),
{
    earlier.user <= later.user && earlier.nice <= later.nice && earlier.system <= later.system
        && earlier.idle <= later.idle && earlier.iowait <= later.iowait && earlier.irq
        <= later.irq && earlier.softirq <= later.softirq && earlier.steal <= later.steal
        && earlier.guest <= later.guest && earlier.guest_nice <= later.guest_nice
}

/// Normalizes the load-average kernel call: the sentinel status `-1`
/// surfaces the OS error, anything else hands back the three samples,
/// already scaled to thousandths by the caller.
pub fn get_loadavg(status: i32, one: u64, five: u64, fifteen: u64, os_err: i32) -> (r: Result<
    LoadAvg,
    Error,
>)
    ensures
        status == -1 ==> r == Err::<LoadAvg, Error>(Error::OsError(os_err)),
        status != -1 ==> r == Ok::<LoadAvg, Error>(LoadAvg { one, five, fifteen }),
{
    if status == -1 {
        Err(Error::OsError(os_err))
    } else {
        Ok(LoadAvg { one, five, fifteen })
    }
}

/// Whether bit `i` of `w` is set.
pub open spec fn bit_set(w: u64, i: int) -> bool {
    (w >> (i as u64)) & 1 == 1
}

/// How many of bits `0..upto` of `w` are set.
pub open spec fn bits_below(w: u64, upto: int) -> nat
    decreases upto,
{
    if upto <= 0 {
        0
    } else {
        bits_below(w, upto - 1) + (if bit_set(w, upto - 1) {
            1nat
        } else {
            0nat
        })
    }
}

/// How many bits are set across the first `upto` words of the mask.
pub open spec fn mask_bits(mask: Seq<u64>, upto: int) -> nat
    decreases upto,
{
    if upto <= 0 {
        0
    } else {
        mask_bits(mask, upto - 1) + bits_below(mask[upto - 1], 64)
    }
}

/// Counts the set bits of a CPU affinity mask: the fallback source for
/// the logical core count.
pub fn cpuset_count(mask: &[u64]) -> (r: u64)
    requires
        mask@.len() <= 1024,
    ensures
        r == mask_bits(mask@, mask@.len() as int),
        r <= mask@.len() * 64,
{
    let n = mask.len();
    let mut total: u64 = 0;
    let mut w: usize = 0;
    while w < n
        invariant
            0 <= w <= n == mask@.len(),
            n <= 1024,
            total == mask_bits(mask@, w as int),
            total <= w * 64,
        decreases n - w,
    {
        let word = mask[w];
        let mut i: u64 = 0;
        let mut cnt: u64 = 0;
        while i < 64
            invariant
                0 <= i <= 64,
                cnt == bits_below(word, i as int),
                cnt <= i,
            decreases 64 - i,
        {
            if (word >> i) & 1 == 1 {
                cnt = cnt + 1;
            }
            i = i + 1;
        }
        total = total + cnt;
        w = w + 1;
    }
    total
}

/// Decides the logical core count from the primary kernel answer and,
/// when the primary path was unavailable, the affinity-mask fallback:
/// only after both have failed is the failure declared.
pub fn get_cpu_logical_count(sysconf_cpus: i64, fallback: Result<u64, i32>) -> (r: Result<
    i64,
    Error,
>)
    requires
        fallback matches Ok(c) ==> c <= 65536,
    ensures
        sysconf_cpus >= 0 ==> r == Ok::<i64, Error>(sysconf_cpus),
        sysconf_cpus < 0 ==> match fallback {
            Ok(c) => r == Ok::<i64, Error>(c as i64),
            Err(e) => r == Err::<i64, Error>(Error::OsError(e)),
        },
{
    if sysconf_cpus >= 0 {
        Ok(sysconf_cpus)
    } else {
        match fallback {
            Ok(c) => Ok(c as i64),
            Err(e) => Err(Error::OsError(e)),
        }
    }
}

/// Decides the logical core count from two successive kernel
/// configuration queries: the second is consulted only when the first
/// fails, and only both failing is a failure.
pub fn logical_count_two_queries(first: Result<u32, i32>, second: Result<u32, i32>) -> (r: Result<
    i64,
    Error,
>)
    ensures
        first matches Ok(c) ==> r == Ok::<i64, Error>(c as i64),
        first is Err ==> match second {
            Ok(c) => r == Ok::<i64, Error>(c as i64),
            Err(e) => r == Err::<i64, Error>(Error::OsError(e)),
        },
{
    match first {
        Ok(c) => Ok(c as i64),
        Err(_) => match second {
            Ok(c) => Ok(c as i64),
            Err(e) => Err(Error::OsError(e)),
        },
    }
}

/// Normalizes the physical-core kernel query: a negative status surfaces
/// the OS error, otherwise the answer is the count.
pub fn get_physical_count(status: i32, data: u32, os_err: i32) -> (r: Result<u32, Error>)
    ensures
        status < 0 ==> r == Err::<u32, Error>(Error::OsError(os_err)),
        status >= 0 ==> r == Ok::<u32, Error>(data),
{
    if status < 0 {
        Err(Error::OsError(os_err))
    } else {
        Ok(data)
    }
}

/// When the kernel's answers are coherent — each path that resolved
/// reports at least the physical count, itself at least one — the
/// decided logical count is positive and dominates the physical count.
/// A kernel that reported a logical count below its physical count would
/// fall outside this statement.
pub proof fn lemma_logical_count_dominates(
    sysconf_cpus: i64,
    fallback: Result<u64, i32>,
    r: Result<i64, Error>,
    phys: u32,
)
    requires
        phys >= 1,
        sysconf_cpus >= 0 ==> sysconf_cpus >= phys,
        fallback matches Ok(c) ==> (sysconf_cpus < 0 ==> c >= phys),
        sysconf_cpus >= 0 ==> r == Ok::<i64, Error>(sysconf_cpus),
        sysconf_cpus < 0 ==> match fallback {
            Ok(c) => c <= 65536 && r == Ok::<i64, Error>(c as i64),
            Err(e) => r == Err::<i64, Error>(Error::OsError(e)),
        },
    ensures
        r matches Ok(n) ==> n >= phys >= 1,
{
}

/// Decodes the fixed-layout CPU-ticks kernel buffer: four 32-bit
/// counters in the documented order user, system, idle, nice.  A buffer
/// too short for that layout is a `ParseError`.
pub fn cpustats_from_buffer(buf: &[u32]) -> (r: Result<CpuStats, Error>)
    ensures
        buf@.len() >= 4 ==> r == Ok::<CpuStats, Error>(
            CpuStats {
                user: buf@[0] as u64,
                nice: buf@[3] as u64,
                system: buf@[1] as u64,
                idle: buf@[2] as u64,
                iowait: 0,
                irq: 0,
                softirq: 0,
                steal: 0,
                guest: 0,
                guest_nice: 0,
            },
        ),
        buf@.len() < 4 ==> r == Err::<CpuStats, Error>(Error::ParseError),
{
    if buf.len() < 4 {
        return Err(Error::ParseError);
    }
    Ok(
        CpuStats {
            user: buf[0] as u64,
            nice: buf[3] as u64,
            system: buf[1] as u64,
            idle: buf[2] as u64,
            iowait: 0,
            irq: 0,
            softirq: 0,
            steal: 0,
            guest: 0,
            guest_nice: 0,
        },
    )
}

/// Normalizes the frequency kernel query: a negative status surfaces the
/// OS error, otherwise the integer MHz answer is scaled to thousandths.
pub fn freq_from_sysctl(status: i32, mhz: u32, os_err: i32) -> (r: Result<Frequency, Error>)
    ensures
        status < 0 ==> r == Err::<Frequency, Error>(Error::OsError(os_err)),
        status >= 0 ==> r == Ok::<Frequency, Error>(Frequency { milli_mhz: (mhz * 1000) as u64 }),
{
    if status < 0 {
        Err(Error::OsError(os_err))
    } else {
        Ok(Frequency { milli_mhz: (mhz as u64) * 1000 })
    }
}

} // verus!
