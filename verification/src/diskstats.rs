//! The disk-statistics table: per-device cumulative I/O counters parsed
//! from the fixed-column pseudo-file, one device per line.
//!
//! The columns are fixed: device numbers, the device name, then the
//! counters — reads completed (column 3), sectors read (column 5),
//! writes completed (column 7), sectors written (column 9), and time
//! spent doing I/O in milliseconds (column 12).  Sector counts scale to
//! bytes by the fixed 512-byte sector the table is defined over.

use crate::error::Error;
use crate::models::{IoBlock, IoStats};
use crate::text::{
    all_digits, digits_val, parse_u64, slice_to_vec_range, spec_fields, spec_lines, split_fields,
    split_lines, utf8_to_string,
};
use vstd::prelude::*;
use vstd::utf8::{decode_utf8, valid_utf8};

verus! {

/// A counter column parses and fits a `u64`.
pub open spec fn stat_field_ok(f: Seq<u8>) -> bool {
    f.len() > 0 && all_digits(f) && digits_val(f) <= u64::MAX
}

/// One device row: the name and the five counters, sectors already
/// scaled to bytes.
pub ghost struct DiskRow {
    pub name: Seq<char>,
    pub read_count: nat,
    pub read_bytes: nat,
    pub write_count: nat,
    pub write_bytes: nat,
    pub busy_time: nat,
}

/// What one line of the table means: `None` when it is malformed — too
/// few columns, an unparsable counter, a byte count beyond 64 bits, or
/// an undecodable name — otherwise the device's row.
pub open spec fn diskstats_line(l: Seq<u8>) -> Option<DiskRow> {
    let fs = spec_fields(l);
    if fs.len() < 13 {
        None
    } else if exists|i: int| 3 <= i < 13 && !stat_field_ok(#[trigger] fs[i]) {
        None
    } else if !valid_utf8(fs[2]) {
        None
    } else if digits_val(fs[5]) * 512 > u64::MAX || digits_val(fs[9]) * 512 > u64::MAX {
        None
    } else {
        Some(
            DiskRow {
                name: decode_utf8(fs[2]),
                read_count: digits_val(fs[3]),
                read_bytes: digits_val(fs[5]) * 512,
                write_count: digits_val(fs[7]),
                write_bytes: digits_val(fs[9]) * 512,
                busy_time: digits_val(fs[12]),
            },
        )
    }
}

/// The rows of the first `k` lines; empty lines contribute nothing, and
/// a malformed line poisons the whole table.
pub open spec fn spec_diskstats(ls: Seq<Seq<u8>>, k: int) -> Option<Seq<DiskRow>>
    decreases k,
{
    if k <= 0 {
        Some(Seq::empty())
    } else {
        match spec_diskstats(ls, k - 1) {
            None => None,
            Some(prev) => if ls[k - 1].len() == 0 {
                Some(prev)
            } else {
                match diskstats_line(ls[k - 1]) {
                    None => None,
                    Some(row) => Some(prev.push(row)),
                }
            },
        }
    }
}

/// Whether an [`IoBlock`] record carries exactly a row's values.
pub open spec fn block_matches(b: IoBlock, row: DiskRow) -> bool {
    b.device_name@ == row.name && b.read_count == row.read_count && b.read_bytes == row.read_bytes
        && b.write_count == row.write_count && b.write_bytes == row.write_bytes && b.busy_time
        == row.busy_time
}

/// Parses the disk-statistics table into one [`IoBlock`] per device
/// line, in table order; the first malformed line is a `ParseError`.
pub fn get_ioblocks(text: &[u8]) -> (r: Result<Vec<IoBlock>, Error>)
    ensures
        match spec_diskstats(spec_lines(text@), spec_lines(text@).len() as int) {
            Some(rows) => match r {
                Ok(v) => v@.len() == rows.len() && forall|i: int|
                    0 <= i < rows.len() ==> block_matches(#[trigger] v@[i], rows[i]),
                Err(_) => false,
            },
            None => r == Err::<Vec<IoBlock>, Error>(Error::ParseError),
        },
{
    let lines = split_lines(text);
    let ghost all = lines.deep_view();
    let n = lines.len();
    let mut out: Vec<IoBlock> = Vec::new();
    let mut i: usize = 0;
    while i < n
        invariant
            0 <= i <= n == all.len(),
            all == lines.deep_view(),
            all == spec_lines(text@),
            spec_diskstats(all, i as int) matches Some(rows) && out@.len() == rows.len()
                && forall|j: int|
                0 <= j < rows.len() ==> block_matches(#[trigger] out@[j], rows[j]),
        decreases n - i,
    {
        proof {
            assert(all[i as int] =~= lines@[i as int]@);
        }
        if lines[i].len() > 0 {
            match parse_diskstats_line(lines[i].as_slice()) {
                Ok(b) => {
                    out.push(b);
                },
                Err(e) => {
                    proof {
                        assert(spec_diskstats(all, i + 1) is None);
                        lemma_spec_diskstats_none_stays(all, i + 1, all.len() as int);
                    }
                    return Err(e);
                },
            }
        }
        i = i + 1;
    }
    Ok(out)
}

/// A table once malformed stays malformed.
proof fn lemma_spec_diskstats_none_stays(ls: Seq<Seq<u8>>, k: int, m: int)
    requires
        0 <= k <= m,
        spec_diskstats(ls, k) is None,
    ensures
        spec_diskstats(ls, m) is None,
    decreases m - k,
{
    if k < m {
        lemma_spec_diskstats_none_stays(ls, k + 1, m);
    }
}

/// Parses one nonempty device line, exactly as [`diskstats_line`] says.
fn parse_diskstats_line(l: &[u8]) -> (r: Result<IoBlock, Error>)
    ensures
        match diskstats_line(l@) {
            None => r == Err::<IoBlock, Error>(Error::ParseError),
            Some(row) => match r {
                Ok(b) => block_matches(b, row),
                Err(_) => false,
            },
        },
{
    let fields = split_fields(l);
    let ghost fs = spec_fields(l@);
    if fields.len() < 13 {
        return Err(Error::ParseError);
    }
    let mut vals: Vec<u64> = Vec::new();
    let mut i: usize = 3;
    while i < 13
        invariant
            3 <= i <= 13 <= fs.len(),
            fs == spec_fields(l@),
            fields.deep_view() == fs,
            vals@.len() == i - 3,
            forall|j: int| 3 <= j < i ==> stat_field_ok(#[trigger] fs[j]),
            forall|j: int| 3 <= j < i ==> vals@[j - 3] == digits_val(fs[j]),
        decreases 13 - i,
    {
        proof {
            assert(fs[i as int] =~= fields@[i as int]@);
        }
        match parse_u64(fields[i].as_slice()) {
            Some(v) => {
                vals.push(v);
            },
            None => {
                return Err(Error::ParseError);
            },
        }
        i = i + 1;
    }
    proof {
        assert(fs[2] =~= fields@[2]@);
    }
    let name_bytes = slice_to_vec_range(fields[2].as_slice(), 0, fields[2].len());
    proof {
        assert(name_bytes@ =~= fs[2]);
    }
    let device_name = match utf8_to_string(name_bytes) {
        Some(s) => s,
        None => {
            return Err(Error::ParseError);
        },
    };
    let read_bytes = match vals[2].checked_mul(512) {
        Some(v) => v,
        None => {
            proof {
                assert(digits_val(fs[5]) * 512 > u64::MAX);
            }
            return Err(Error::ParseError);
        },
    };
    let write_bytes = match vals[6].checked_mul(512) {
        Some(v) => v,
        None => {
            proof {
                assert(digits_val(fs[9]) * 512 > u64::MAX);
            }
            return Err(Error::ParseError);
        },
    };
    Ok(
        IoBlock {
            device_name,
            read_count: vals[0],
            read_bytes,
            write_count: vals[4],
            write_bytes,
            busy_time: vals[9],
        },
    )
}

/// Narrows the full per-device counters to the byte-count record: the
/// device and its cumulative bytes read and written.  Counts beyond
/// `i64` cannot be represented there and are a `ParseError`.
pub fn get_iostats(blocks: &Vec<IoBlock>) -> (r: Result<Vec<IoStats>, Error>)
    ensures
        match r {
            Ok(v) => {
                &&& v@.len() == blocks@.len()
                &&& forall|i: int|
                    0 <= i < v@.len() ==> {
                        let s = #[trigger] v@[i];
                        s.device_name == blocks@[i].device_name && s.bytes_read == blocks@[
                            i
                        ].read_bytes && s.bytes_wrtn == blocks@[i].write_bytes
                    }
            },
            Err(e) => e == Error::ParseError && exists|i: int|
                0 <= i < blocks@.len() && ((#[trigger] blocks@[i]).read_bytes > i64::MAX
                    || blocks@[i].write_bytes > i64::MAX),
        },
{
    let mut out: Vec<IoStats> = Vec::new();
    let n = blocks.len();
    let mut i: usize = 0;
    while i < n
        invariant
            0 <= i <= n == blocks@.len(),
            out@.len() == i,
            forall|j: int|
                0 <= j < i ==> {
                    let s = #[trigger] out@[j];
                    s.device_name == blocks@[j].device_name && s.bytes_read == blocks@[
                        j
                    ].read_bytes && s.bytes_wrtn == blocks@[j].write_bytes
                },
        decreases n - i,
    {
        let b = &blocks[i];
        if b.read_bytes > i64::MAX as u64 || b.write_bytes > i64::MAX as u64 {
            return Err(Error::ParseError);
        }
        out.push(
            IoStats {
                device_name: b.device_name.clone(),
                bytes_read: b.read_bytes as i64,
                bytes_wrtn: b.write_bytes as i64,
            },
        );
        i = i + 1;
    }
    Ok(out)
}

} // verus!
