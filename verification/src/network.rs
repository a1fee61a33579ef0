//! Network accessor: the per-interface cumulative traffic counters,
//! parsed from the kernel's structured text table.
//!
//! The table is line-oriented: header lines carry no colon; every
//! interface line is the interface name, a colon, then the counter
//! columns — receive bytes, packets, errors, drops in the first four,
//! transmit bytes, packets, errors, drops in columns nine to twelve.

use crate::error::Error;
use crate::models::IoCounters;
use crate::text::{
    all_digits, digits_val, is_ws, leading_ws, lemma_leading_ws_is, lemma_len_until_is, len_until,
    parse_u64, slice_to_vec_range, spec_fields, spec_lines, split_fields, split_lines,
    utf8_to_string,
};
use vstd::prelude::*;
use vstd::utf8::{decode_utf8, valid_utf8};

verus! {

/// One interface row: the name and its eight counters (receive bytes,
/// packets, errors, drops; transmit bytes, packets, errors, drops).
pub ghost struct NetRow {
    pub name: Seq<char>,
    pub rx: (nat, nat, nat, nat),
    pub tx: (nat, nat, nat, nat),
}

/// What one line of the table means: `None` for a malformed interface
/// line, `Some(None)` for a header line (no colon), `Some(Some(row))`
/// for a well-formed interface line.
pub open spec fn net_line(l: Seq<u8>) -> Option<Option<NetRow>> {
    let c = len_until(l, 58) as int;
    if c == l.len() {
        Some(None)
    } else {
        let raw_name = l.take(c);
        let name = raw_name.subrange(leading_ws(raw_name) as int, raw_name.len() as int);
        let fs = spec_fields(l.subrange(c + 1, l.len() as int));
        if name.len() == 0 || !valid_utf8(name) {
            None
        } else if fs.len() < 12 || exists|i: int|
            0 <= i < 12 && !net_field_ok(#[trigger] fs[i]) {
            None
        } else {
            Some(
                Some(
                    NetRow {
                        name: decode_utf8(name),
                        rx: (
                            digits_val(fs[0]),
                            digits_val(fs[1]),
                            digits_val(fs[2]),
                            digits_val(fs[3]),
                        ),
                        tx: (
                            digits_val(fs[8]),
                            digits_val(fs[9]),
                            digits_val(fs[10]),
                            digits_val(fs[11]),
                        ),
                    },
                ),
            )
        }
    }
}

/// A counter column parses: nonempty, all digits, and it fits a `u64`.
pub open spec fn net_field_ok(f: Seq<u8>) -> bool {
    f.len() > 0 && all_digits(f) && digits_val(f) <= u64::MAX
}

/// The rows of the first `k` lines, or `None` as soon as one interface
/// line is malformed.
pub open spec fn spec_net(ls: Seq<Seq<u8>>, k: int) -> Option<Seq<NetRow>>
    decreases k,
{
    if k <= 0 {
        Some(Seq::empty())
    } else {
        match spec_net(ls, k - 1) {
            None => None,
            Some(prev) => match net_line(ls[k - 1]) {
                None => None,
                Some(None) => Some(prev),
                Some(Some(row)) => Some(prev.push(row)),
            },
        }
    }
}

/// Parses the interface table: one record per interface line, in table
/// order; header lines contribute nothing; the first malformed
/// interface line makes the whole table a `ParseError`.
pub fn get_io_counters(text: &[u8]) -> (r: Result<Vec<IoCounters>, Error>)
    ensures
        match spec_net(spec_lines(text@), spec_lines(text@).len() as int) {
            Some(rows) => match r {
                Ok(v) => {
                    &&& v@.len() == rows.len()
                    &&& forall|i: int|
                        0 <= i < rows.len() ==> {
                            let c = #[trigger] v@[i];
                            let row = rows[i];
                            c.interface@ == row.name && c.rx_bytes == row.rx.0 && c.rx_packets
                                == row.rx.1 && c.rx_errs == row.rx.2 && c.rx_drop == row.rx.3
                                && c.tx_bytes == row.tx.0 && c.tx_packets == row.tx.1 && c.tx_errs
                                == row.tx.2 && c.tx_drop == row.tx.3
                        }
                },
                Err(_) => false,
            },
            None => r == Err::<Vec<IoCounters>, Error>(Error::ParseError),
        },
{
    let lines = split_lines(text);
    let ghost all = lines.deep_view();
    let n = lines.len();
    let mut out: Vec<IoCounters> = Vec::new();
    let mut i: usize = 0;
    while i < n
        invariant
            0 <= i <= n == all.len(),
            all == lines.deep_view(),
            all == spec_lines(text@),
            spec_net(all, i as int) matches Some(rows) && out@.len() == rows.len() && forall|
                j: int,
            |
                0 <= j < rows.len() ==> {
                    let c = #[trigger] out@[j];
                    let row = rows[j];
                    c.interface@ == row.name && c.rx_bytes == row.rx.0 && c.rx_packets == row.rx.1
                        && c.rx_errs == row.rx.2 && c.rx_drop == row.rx.3 && c.tx_bytes == row.tx.0
                        && c.tx_packets == row.tx.1 && c.tx_errs == row.tx.2 && c.tx_drop
                        == row.tx.3
                },
        decreases n - i,
    {
        proof {
            assert(all[i as int] =~= lines@[i as int]@);
        }
        match parse_net_line(lines[i].as_slice()) {
            Ok(Some(c)) => {
                out.push(c);
            },
            Ok(None) => {},
            Err(e) => {
                proof {
                    assert(spec_net(all, i + 1) is None);
                    lemma_spec_net_none_stays(all, i + 1, all.len() as int);
                }
                return Err(e);
            },
        }
        i = i + 1;
    }
    Ok(out)
}

/// A table once malformed stays malformed: more lines cannot mend it.
proof fn lemma_spec_net_none_stays(ls: Seq<Seq<u8>>, k: int, m: int)
    requires
        0 <= k <= m,
        spec_net(ls, k) is None,
    ensures
        spec_net(ls, m) is None,
    decreases m - k,
{
    if k < m {
        lemma_spec_net_none_stays(ls, k + 1, m);
    }
}

/// Parses one line of the table: `Ok(None)` for a header line,
/// `Ok(Some(record))` for a well-formed interface line, and
/// `ParseError` for a malformed one, exactly as [`net_line`] says.
fn parse_net_line(l: &[u8]) -> (r: Result<Option<IoCounters>, Error>)
    ensures
        match net_line(l@) {
            None => r == Err::<Option<IoCounters>, Error>(Error::ParseError),
            Some(None) => r == Ok::<Option<IoCounters>, Error>(None),
            Some(Some(row)) => match r {
                Ok(Some(c)) => c.interface@ == row.name && c.rx_bytes == row.rx.0 && c.rx_packets
                    == row.rx.1 && c.rx_errs == row.rx.2 && c.rx_drop == row.rx.3 && c.tx_bytes
                    == row.tx.0 && c.tx_packets == row.tx.1 && c.tx_errs == row.tx.2 && c.tx_drop
                    == row.tx.3,
                _ => false,
            },
        },
{
    let n = l.len();
    // Find the colon that ends the interface name.
    let mut c: usize = 0;
    while c < n && l[c] != 58
        invariant
            0 <= c <= n == l@.len(),
            forall|j: int| 0 <= j < c ==> l@[j] != 58,
        decreases n - c,
    {
        c = c + 1;
    }
    proof {
        lemma_len_until_is(l@, 58, c as int);
    }
    if c == n {
        return Ok(None);
    }
    // The name: the colon's left side, leading separators dropped.
    let ghost raw_name = l@.take(c as int);
    let mut k: usize = 0;
    while k < c && (l[k] == 32 || l[k] == 9)
        invariant
            0 <= k <= c <= l@.len(),
            forall|j: int| 0 <= j < k ==> is_ws(#[trigger] l@[j]),
        decreases c - k,
    {
        k = k + 1;
    }
    proof {
        assert(forall|j: int| 0 <= j < k ==> is_ws(#[trigger] raw_name[j]));
        lemma_leading_ws_is(raw_name, k as int);
        assert(raw_name.subrange(leading_ws(raw_name) as int, raw_name.len() as int)
            =~= l@.subrange(k as int, c as int));
    }
    if k == c {
        return Err(Error::ParseError);
    }
    let name_bytes = slice_to_vec_range(l, k, c);
    let interface = match utf8_to_string(name_bytes) {
        Some(s) => s,
        None => {
            return Err(Error::ParseError);
        },
    };
    // The counters: whitespace-separated columns after the colon.
    let tail = slice_to_vec_range(l, c + 1, n);
    proof {
        assert(tail@ =~= l@.subrange(c + 1, n as int));
    }
    let fields = split_fields(tail.as_slice());
    let ghost fs = spec_fields(l@.subrange(c + 1, n as int));
    proof {
        assert(fields.deep_view() == fs);
        assert(fs.len() == fields@.len());
    }
    if fields.len() < 12 {
        return Err(Error::ParseError);
    }
    let mut vals: Vec<u64> = Vec::new();
    let mut i: usize = 0;
    while i < 12
        invariant
            0 <= i <= 12 <= fs.len(),
            c < l@.len(),
            len_until(l@, 58) == c,
            ({
                let raw = l@.take(c as int);
                let nm = raw.subrange(leading_ws(raw) as int, raw.len() as int);
                nm.len() > 0 && valid_utf8(nm)
            }),
            fs == spec_fields(l@.subrange(c as int + 1, l@.len() as int)),
            fields.deep_view() == fs,
            vals@.len() == i,
            forall|j: int| 0 <= j < i ==> net_field_ok(#[trigger] fs[j]),
            forall|j: int| 0 <= j < i ==> vals@[j] == digits_val(fs[j]),
        decreases 12 - i,
    {
        proof {
            assert(fs[i as int] =~= fields@[i as int]@);
        }
        match parse_u64(fields[i].as_slice()) {
            Some(v) => {
                vals.push(v);
            },
            None => {
                return Err(Error::ParseError);
            },
        }
        i = i + 1;
    }
    Ok(
        Some(
            IoCounters {
                interface,
                rx_bytes: vals[0],
                rx_packets: vals[1],
                rx_errs: vals[2],
                rx_drop: vals[3],
                tx_bytes: vals[8],
                tx_packets: vals[9],
                tx_errs: vals[10],
                tx_drop: vals[11],
            },
        ),
    )
}

} // verus!
