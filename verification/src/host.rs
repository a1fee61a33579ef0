//! Host accessors: logged-in users from the fixed-record login log,
//! host identity, uptime, and the combined host record.
//!
//! The login log is a raw byte stream of fixed-size records; the decode
//! here gives its layout a byte-exact definition.  The combined host
//! record is produced by a query-by-query probe whose sequencing — and
//! whose short-circuit on the first failure — is part of the contract.

use crate::error::Error;
use crate::models::{HostInfo, LoadAvg, Memory};
use crate::text::{lemma_len_until_is, len_until, slice_to_vec_range, utf8_to_string};
use vstd::prelude::*;
use vstd::utf8::{decode_utf8, valid_utf8};

verus! {

/// The 16-bit little-endian value at `s[off..off+2]`, as a signed count.
pub open spec fn le_i16(s: Seq<u8>, off: int) -> i16 {
    let u = s[off] + s[off + 1] * 256;
    if u < 32768 {
        u as i16
    } else {
        (u - 65536) as i16
    }
}

/// The 32-bit little-endian value at `s[off..off+4]`, as a signed count.
pub open spec fn le_i32(s: Seq<u8>, off: int) -> i32 {
    let u = s[off] + s[off + 1] * 256 + s[off + 2] * 65536 + s[off + 3] * 16777216;
    if u < 2147483648 {
        u as i32
    } else {
        (u - 4294967296) as i32
    }
}

/// Reads the little-endian 16-bit field at `off`.
pub fn read_i16(buf: &[u8], off: usize) -> (r: i16)
    requires
        off + 2 <= buf@.len(),
    ensures
        r == le_i16(buf@, off as int),
{
    let u: u16 = buf[off] as u16 + (buf[off + 1] as u16) * 256;
    let x: i32 = u as i32;
    if x < 32768 {
        x as i16
    } else {
        (x - 65536) as i16
    }
}

/// Reads the little-endian 32-bit field at `off`.
pub fn read_i32(buf: &[u8], off: usize) -> (r: i32)
    requires
        off + 4 <= buf@.len(),
    ensures
        r == le_i32(buf@, off as int),
{
    let u: u32 = buf[off] as u32 + (buf[off + 1] as u32) * 256 + (buf[off + 2] as u32) * 65536 + (
    buf[off + 3] as u32) * 16777216;
    let x: i64 = u as i64;
    if x < 2147483648 {
        x as i32
    } else {
        (x - 4294967296) as i32
    }
}

/// Exit status of a login-log record's process.
#[allow(non_camel_case_types)]
#[derive(Clone, Copy, Debug, PartialEq, Eq, Structural)]
pub struct exit_status {
    pub e_termination: i16,
    pub e_exit: i16,
}

/// Timestamp of a login-log record.
#[allow(non_camel_case_types)]
#[derive(Clone, Copy, Debug, PartialEq, Eq, Structural)]
pub struct ut_tv {
    pub tv_sec: i32,
    pub tv_usec: i32,
}

/// One login-log record, decoded from its fixed 384-byte layout: type
/// tag, process id, then the fixed-width text fields (line, id, user,
/// host), exit status, session, timestamp and address words.
#[allow(non_camel_case_types)]
#[derive(Clone, Debug, PartialEq)]
pub struct utmp {
    pub ut_type: i16,
    pub ut_pid: i32,
    pub ut_line: Vec<u8>,
    pub ut_id: Vec<u8>,
    pub ut_user: Vec<u8>,
    pub ut_host: Vec<u8>,
    pub ut_exit: exit_status,
    pub ut_session: i32,
    pub ut_tv: ut_tv,
    pub ut_addr_v6: Vec<i32>,
}

/// The size of one login-log record in bytes.
pub const UTMP_SIZE: usize = 384;

/// Decodes the login-log record that starts at `off`.  The layout is
/// fixed: type at 0, pid at 4, line at 8 (32 bytes), id at 40 (4), user
/// at 44 (32), host at 76 (256), exit status at 332, session at 336,
/// timestamp at 340, address words at 348, then 20 reserved bytes.
pub fn decode_utmp(buf: &[u8], off: usize) -> (r: utmp)
    requires
        off + 384 <= buf@.len(),
    ensures
        r.ut_type == le_i16(buf@, off as int),
        r.ut_pid == le_i32(buf@, off + 4),
        r.ut_line@ == buf@.subrange(off + 8, off + 40),
        r.ut_id@ == buf@.subrange(off + 40, off + 44),
        r.ut_user@ == buf@.subrange(off + 44, off + 76),
        r.ut_host@ == buf@.subrange(off + 76, off + 332),
        r.ut_exit == (exit_status {
            e_termination: le_i16(buf@, off + 332),
            e_exit: le_i16(buf@, off + 334),
        }),
        r.ut_session == le_i32(buf@, off + 336),
        r.ut_tv == (ut_tv { tv_sec: le_i32(buf@, off + 340), tv_usec: le_i32(buf@, off + 344) }),
        r.ut_addr_v6@ == seq![
            le_i32(buf@, off + 348),
            le_i32(buf@, off + 352),
            le_i32(buf@, off + 356),
            le_i32(buf@, off + 360),
        ],
{
    let n = buf.len();
    proof {
        assert(off + 384 <= n);
    }
    let mut addr: Vec<i32> = Vec::new();
    addr.push(read_i32(buf, off + 348));
    addr.push(read_i32(buf, off + 352));
    addr.push(read_i32(buf, off + 356));
    addr.push(read_i32(buf, off + 360));
    proof {
        assert(addr@ =~= seq![
            le_i32(buf@, off + 348),
            le_i32(buf@, off + 352),
            le_i32(buf@, off + 356),
            le_i32(buf@, off + 360),
        ]);
    }
    utmp {
        ut_type: read_i16(buf, off),
        ut_pid: read_i32(buf, off + 4),
        ut_line: slice_to_vec_range(buf, off + 8, off + 40),
        ut_id: slice_to_vec_range(buf, off + 40, off + 44),
        ut_user: slice_to_vec_range(buf, off + 44, off + 76),
        ut_host: slice_to_vec_range(buf, off + 76, off + 332),
        ut_exit: exit_status {
            e_termination: read_i16(buf, off + 332),
            e_exit: read_i16(buf, off + 334),
        },
        ut_session: read_i32(buf, off + 336),
        ut_tv: ut_tv { tv_sec: read_i32(buf, off + 340), tv_usec: read_i32(buf, off + 344) },
        ut_addr_v6: addr,
    }
}

/// The text of a fixed-width NUL-padded field: the bytes before the
/// first NUL, decoded as UTF-8, or a single `?` when they are not valid
/// UTF-8.
pub open spec fn cstr_text(u: Seq<u8>) -> Seq<char> {
    let p = u.take(len_until(u, 0) as int);
    if valid_utf8(p) {
        decode_utf8(p)
    } else {
        "?"@
    }
}

/// Extracts the text of a fixed-width NUL-padded field, exactly as
/// [`cstr_text`] describes it.
pub fn cstr_field(bytes: &[u8]) -> (r: String)
    ensures
        r@ == cstr_text(bytes@),
{
    let n = bytes.len();
    let mut j: usize = 0;
    while j < n && bytes[j] != 0
        invariant
            0 <= j <= n == bytes@.len(),
            forall|i: int| 0 <= i < j ==> bytes@[i] != 0,
        decreases n - j,
    {
        j = j + 1;
    }
    proof {
        lemma_len_until_is(bytes@, 0, j as int);
    }
    let prefix = slice_to_vec_range(bytes, 0, j);
    proof {
        assert(prefix@ =~= bytes@.take(len_until(bytes@, 0) as int));
    }
    match utf8_to_string(prefix) {
        Some(s) => s,
        None => question_mark_string(),
    }
}

/// The one-character fallback text for an undecodable field.
fn question_mark_string() -> (r: String)
    ensures
        r@ == "?"@,
{
    let s: &str = "?";
    s.to_owned()
}

/// Whether the record at `base` counts as a logged-in user: the
/// user-process type tag, and a nonempty username field.
pub open spec fn record_counts(buf: Seq<u8>, base: int) -> bool {
    le_i16(buf, base) == 7 && buf[base + 44] != 0
}

/// The usernames of the first `k` records of the login log, in log
/// order, one entry per counting record.  Repeated logins repeat: no
/// deduplication is performed.
pub open spec fn spec_users(buf: Seq<u8>, k: int) -> Seq<Seq<char>>
    decreases k,
{
    if k <= 0 {
        Seq::empty()
    } else {
        let prev = spec_users(buf, k - 1);
        let base = 384 * (k - 1);
        if record_counts(buf, base) {
            prev.push(cstr_text(buf.subrange(base + 44, base + 76)))
        } else {
            prev
        }
    }
}

/// Reads the login log: one username per user-process record with a
/// nonempty name, in order, duplicates kept.  A trailing partial record
/// is ignored.
pub fn get_users(buf: &[u8]) -> (r: Vec<String>)
    ensures
        r.deep_view() == spec_users(buf@, buf@.len() as int / 384),
{
    let n = buf.len();
    let mut r: Vec<String> = Vec::new();
    let mut k: usize = 0;
    let mut base: usize = 0;
    while 384 <= n - base
        invariant
            0 <= k,
            base == 384 * k,
            base <= n == buf@.len(),
            r.deep_view() == spec_users(buf@, k as int),
        decreases n - base,
    {
        let rec = decode_utmp(buf, base);
        let ghost prev = r.deep_view();
        let mut pushed = false;
        if rec.ut_type == 7 && rec.ut_user[0] != 0 {
            let name = cstr_field(rec.ut_user.as_slice());
            r.push(name);
            pushed = true;
        }
        proof {
            assert(rec.ut_user@[0] == buf@[base + 44]);
            assert(record_counts(buf@, base as int) == (rec.ut_type == 7 && rec.ut_user@[0]
                != 0));
            if pushed {
                assert(rec.ut_user@ =~= buf@.subrange(base + 44, base + 76));
                assert(r.deep_view() =~~= prev.push(
                    cstr_text(buf@.subrange(base + 44, base + 76)),
                ));
            }
            assert(spec_users(buf@, k + 1) == r.deep_view());
        }
        k = k + 1;
        base = base + 384;
    }
    proof {
        assert(k as int == buf@.len() as int / 384) by {
            assert(384 * k <= buf@.len() < 384 * k + 384);
            assert(buf@.len() as int / 384 == k as int) by (nonlinear_arith)
                requires
                    384 * k <= buf@.len() < 384 * k + 384,
            ;
        }
    }
    r
}

/// Normalizes the boot-time kernel query into whole seconds of uptime:
/// a negative status surfaces the OS error; a negative seconds count —
/// which a coherent kernel never reports — clamps to zero.
pub fn get_uptime(status: i32, tv_sec: i64, os_err: i32) -> (r: Result<u64, Error>)
    ensures
        status < 0 ==> r == Err::<u64, Error>(Error::OsError(os_err)),
        status >= 0 ==> r == Ok::<u64, Error>(
            if tv_sec >= 0 {
                tv_sec as u64
            } else {
                0u64
            },
        ),
{
    if status < 0 {
        Err(Error::OsError(os_err))
    } else if tv_sec >= 0 {
        Ok(tv_sec as u64)
    } else {
        Ok(0)
    }
}

/// Converts the boot-time kernel answer into elapsed whole seconds of
/// uptime: the clock reading minus the boot instant.  A negative status
/// surfaces the OS error; a boot instant after the clock reading —
/// which a coherent kernel never reports — clamps to zero.
pub fn uptime_from_boot_time(status: i32, now_sec: i64, boot_sec: i64, os_err: i32) -> (r: Result<
    u64,
    Error,
>)
    ensures
        status < 0 ==> r == Err::<u64, Error>(Error::OsError(os_err)),
        status >= 0 ==> r == Ok::<u64, Error>(
            if now_sec >= boot_sec {
                (now_sec - boot_sec) as u64
            } else {
                0u64
            },
        ),
{
    if status < 0 {
        Err(Error::OsError(os_err))
    } else if now_sec >= boot_sec {
        let diff: i128 = now_sec as i128 - boot_sec as i128;
        Ok(diff as u64)
    } else {
        Ok(0)
    }
}

/// Host identity, as the system-identity query reports it: the OS
/// version and the hostname, two substrings of one answer.
#[derive(Clone, Debug, PartialEq)]
pub struct UnameInfo {
    pub os_version: String,
    pub hostname: String,
}

/// The four constituent queries of the combined host record, in the
/// order the probe issues them.
#[derive(Clone, Copy, Debug, PartialEq, Eq, Structural)]
pub enum HostQuery {
    Uname,
    LoadAvg,
    Memory,
    Uptime,
}

/// The answer to one constituent query.
#[derive(Debug, PartialEq)]
pub enum HostReply {
    Uname(Result<UnameInfo, Error>),
    LoadAvg(Result<LoadAvg, Error>),
    Memory(Result<Memory, Error>),
    Uptime(Result<u64, Error>),
}

/// The probe's state: what has been gathered so far.
#[derive(Clone, Debug, PartialEq)]
pub enum HostProbe {
    Start,
    HaveUname { os_version: String, hostname: String },
    HaveLoad { os_version: String, hostname: String, loadavg: LoadAvg },
    HaveMemory { os_version: String, hostname: String, loadavg: LoadAvg, memory: Memory },
}

/// What one step of the probe decides: issue the next query from the
/// new state, or finish with the combined record.
#[derive(Clone, Debug, PartialEq)]
pub enum HostStep {
    Next(HostProbe),
    Done(HostInfo),
}

/// Which query the probe issues from each state.
pub open spec fn spec_host_query(p: HostProbe) -> HostQuery {
    match p {
        HostProbe::Start => HostQuery::Uname,
        HostProbe::HaveUname { .. } => HostQuery::LoadAvg,
        HostProbe::HaveLoad { .. } => HostQuery::Memory,
        HostProbe::HaveMemory { .. } => HostQuery::Uptime,
    }
}

/// A reply answers the query the probe issued from this state.
pub open spec fn reply_matches(p: HostProbe, reply: HostReply) -> bool {
    match (p, reply) {
        (HostProbe::Start, HostReply::Uname(_)) => true,
        (HostProbe::HaveUname { .. }, HostReply::LoadAvg(_)) => true,
        (HostProbe::HaveLoad { .. }, HostReply::Memory(_)) => true,
        (HostProbe::HaveMemory { .. }, HostReply::Uptime(_)) => true,
        _ => false,
    }
}

/// What one probe step yields: a failed constituent ends the probe with
/// that failure unchanged; a successful one either advances the state
/// or, after the last query, completes the record.
pub open spec fn spec_host_step(p: HostProbe, reply: HostReply) -> Result<HostStep, Error> {
    match (p, reply) {
        (HostProbe::Start, HostReply::Uname(ans)) => match ans {
            Ok(u) => Ok(
                HostStep::Next(
                    HostProbe::HaveUname { os_version: u.os_version, hostname: u.hostname },
                ),
            ),
            Err(e) => Err(e),
        },
        (HostProbe::HaveUname { os_version, hostname }, HostReply::LoadAvg(ans)) => match ans {
            Ok(l) => Ok(HostStep::Next(HostProbe::HaveLoad { os_version, hostname, loadavg: l })),
            Err(e) => Err(e),
        },
        (HostProbe::HaveLoad { os_version, hostname, loadavg }, HostReply::Memory(ans)) => match ans {
            Ok(m) => Ok(
                HostStep::Next(
                    HostProbe::HaveMemory { os_version, hostname, loadavg, memory: m },
                ),
            ),
            Err(e) => Err(e),
        },
        (HostProbe::HaveMemory { os_version, hostname, loadavg, memory }, HostReply::Uptime(ans)) => match ans {
            Ok(t) => Ok(
                HostStep::Done(HostInfo { loadavg, memory, os_version, hostname, uptime: t }),
            ),
            Err(e) => Err(e),
        },
        _ => Err(Error::InvalidInput),
    }
}

/// The query to issue from the probe's current state.
pub fn host_probe_query(p: &HostProbe) -> (q: HostQuery)
    ensures
        q == spec_host_query(*p),
{
    match p {
        HostProbe::Start => HostQuery::Uname,
        HostProbe::HaveUname { .. } => HostQuery::LoadAvg,
        HostProbe::HaveLoad { .. } => HostQuery::Memory,
        HostProbe::HaveMemory { .. } => HostQuery::Uptime,
    }
}

/// Advances the probe by one answered query.  A failure ends the probe
/// at once with that failure — the remaining queries are never issued —
/// and only after all four constituents resolve does the probe complete
/// the combined record, so no partial aggregate can escape.
pub fn host_probe_step(p: HostProbe, reply: HostReply) -> (r: Result<HostStep, Error>)
    requires
        reply_matches(p, reply),
    ensures
        r == spec_host_step(p, reply),
{
    match (p, reply) {
        (HostProbe::Start, HostReply::Uname(ans)) => match ans {
            Ok(u) => Ok(
                HostStep::Next(
                    HostProbe::HaveUname { os_version: u.os_version, hostname: u.hostname },
                ),
            ),
            Err(e) => Err(e),
        },
        (HostProbe::HaveUname { os_version, hostname }, HostReply::LoadAvg(ans)) => match ans {
            Ok(l) => Ok(HostStep::Next(HostProbe::HaveLoad { os_version, hostname, loadavg: l })),
            Err(e) => Err(e),
        },
        (HostProbe::HaveLoad { os_version, hostname, loadavg }, HostReply::Memory(ans)) => match ans {
            Ok(m) => Ok(
                HostStep::Next(
                    HostProbe::HaveMemory { os_version, hostname, loadavg, memory: m },
                ),
            ),
            Err(e) => Err(e),
        },
        (
            HostProbe::HaveMemory { os_version, hostname, loadavg, memory },
            HostReply::Uptime(ans),
        ) => match ans {
            Ok(t) => Ok(
                HostStep::Done(HostInfo { loadavg, memory, os_version, hostname, uptime: t }),
            ),
            Err(e) => Err(e),
        },
        _ => Err(Error::InvalidInput),
    }
}

/// The failure of any constituent query is returned directly: whatever
/// the probe had already gathered, a failed reply ends the probe with
/// exactly that failure, and — since a probe that has ended issues
/// nothing — none of the later queries is ever performed.
pub proof fn lemma_host_failure_short_circuits(p: HostProbe, reply: HostReply, e: Error)
    requires
        reply_matches(p, reply),
        match reply {
            HostReply::Uname(a) => a == Err::<UnameInfo, Error>(e),
            HostReply::LoadAvg(a) => a == Err::<LoadAvg, Error>(e),
            HostReply::Memory(a) => a == Err::<Memory, Error>(e),
            HostReply::Uptime(a) => a == Err::<u64, Error>(e),
        },
    ensures
        spec_host_step(p, reply) == Err::<HostStep, Error>(e),
{
}

/// The probe issues the constituent queries in a fixed order — identity,
/// load average, memory, uptime — each exactly once: every successful
/// step moves strictly forward in that order.
pub proof fn lemma_host_query_order(p: HostProbe, reply: HostReply, s: HostStep)
    requires
        reply_matches(p, reply),
        spec_host_step(p, reply) == Ok::<HostStep, Error>(s),
    ensures
        s matches HostStep::Next(p2) ==> match spec_host_query(p) {
            HostQuery::Uname => spec_host_query(p2) == HostQuery::LoadAvg,
            HostQuery::LoadAvg => spec_host_query(p2) == HostQuery::Memory,
            HostQuery::Memory => spec_host_query(p2) == HostQuery::Uptime,
            HostQuery::Uptime => false,
        },
        spec_host_query(p) == HostQuery::Uptime ==> s is Done,
{
}

} // verus!
