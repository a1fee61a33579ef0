use sys_metrics::error::Error;
use sys_metrics::host::cstr_field;
use sys_metrics::host::decode_utmp;
use sys_metrics::host::get_uptime;
use sys_metrics::host::get_users;
use sys_metrics::host::host_probe_query;
use sys_metrics::host::host_probe_step;
use sys_metrics::host::HostProbe;
use sys_metrics::host::HostQuery;
use sys_metrics::host::HostReply;
use sys_metrics::host::HostStep;
use sys_metrics::host::uptime_from_boot_time;
use sys_metrics::host::UnameInfo;
use sys_metrics::host::UTMP_SIZE;
use sys_metrics::models::LoadAvg;
use sys_metrics::models::Memory;

fn record(ut_type: i16, user: &[u8]) -> Vec<u8> {
    let mut r = vec![0u8; UTMP_SIZE];
    let t = ut_type as u16;
    r[0] = (t & 0xff) as u8;
    r[1] = (t >> 8) as u8;
    for (i, b) in user.iter().enumerate() {
        r[44 + i] = *b;
    }
    r
}

#[test]
fn users_filters_by_type_and_nonempty_name() {
    let mut buf = Vec::new();
    buf.extend(record(7, b"alice"));
    buf.extend(record(8, b"bob"));
    buf.extend(record(7, b""));
    buf.extend(record(7, b"carol"));
    let users = get_users(&buf);
    assert_eq!(users, vec!["alice".to_string(), "carol".to_string()]);
}

#[test]
fn users_keeps_repeated_logins() {
    let mut buf = Vec::new();
    buf.extend(record(7, b"alice"));
    buf.extend(record(7, b"alice"));
    let users = get_users(&buf);
    assert_eq!(users, vec!["alice".to_string(), "alice".to_string()]);
}

#[test]
fn users_ignores_trailing_partial_record() {
    let mut buf = Vec::new();
    buf.extend(record(7, b"alice"));
    buf.extend(vec![7u8; 100]);
    let users = get_users(&buf);
    assert_eq!(users, vec!["alice".to_string()]);
    assert_eq!(get_users(&[]), Vec::<String>::new());
}

#[test]
fn utmp_decode_reads_the_fixed_layout() {
    let mut r = record(7, b"alice");
    // pid 258 little endian at offset 4
    r[4] = 2;
    r[5] = 1;
    // tv_sec = 1000 at offset 340
    r[340] = 0xe8;
    r[341] = 0x03;
    let rec = decode_utmp(&r, 0);
    assert_eq!(rec.ut_type, 7);
    assert_eq!(rec.ut_pid, 258);
    assert_eq!(rec.ut_tv.tv_sec, 1000);
    assert_eq!(rec.ut_tv.tv_usec, 0);
    assert_eq!(&rec.ut_user[..5], b"alice");
    assert_eq!(rec.ut_line.len(), 32);
    assert_eq!(rec.ut_host.len(), 256);
    assert_eq!(rec.ut_addr_v6, vec![0, 0, 0, 0]);
}

#[test]
fn cstr_field_stops_at_nul_and_survives_bad_utf8() {
    assert_eq!(cstr_field(b"alice\0\0\0junk"), "alice");
    assert_eq!(cstr_field(b"h\xc3\xa9llo\0"), "h\u{e9}llo");
    assert_eq!(cstr_field(b"\xff\xfe\0"), "?");
    assert_eq!(cstr_field(b""), "");
}

#[test]
fn uptime_normalizes_status_and_clamps() {
    assert_eq!(get_uptime(0, 12345, 0), Ok(12345));
    assert_eq!(get_uptime(-1, 12345, 8), Err(Error::OsError(8)));
    assert_eq!(get_uptime(0, -5, 0), Ok(0));
}

struct CountingHost {
    uname: u32,
    load: u32,
    memory: u32,
    uptime: u32,
}

impl CountingHost {
    fn new() -> CountingHost {
        CountingHost { uname: 0, load: 0, memory: 0, uptime: 0 }
    }

    fn answer(&mut self, q: HostQuery, load_fails: bool) -> HostReply {
        match q {
            HostQuery::Uname => {
                self.uname += 1;
                HostReply::Uname(Ok(UnameInfo {
                    os_version: "5.10.0".to_string(),
                    hostname: "box".to_string(),
                }))
            }
            HostQuery::LoadAvg => {
                self.load += 1;
                if load_fails {
                    HostReply::LoadAvg(Err(Error::OsError(42)))
                } else {
                    HostReply::LoadAvg(Ok(LoadAvg { one: 100, five: 200, fifteen: 300 }))
                }
            }
            HostQuery::Memory => {
                self.memory += 1;
                HostReply::Memory(Ok(Memory {
                    total_virt: 100,
                    avail_virt: 50,
                    total_swap: 10,
                    avail_swap: 5,
                }))
            }
            HostQuery::Uptime => {
                self.uptime += 1;
                HostReply::Uptime(Ok(777))
            }
        }
    }
}

fn run_probe(host: &mut CountingHost, load_fails: bool) -> Result<sys_metrics::models::HostInfo, Error> {
    let mut probe = HostProbe::Start;
    loop {
        let q = host_probe_query(&probe);
        let reply = host.answer(q, load_fails);
        match host_probe_step(probe, reply)? {
            HostStep::Next(p) => probe = p,
            HostStep::Done(info) => return Ok(info),
        }
    }
}

#[test]
fn host_info_aggregates_all_constituents() {
    let mut host = CountingHost::new();
    let info = run_probe(&mut host, false).unwrap();
    assert_eq!(info.os_version, "5.10.0");
    assert_eq!(info.hostname, "box");
    assert_eq!(info.loadavg, LoadAvg { one: 100, five: 200, fifteen: 300 });
    assert_eq!(info.memory.total_virt, 100);
    assert_eq!(info.uptime, 777);
    assert_eq!((host.uname, host.load, host.memory, host.uptime), (1, 1, 1, 1));
}

#[test]
fn host_info_load_failure_short_circuits() {
    let mut host = CountingHost::new();
    let got = run_probe(&mut host, true);
    assert_eq!(got, Err(Error::OsError(42)));
    assert_eq!(host.uname, 1);
    assert_eq!(host.load, 1);
    assert_eq!(host.memory, 0);
    assert_eq!(host.uptime, 0);
}

#[test]
fn uptime_from_boot_time_subtracts_and_clamps() {
    assert_eq!(uptime_from_boot_time(0, 1_000_000, 999_000, 0), Ok(1000));
    assert_eq!(uptime_from_boot_time(0, 500, 500, 0), Ok(0));
    assert_eq!(uptime_from_boot_time(0, 400, 500, 0), Ok(0));
    assert_eq!(uptime_from_boot_time(-1, 1000, 0, 3), Err(Error::OsError(3)));
}
