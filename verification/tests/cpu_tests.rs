use sys_metrics::cpu::cpu_stats_monotonic;
use sys_metrics::cpu::cpuset_count;
use sys_metrics::cpu::cpustats_from_buffer;
use sys_metrics::cpu::freq_from_sysctl;
use sys_metrics::cpu::get_cpu_logical_count;
use sys_metrics::cpu::get_cpufreq;
use sys_metrics::cpu::get_cpustats;
use sys_metrics::cpu::get_loadavg;
use sys_metrics::cpu::get_physical_count;
use sys_metrics::cpu::logical_count_two_queries;
use sys_metrics::error::Error;
use sys_metrics::models::CpuStats;
use sys_metrics::models::Frequency;
use sys_metrics::models::LoadAvg;

#[test]
fn cpufreq_labeled_line_parses() {
    let text = b"processor : 0\ncpu MHz : 2400.123\nmodel name : something\n";
    assert_eq!(get_cpufreq(text), Ok(Frequency { milli_mhz: 2400123 }));
}

#[test]
fn cpufreq_tab_separated_line_parses() {
    let text = b"cpu MHz\t\t: 1800.000\n";
    assert_eq!(get_cpufreq(text), Ok(Frequency { milli_mhz: 1800000 }));
}

#[test]
fn cpufreq_missing_label_is_not_found() {
    let text = b"processor : 0\nmodel name : something\n";
    assert_eq!(get_cpufreq(text), Err(Error::NotFound));
}

#[test]
fn cpufreq_keeps_scanning_past_bad_value() {
    let text = b"cpu MHz : notanumber\ncpu MHz : 1800.500\n";
    assert_eq!(get_cpufreq(text), Ok(Frequency { milli_mhz: 1800500 }));
}

#[test]
fn cpufreq_all_bad_values_is_not_found() {
    let text = b"cpu MHz : notanumber\ncpu MHz : also.bad.here\n";
    assert_eq!(get_cpufreq(text), Err(Error::NotFound));
}

#[test]
fn cpufreq_integer_and_short_fractions() {
    assert_eq!(get_cpufreq(b"cpu MHz : 2400\n"), Ok(Frequency { milli_mhz: 2400000 }));
    assert_eq!(get_cpufreq(b"cpu MHz : 2400.5\n"), Ok(Frequency { milli_mhz: 2400500 }));
    assert_eq!(get_cpufreq(b"cpu MHz : 2400.12\n"), Ok(Frequency { milli_mhz: 2400120 }));
    assert_eq!(get_cpufreq(b"cpu MHz : 2400.1234\n"), Ok(Frequency { milli_mhz: 2400123 }));
}

#[test]
fn cpustats_full_line_parses() {
    let got = get_cpustats(b"cpu  100 20 300 5000 10 0 5 0 0 0").unwrap();
    let want = CpuStats {
        user: 100,
        nice: 20,
        system: 300,
        idle: 5000,
        iowait: 10,
        irq: 0,
        softirq: 5,
        steal: 0,
        guest: 0,
        guest_nice: 0,
    };
    assert_eq!(got, want);
}

#[test]
fn cpustats_short_line_zero_fills() {
    let got = get_cpustats(b"cpu 1 2 3").unwrap();
    assert_eq!(got.user, 1);
    assert_eq!(got.nice, 2);
    assert_eq!(got.system, 3);
    assert_eq!(got.idle, 0);
    assert_eq!(got.guest_nice, 0);
}

#[test]
fn cpustats_bad_field_is_parse_error() {
    assert_eq!(get_cpustats(b"cpu 1 x 3"), Err(Error::ParseError));
    assert_eq!(get_cpustats(b"nop 1 2 3"), Err(Error::ParseError));
    assert_eq!(get_cpustats(b""), Err(Error::ParseError));
}

#[test]
fn cpustats_monotonic_compares_every_counter() {
    let a = get_cpustats(b"cpu 1 2 3 4 5 6 7 8 9 10").unwrap();
    let b = get_cpustats(b"cpu 2 2 3 4 5 6 7 8 9 11").unwrap();
    assert!(cpu_stats_monotonic(&a, &b));
    assert!(cpu_stats_monotonic(&a, &a));
    assert!(!cpu_stats_monotonic(&b, &a));
}

#[test]
fn loadavg_success_and_failure() {
    let ok = get_loadavg(0, 1250, 800, 400, 0);
    assert_eq!(ok, Ok(LoadAvg { one: 1250, five: 800, fifteen: 400 }));
    assert_eq!(get_loadavg(-1, 0, 0, 0, 11), Err(Error::OsError(11)));
}

#[test]
fn logical_count_prefers_primary_path() {
    assert_eq!(get_cpu_logical_count(8, Ok(4)), Ok(8));
    assert_eq!(get_cpu_logical_count(0, Err(1)), Ok(0));
}

#[test]
fn logical_count_falls_back_to_affinity_mask() {
    assert_eq!(get_cpu_logical_count(-1, Ok(4)), Ok(4));
    assert_eq!(get_cpu_logical_count(-1, Err(3)), Err(Error::OsError(3)));
}

#[test]
fn cpuset_count_counts_set_bits() {
    assert_eq!(cpuset_count(&[]), 0);
    assert_eq!(cpuset_count(&[0b1011]), 3);
    assert_eq!(cpuset_count(&[0b1011, 1, 0]), 4);
    assert_eq!(cpuset_count(&[u64::MAX]), 64);
}

#[test]
fn logical_count_two_queries_falls_through() {
    assert_eq!(logical_count_two_queries(Ok(12), Err(1)), Ok(12));
    assert_eq!(logical_count_two_queries(Err(1), Ok(6)), Ok(6));
    assert_eq!(logical_count_two_queries(Err(1), Err(9)), Err(Error::OsError(9)));
}

#[test]
fn physical_count_surfaces_os_error() {
    assert_eq!(get_physical_count(0, 4, 0), Ok(4));
    assert_eq!(get_physical_count(-1, 0, 22), Err(Error::OsError(22)));
}

#[test]
fn logical_at_least_physical_on_coherent_answers() {
    // The kernel's two answers on a live system: logical covers physical.
    let phys = get_physical_count(0, 4, 0).unwrap();
    let logical = get_cpu_logical_count(8, Ok(0)).unwrap();
    assert!(logical >= 1);
    assert!(logical >= phys as i64);
}

#[test]
fn cpustats_buffer_decodes_fixed_offsets() {
    let got = cpustats_from_buffer(&[11, 22, 33, 44]).unwrap();
    assert_eq!(got.user, 11);
    assert_eq!(got.system, 22);
    assert_eq!(got.idle, 33);
    assert_eq!(got.nice, 44);
    assert_eq!(got.iowait, 0);
    assert_eq!(cpustats_from_buffer(&[1, 2, 3]), Err(Error::ParseError));
}

#[test]
fn freq_sysctl_scales_to_thousandths() {
    assert_eq!(freq_from_sysctl(0, 2400, 0), Ok(Frequency { milli_mhz: 2400000 }));
    assert_eq!(freq_from_sysctl(-1, 0, 4), Err(Error::OsError(4)));
}

#[test]
fn cpustats_from_text_takes_the_first_line() {
    let text = b"cpu  1 2 3 4 5 6 7 8 9 10\ncpu0 9 9 9 9 9 9 9 9 9 9\n";
    let got = sys_metrics::cpu::cpustats_from_text(text).unwrap();
    assert_eq!(got.user, 1);
    assert_eq!(got.guest_nice, 10);
    assert_eq!(sys_metrics::cpu::cpustats_from_text(b""), Err(Error::ParseError));
}
