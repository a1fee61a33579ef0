use sys_metrics::diskstats::get_ioblocks;
use sys_metrics::diskstats::get_iostats;
use sys_metrics::error::Error;

const TABLE: &[u8] =
    b"   8       0 sda 1000 50 20480 300 500 25 4096 150 0 450 600\n   8       1 sda1 10 0 80 3 5 0 16 1 0 4 6\n";

#[test]
fn diskstats_parses_fixed_columns() {
    let blocks = get_ioblocks(TABLE).unwrap();
    assert_eq!(blocks.len(), 2);
    assert_eq!(blocks[0].device_name, "sda");
    assert_eq!(blocks[0].read_count, 1000);
    assert_eq!(blocks[0].read_bytes, 20480 * 512);
    assert_eq!(blocks[0].write_count, 500);
    assert_eq!(blocks[0].write_bytes, 4096 * 512);
    assert_eq!(blocks[0].busy_time, 450);
    assert_eq!(blocks[1].device_name, "sda1");
    assert_eq!(blocks[1].read_bytes, 80 * 512);
    assert_eq!(blocks[1].busy_time, 4);
}

#[test]
fn diskstats_empty_input_is_empty() {
    assert_eq!(get_ioblocks(b"").unwrap().len(), 0);
    assert_eq!(get_ioblocks(b"\n\n").unwrap().len(), 0);
}

#[test]
fn diskstats_malformed_line_is_a_parse_error() {
    assert_eq!(get_ioblocks(b"8 0 sda 1 2 3\n"), Err(Error::ParseError));
    assert_eq!(
        get_ioblocks(b"8 0 sda x 50 20480 300 500 25 4096 150 0 450 600\n"),
        Err(Error::ParseError)
    );
}

#[test]
fn iostats_narrows_to_byte_counters() {
    let blocks = get_ioblocks(TABLE).unwrap();
    let stats = get_iostats(&blocks).unwrap();
    assert_eq!(stats.len(), 2);
    assert_eq!(stats[0].device_name, "sda");
    assert_eq!(stats[0].bytes_read, 20480 * 512);
    assert_eq!(stats[0].bytes_wrtn, 4096 * 512);
}
