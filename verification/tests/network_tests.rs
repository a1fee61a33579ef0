use sys_metrics::error::Error;
use sys_metrics::network::get_io_counters;

const TABLE: &[u8] = b"Inter-|   Receive                                                |  Transmit\n face |bytes    packets errs drop fifo frame compressed multicast|bytes    packets errs drop fifo colls carrier compressed\n    lo:    1000      10    0    0    0     0          0         0     2000      20    0    0    0     0       0          0\n  eth0: 5000000    4000    1    2    0     0          0         0  6000000    4500    3    4    0     0       0          0\n";

#[test]
fn interface_table_parses_every_interface_line() {
    let got = get_io_counters(TABLE).unwrap();
    assert_eq!(got.len(), 2);
    assert_eq!(got[0].interface, "lo");
    assert_eq!(got[0].rx_bytes, 1000);
    assert_eq!(got[0].rx_packets, 10);
    assert_eq!(got[0].rx_errs, 0);
    assert_eq!(got[0].rx_drop, 0);
    assert_eq!(got[0].tx_bytes, 2000);
    assert_eq!(got[0].tx_packets, 20);
    assert_eq!(got[1].interface, "eth0");
    assert_eq!(got[1].rx_bytes, 5000000);
    assert_eq!(got[1].rx_errs, 1);
    assert_eq!(got[1].rx_drop, 2);
    assert_eq!(got[1].tx_bytes, 6000000);
    assert_eq!(got[1].tx_packets, 4500);
    assert_eq!(got[1].tx_errs, 3);
    assert_eq!(got[1].tx_drop, 4);
}

#[test]
fn empty_table_has_no_interfaces() {
    assert_eq!(get_io_counters(b"").unwrap().len(), 0);
    assert_eq!(get_io_counters(b"header only\nno colon here\n").unwrap().len(), 0);
}

#[test]
fn malformed_interface_line_is_a_parse_error() {
    let text = b"  eth0: abc 1 2 3 4 5 6 7 8 9 10 11\n";
    assert_eq!(get_io_counters(text), Err(Error::ParseError));
    let short = b"  eth0: 1 2 3\n";
    assert_eq!(get_io_counters(short), Err(Error::ParseError));
}
