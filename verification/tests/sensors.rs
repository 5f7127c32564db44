use palantir::data::{CpuTime, Memory};
use palantir::sensors::{
    cpu_time, memory, CpuTimeSource, MemorySource, NetworkSource, NetworkStatParser,
};
use palantir::{Error, MultiSensorSource, SensorData, SensorSource};

fn chars(s: &str) -> Vec<char> {
    s.chars().collect()
}

const MEMINFO: &str = "MemTotal:       16316412 kB\n\
MemFree:         1234568 kB\n\
MemAvailable:    9876543 kB\n\
Buffers:          123456 kB\n\
Cached:          7654321 kB\n\
HugePages_Total:       0\n\
Hugepagesize:       2048 kB\n";

const NETDEV: &str = "Inter-|   Receive                                                |  Transmit\n \
face |bytes    packets errs drop fifo frame compressed multicast|bytes    packets errs drop fifo colls carrier compressed\n    \
lo: 1111 10 0 0 0 0 0 0 1111 10 0 0 0 0 0 0\n  \
eth0: 1000 10 0 0 0 0 0 0 2000 20 0 0 0 0 0 0\n\
wlp2s0: 30 1 0 0 0 0 0 0 40 2 0 0 0 0 0 0\n\
docker0: 5 1 0 0 0 0 0 0 6 2 0 0 0 0 0 0\n\
enp3s0: 0 0 0 0 0 0 0 0 0 0 0 0 0 0 0 0\n";

#[test]
fn memory_scenario_decodes_and_renders() {
    let m = memory("MemTotal: 1000 kB\nMemFree: 200 kB\nMemAvailable: 500 kB\n").unwrap();
    assert_eq!((m.total, m.free, m.available), (1000000, 200000, 500000));
    let mut w = String::new();
    m.write(&mut w, "h");
    let mut lines: Vec<&str> = w.lines().collect();
    lines.sort();
    assert_eq!(
        lines,
        vec![
            "memory_available{host=\"h\"} 500000",
            "memory_free{host=\"h\"} 200000",
            "memory_total{host=\"h\"} 1000000",
        ]
    );
}

#[test]
fn memory_reads_the_kernel_table() {
    let m = memory(MEMINFO).unwrap();
    assert_eq!(m.total, 16316412000);
    assert_eq!(m.free, 1234568000);
    assert_eq!(m.available, 9876543000);
}

#[test]
fn memory_in_order_stays_in_order() {
    let m = memory(MEMINFO).unwrap();
    assert!(m.total >= m.available);
    assert!(m.total >= m.free);
}

#[test]
fn memory_fails_on_figures_out_of_order() {
    assert!(matches!(memory("MemTotal: 100 kB\nMemFree: 200 kB\n"), Err(Error::InvalidIntData)));
    assert!(matches!(memory("MemTotal: 1 kB\nMemAvailable: 2 kB\n"), Err(Error::InvalidIntData)));
    assert!(matches!(memory("MemFree: 1 kB\n"), Err(Error::InvalidIntData)));
    assert!(matches!(memory("MemAvailable: 1 kB\nMemTotal: 0 kB\n"), Err(Error::InvalidIntData)));
    let mut source = MemorySource::new();
    assert!(matches!(
        source.read(&"MemTotal: 1 kB\nMemFree: 2 kB\n".to_string()),
        Err(Error::InvalidIntData)
    ));
}

#[test]
fn memory_at_the_bounds_of_the_order_decodes() {
    let m = memory("MemTotal: 5 kB\nMemFree: 5 kB\nMemAvailable: 5 kB\n").unwrap();
    assert_eq!((m.total, m.free, m.available), (5000, 5000, 5000));
    let m = memory("MemFree: 5 kB\nMemTotal: 5 kB\n").unwrap();
    assert_eq!((m.total, m.free, m.available), (5000, 5000, 0));
    let m = memory("MemTotal: 1 kB\nMemFree: 2 kB\nMemTotal: 3 kB\n").unwrap();
    assert_eq!((m.total, m.free), (3000, 2000));
}

#[test]
fn memory_of_an_empty_table_is_zero() {
    let m = memory("").unwrap();
    assert_eq!((m.total, m.free, m.available), (0, 0, 0));
    let m = memory("Cached: 5 kB\n").unwrap();
    assert_eq!((m.total, m.free, m.available), (0, 0, 0));
}

#[test]
fn memory_passes_over_lines_of_another_shape() {
    let m = memory("MemTotal: 5\nMemTotal:7 kB\nmemtotal: 9 kB\nMemTotal: 11 KB\n MemTotal: 13 kB\n").unwrap();
    assert_eq!(m.total, 0);
}

#[test]
fn memory_takes_the_last_line_of_a_key() {
    let m = memory("MemTotal: 1 kB\nMemTotal: 2 kB\n").unwrap();
    assert_eq!(m.total, 2000);
}

#[test]
fn memory_without_a_final_line_feed() {
    let m = memory("MemTotal: 2 kB\r\nMemFree: 1 kB").unwrap();
    assert_eq!((m.total, m.free), (2000, 1000));
}

#[test]
fn memory_fails_on_a_value_that_is_no_number() {
    assert!(matches!(memory("MemTotal: abc kB\n"), Err(Error::InvalidIntData)));
    assert!(matches!(memory("MemFree:  kB\n"), Err(Error::InvalidIntData)));
    assert!(matches!(memory("MemAvailable: -1 kB\n"), Err(Error::InvalidIntData)));
    assert!(matches!(memory("MemTotal: 1 kB\nMemFree: 1 2 kB\n"), Err(Error::InvalidIntData)));
}

#[test]
fn memory_fails_on_bytes_beyond_64_bits() {
    assert!(matches!(memory("MemTotal: 18446744073709551615 kB\n"), Err(Error::InvalidIntData)));
    assert!(matches!(memory("MemTotal: 18446744073709552 kB\n"), Err(Error::InvalidIntData)));
    let m = memory("MemTotal: 18446744073709551 kB\n").unwrap();
    assert_eq!(m.total, 18446744073709551000);
}

#[test]
fn memory_source_decodes_what_it_is_given() {
    let mut source = MemorySource::new();
    let m: Memory = source.read(&MEMINFO.to_string()).unwrap();
    assert_eq!(m.total, 16316412000);
}

#[test]
fn cpu_time_divides_ticks_by_rate_and_cores() {
    let t = cpu_time(&chars("cpu  100 0 50 1000 0 0 0"), 100, 2).unwrap();
    assert_eq!(t.0, 750);
    let t = cpu_time(&chars("cpu 1 2 3"), 1, 1).unwrap();
    assert_eq!(t.0, 4000);
    let t = cpu_time(&chars("cpu 12345 0 55555 0"), 100, 8).unwrap();
    assert_eq!(t.0, 84875);
}

#[test]
fn cpu_time_rounds_to_the_nearest_thousandth() {
    assert_eq!(cpu_time(&chars("cpu 1 0 0 0"), 3, 1).unwrap().0, 333);
    assert_eq!(cpu_time(&chars("cpu 1 0 1 0"), 3, 1).unwrap().0, 667);
    assert_eq!(cpu_time(&chars("cpu 0 0 0 0"), 100, 4).unwrap().0, 0);
}

#[test]
fn cpu_time_fails_on_a_short_line() {
    for line in ["", "cpu", "cpu 1", "cpu 1 2", "cpu  1  2  "] {
        assert!(matches!(cpu_time(&chars(line), 100, 1), Err(Error::Io("invalid proc data"))), "{:?}", line);
    }
}

#[test]
fn cpu_time_fails_on_counts_that_are_no_numbers() {
    assert!(matches!(cpu_time(&chars("cpu x 0 1 0"), 100, 1), Err(Error::InvalidFloatData)));
    assert!(matches!(cpu_time(&chars("cpu 1 0 y 0"), 100, 1), Err(Error::InvalidFloatData)));
    assert!(matches!(cpu_time(&chars("cpu 1.5 0 1 0"), 100, 1), Err(Error::InvalidFloatData)));
    assert!(cpu_time(&chars("cpu 1 nice 1 0"), 100, 1).is_ok());
}

#[test]
fn cpu_time_fails_on_a_rate_that_is_not_positive() {
    assert!(matches!(cpu_time(&chars("cpu 1 0 1 0"), 0, 1), Err(Error::InvalidFloatData)));
    assert!(matches!(cpu_time(&chars("cpu 1 0 1 0"), 100, 0), Err(Error::InvalidFloatData)));
    assert!(matches!(cpu_time(&chars("cpu 1 0 1 0"), -100, 1), Err(Error::InvalidFloatData)));
    assert!(matches!(cpu_time(&chars("cpu 1 0 1 0"), 100, -1), Err(Error::InvalidFloatData)));
}

#[test]
fn cpu_time_fails_on_a_result_beyond_64_bits() {
    let line = chars("cpu 18446744073709551615 0 18446744073709551615 0");
    assert!(matches!(cpu_time(&line, 1, 1), Err(Error::InvalidFloatData)));
    assert_eq!(cpu_time(&line, 2000, 1).unwrap().0, 18446744073709551615);
}

#[test]
fn cpu_source_decodes_the_first_line_only() {
    let source = CpuTimeSource::with_cores(2);
    let t: CpuTime = source.decode("cpu  100 0 50 1000\ncpu0 1 1 1 1\n", 100).unwrap();
    assert_eq!(t.0, 750);
    assert!(matches!(source.decode("", 100), Err(Error::Io("invalid proc data"))));
    assert!(matches!(source.decode("\ncpu 1 1 1 1\n", 100), Err(Error::Io("invalid proc data"))));
}

#[test]
fn cpu_source_asks_the_system_for_its_limits() {
    let mut source = CpuTimeSource::new().unwrap();
    let t = source.read(&"cpu  0 0 0 0\n".to_string()).unwrap();
    assert_eq!(t.0, 0);
    assert!(matches!(source.read(&"cpu\n".to_string()), Err(Error::Io("invalid proc data"))));
}

#[test]
fn network_line_is_decoded() {
    let n = NetworkSource::parse_line(&chars("  eth0: 1000 10 0 0 0 0 0 0 2000 20 0 0 0 0 0 0")).unwrap();
    assert_eq!(n.interface, "eth0");
    assert_eq!(n.bytes_received, 1000);
    assert_eq!(n.bytes_sent, 2000);
}

#[test]
fn network_line_loses_every_trailing_colon() {
    let n = NetworkSource::parse_line(&chars("eth0::: 1 2 3 4 5 6 7 8 9")).unwrap();
    assert_eq!(n.interface, "eth0");
    let n = NetworkSource::parse_line(&chars("eth0 1 2 3 4 5 6 7 8 9")).unwrap();
    assert_eq!(n.interface, "eth0");
    let n = NetworkSource::parse_line(&chars(": 1 2 3 4 5 6 7 8 9")).unwrap();
    assert_eq!(n.interface, "");
}

#[test]
fn network_line_with_too_few_fields_is_an_error() {
    assert!(matches!(
        NetworkSource::parse_line(&chars("eth0: 1 2 3 4 5 6 7 8")),
        Err(Error::Io("error reading netdev"))
    ));
    assert!(matches!(NetworkSource::parse_line(&chars("")), Err(Error::Io("error reading netdev"))));
}

#[test]
fn network_line_with_bad_counters_is_an_error() {
    assert!(matches!(
        NetworkSource::parse_line(&chars("eth0: x 2 3 4 5 6 7 8 9")),
        Err(Error::InvalidIntData)
    ));
    assert!(matches!(
        NetworkSource::parse_line(&chars("eth0: 1 2 3 4 5 6 7 8 -9")),
        Err(Error::InvalidIntData)
    ));
    assert!(NetworkSource::parse_line(&chars("eth0: 1 x x x x x x x 9")).is_ok());
}

#[test]
fn network_table_keeps_wired_and_wireless_interfaces() {
    let mut source = NetworkSource::new();
    let rows = source.read(&NETDEV.to_string()).unwrap();
    let rows: Vec<_> = rows.into_iter().map(|r| r.unwrap()).collect();
    let seen: Vec<(String, u64, u64)> =
        rows.iter().map(|n| (n.interface.clone(), n.bytes_sent, n.bytes_received)).collect();
    assert_eq!(
        seen,
        vec![
            ("eth0".to_string(), 2000, 1000),
            ("wlp2s0".to_string(), 40, 30),
            ("enp3s0".to_string(), 0, 0),
        ]
    );
}

#[test]
fn network_table_goes_on_after_a_bad_row() {
    let text = "eth0: 1\neth1: 1 2 3 4 5 6 7 8 9\nwlan0: 1 2 3 4 5 6 7 8 9\n\u{a0}en0: 5 2 3 4 5 6 7 8 6\n";
    let c = chars(text);
    let mut parser = NetworkStatParser::new(&c);
    assert!(matches!(parser.next(), Some(Err(Error::Io("error reading netdev")))));
    let second = parser.next().unwrap().unwrap();
    assert_eq!((second.interface.as_str(), second.bytes_sent, second.bytes_received), ("eth1", 9, 1));
    let third = parser.next().unwrap().unwrap();
    assert_eq!((third.interface.as_str(), third.bytes_sent, third.bytes_received), ("en0", 6, 5));
    assert!(parser.next().is_none());
    assert!(parser.next().is_none());
}

#[test]
fn network_table_without_interfaces_is_empty() {
    let mut source = NetworkSource::new();
    assert!(source.read(&"".to_string()).unwrap().is_empty());
    assert!(source.read(&"lo: 1 2 3 4 5 6 7 8 9\n".to_string()).unwrap().is_empty());
}
