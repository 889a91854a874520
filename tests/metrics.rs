use omni_agent::metrics::{parse_bytes, MetricsError};

#[test]
fn test_parse_bytes() {
    assert_eq!(parse_bytes("1.5KiB").unwrap(), 1536);
    assert_eq!(parse_bytes("2.5MiB").unwrap(), 2621440);
    assert_eq!(parse_bytes("1GiB").unwrap(), 1073741824);
    assert!(parse_bytes("invalid").is_err());
}

fn message(r: Result<u64, MetricsError>) -> String {
    match r {
        Err(MetricsError::Parse(m)) => m,
        other => panic!("expected a parse error, got {:?}", other),
    }
}

#[test]
fn parse_bytes_units_and_spacing() {
    assert_eq!(parse_bytes("").unwrap(), 0);
    assert_eq!(parse_bytes("   ").unwrap(), 0);
    assert_eq!(parse_bytes("512B").unwrap(), 512);
    assert_eq!(parse_bytes(" 10kb ").unwrap(), 10240);
    assert_eq!(parse_bytes("1.5 MB").unwrap(), 1572864);
    assert_eq!(parse_bytes("0.5GB").unwrap(), 536870912);
    assert_eq!(parse_bytes(".5KiB").unwrap(), 512);
    assert_eq!(parse_bytes("3.KiB").unwrap(), 3072);
    assert_eq!(parse_bytes("+2B").unwrap(), 2);
    assert_eq!(parse_bytes("-2KiB").unwrap(), 0);
}

#[test]
fn parse_bytes_rounds_down() {
    assert_eq!(parse_bytes("0.1KiB").unwrap(), 102);
    assert_eq!(parse_bytes("0.999B").unwrap(), 0);
    assert_eq!(parse_bytes("1.0009765625KiB").unwrap(), 1025);
}

#[test]
fn parse_bytes_caps_at_largest() {
    assert_eq!(parse_bytes("18446744073709551615B").unwrap(), u64::MAX);
    assert_eq!(parse_bytes("99999999999999999999999GiB").unwrap(), u64::MAX);
}

#[test]
fn parse_bytes_errors() {
    assert_eq!(message(parse_bytes("42")), "Invalid byte format");
    assert_eq!(message(parse_bytes("KiB")), "invalid float literal");
    assert_eq!(message(parse_bytes("1.2.3KiB")), "invalid float literal");
    assert_eq!(message(parse_bytes("5TB")), "Unknown unit");
    assert_eq!(message(parse_bytes("5 K B")), "Unknown unit");
}

use omni_agent::metrics::parse_stats_line;

#[test]
fn stats_line_fields() {
    let line = parse_stats_line("abc123\tweb\t12.5%\t1.5MiB / 2GiB\t1kB / 2kB\n").unwrap();
    assert_eq!(line.container_id, "abc123");
    assert_eq!(line.name, "web");
    assert_eq!(line.cpu_percent, "12.5");
    assert_eq!(line.memory_usage, 1572864);
    assert_eq!(line.memory_limit, 2147483648);
    assert_eq!(line.network_rx_bytes, 1024);
    assert_eq!(line.network_tx_bytes, 2048);
}

#[test]
fn stats_line_errors() {
    assert!(matches!(parse_stats_line("a\tb\tc"), Err(MetricsError::Parse(m)) if m == "Invalid stats format"));
    assert!(matches!(parse_stats_line("a\tb\t1%\t5MiB\t1kB / 2kB"), Err(MetricsError::Parse(m)) if m == "Invalid stats format"));
    assert!(matches!(parse_stats_line("a\tb\t1%\t5XB / 1B\t1kB / 2kB"), Err(MetricsError::Parse(m)) if m == "Unknown unit"));
    assert!(matches!(parse_stats_line("a\tb\t1%\t5B / 1B\t1kB / x"), Err(MetricsError::Parse(m)) if m == "invalid float literal"));
}
