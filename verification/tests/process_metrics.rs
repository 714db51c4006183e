use chelotype::process_metrics::parse_resident_set_kib;

#[test]
fn parses_linux_status_rss() {
    assert_eq!(
        parse_resident_set_kib("Name:\tchelotype\nVmRSS:\t  123456 kB\n"),
        Some(123456)
    );
}

#[test]
fn skips_unreadable_rss_lines() {
    assert_eq!(parse_resident_set_kib("VmRSS: x kB\nVmRSS: 7 kB"), Some(7));
    assert_eq!(parse_resident_set_kib("Name: a\n"), None);
}
