use port_scanner::outcome::ScanOutcome;
use port_scanner::outcome::ScanStatus;
use port_scanner::report::decimal_string;
use port_scanner::report::report_line;

#[test]
fn open_port_without_banner() {
    let outcome = ScanOutcome { port: 22, status: ScanStatus::OpenNoBanner };
    assert_eq!(report_line(&outcome), Some("Port 22 is open".to_string()));
}

#[test]
fn open_port_with_banner_is_trimmed() {
    let outcome = ScanOutcome {
        port: 80,
        status: ScanStatus::OpenWithBanner("  HTTP/1.1 400 Bad Request\r\n\r\n".to_string()),
    };
    assert_eq!(
        report_line(&outcome),
        Some("Port 80 is open - Banner: HTTP/1.1 400 Bad Request".to_string())
    );
}

#[test]
fn banner_of_white_space_leaves_an_empty_banner() {
    let outcome = ScanOutcome { port: 7, status: ScanStatus::OpenWithBanner("\r\n".to_string()) };
    assert_eq!(report_line(&outcome), Some("Port 7 is open - Banner: ".to_string()));
}

#[test]
fn banner_keeps_characters_beyond_ascii() {
    let outcome = ScanOutcome {
        port: 65535,
        status: ScanStatus::OpenWithBanner("\u{a0}grüß \u{fffd} dich\n".to_string()),
    };
    assert_eq!(
        report_line(&outcome),
        Some("Port 65535 is open - Banner: grüß \u{fffd} dich".to_string())
    );
}

#[test]
fn closed_port_has_no_line() {
    let outcome = ScanOutcome { port: 23, status: ScanStatus::ClosedOrFiltered };
    assert_eq!(report_line(&outcome), None);
}

#[test]
fn scan_without_open_ports_reports_nothing() {
    let lines: Vec<String> = (1u16..=1024)
        .filter_map(|port| report_line(&ScanOutcome { port, status: ScanStatus::ClosedOrFiltered }))
        .collect();
    assert!(lines.is_empty());
}

#[test]
fn decimal_string_has_no_leading_zeros() {
    assert_eq!(decimal_string(0), "0");
    assert_eq!(decimal_string(9), "9");
    assert_eq!(decimal_string(10), "10");
    assert_eq!(decimal_string(100), "100");
    assert_eq!(decimal_string(8080), "8080");
    assert_eq!(decimal_string(65535), "65535");
}

#[test]
fn decimal_string_agrees_with_the_standard_formatting() {
    for n in 0..=u16::MAX {
        assert_eq!(decimal_string(n), format!("{}", n));
    }
}
