use borui::error::AppError;
use borui::models::client::{default_local_host, default_webhook_format};
use borui::models::server::{
    default_bind_addr, default_bind_tunnels, default_port_end, default_port_start,
};
use borui::net::{is_private_ip, parse_ip, parse_ipv4, parse_ipv6, IpAddress};
use borui::text::{i64_to_string, lowercase, str_contains, str_ends_with, str_eq, u64_to_string};

#[test]
fn ipv4_parser_accepts_dotted_quads() {
    assert_eq!(parse_ipv4("10.0.0.5"), Some((10, 0, 0, 5)));
    assert_eq!(parse_ipv4("0.0.0.0"), Some((0, 0, 0, 0)));
    assert_eq!(parse_ipv4("255.255.255.255"), Some((255, 255, 255, 255)));
    assert_eq!(parse_ipv4("192.168.1.1"), Some((192, 168, 1, 1)));
}

#[test]
fn ipv4_parser_rejects_malformed_text() {
    assert_eq!(parse_ipv4("256.1.1.1"), None);
    assert_eq!(parse_ipv4("01.2.3.4"), None);
    assert_eq!(parse_ipv4("1.2.3"), None);
    assert_eq!(parse_ipv4("1.2.3.4.5"), None);
    assert_eq!(parse_ipv4("1.2.3."), None);
    assert_eq!(parse_ipv4(".1.2.3"), None);
    assert_eq!(parse_ipv4("a.b.c.d"), None);
    assert_eq!(parse_ipv4("1.2.3.4 "), None);
    assert_eq!(parse_ipv4(""), None);
    assert_eq!(parse_ipv4("localhost"), None);
}

#[test]
fn ipv6_parser_accepts_standard_forms() {
    assert_eq!(parse_ipv6("::"), Some(vec![0, 0, 0, 0, 0, 0, 0, 0]));
    assert_eq!(parse_ipv6("::1"), Some(vec![0, 0, 0, 0, 0, 0, 0, 1]));
    assert_eq!(parse_ipv6("1::"), Some(vec![1, 0, 0, 0, 0, 0, 0, 0]));
    assert_eq!(
        parse_ipv6("2001:db8::ff00:42:8329"),
        Some(vec![0x2001, 0xdb8, 0, 0, 0, 0xff00, 0x42, 0x8329])
    );
    assert_eq!(
        parse_ipv6("1:2:3:4:5:6:7:8"),
        Some(vec![1, 2, 3, 4, 5, 6, 7, 8])
    );
    assert_eq!(
        parse_ipv6("1:2:3:4:5:6:7::"),
        Some(vec![1, 2, 3, 4, 5, 6, 7, 0])
    );
    assert_eq!(
        parse_ipv6("::ffff:192.0.2.1"),
        Some(vec![0, 0, 0, 0, 0, 0xffff, 0xc000, 0x0201])
    );
    assert_eq!(
        parse_ipv6("1:2:3:4:5:6:1.2.3.4"),
        Some(vec![1, 2, 3, 4, 5, 6, 0x0102, 0x0304])
    );
    assert_eq!(parse_ipv6("ABCD::ef01"), Some(vec![0xabcd, 0, 0, 0, 0, 0, 0, 0xef01]));
}

#[test]
fn ipv6_parser_rejects_malformed_text() {
    assert_eq!(parse_ipv6(""), None);
    assert_eq!(parse_ipv6(":"), None);
    assert_eq!(parse_ipv6(":::"), None);
    assert_eq!(parse_ipv6("1::2::3"), None);
    assert_eq!(parse_ipv6("1:2:3:4:5:6:7"), None);
    assert_eq!(parse_ipv6("1:2:3:4:5:6:7:8:9"), None);
    assert_eq!(parse_ipv6("1:2:3:4:5:6:7:8::"), None);
    assert_eq!(parse_ipv6("12345::"), None);
    assert_eq!(parse_ipv6("g::1"), None);
    assert_eq!(parse_ipv6("1:::2"), None);
    assert_eq!(parse_ipv6(":1:2:3:4:5:6:7"), None);
    assert_eq!(parse_ipv6("1:2:3:4:5:6:7:"), None);
    assert_eq!(parse_ipv6("fe80::1%eth0"), None);
    assert_eq!(parse_ipv6("1.2.3.4"), None);
    assert_eq!(parse_ipv6("[::1]"), None);
}

#[test]
fn parse_ip_covers_both_versions() {
    assert_eq!(parse_ip("8.8.8.8"), Some(IpAddress::V4(8, 8, 8, 8)));
    assert_eq!(parse_ip("::1"), Some(IpAddress::V6(0, 0, 0, 0, 0, 0, 0, 1)));
    assert_eq!(parse_ip("example.com"), None);
}

#[test]
fn ipv4_parsing_inverts_rendering() {
    for addr in [(0u8, 0u8, 0u8, 0u8), (10, 0, 0, 5), (172, 31, 255, 0), (255, 255, 255, 255)] {
        let (a, b, c, d) = addr;
        let mut text = u64_to_string(a as u64);
        for octet in [b, c, d] {
            text.push('.');
            text.push_str(&u64_to_string(octet as u64));
        }
        assert_eq!(parse_ipv4(&text), Some(addr));
    }
}

#[test]
fn private_address_classification() {
    assert!(is_private_ip(&IpAddress::V4(10, 1, 2, 3)));
    assert!(is_private_ip(&IpAddress::V4(172, 16, 0, 1)));
    assert!(is_private_ip(&IpAddress::V4(172, 31, 255, 255)));
    assert!(!is_private_ip(&IpAddress::V4(172, 32, 0, 1)));
    assert!(is_private_ip(&IpAddress::V4(192, 168, 0, 1)));
    assert!(is_private_ip(&IpAddress::V4(127, 0, 0, 1)));
    assert!(is_private_ip(&IpAddress::V4(169, 254, 10, 10)));
    assert!(is_private_ip(&IpAddress::V4(255, 255, 255, 255)));
    assert!(is_private_ip(&IpAddress::V4(192, 0, 2, 44)));
    assert!(is_private_ip(&IpAddress::V4(198, 51, 100, 1)));
    assert!(is_private_ip(&IpAddress::V4(203, 0, 113, 7)));
    assert!(is_private_ip(&IpAddress::V4(0, 0, 0, 0)));
    assert!(!is_private_ip(&IpAddress::V4(93, 184, 216, 34)));
    assert!(is_private_ip(&IpAddress::V6(0, 0, 0, 0, 0, 0, 0, 1)));
    assert!(is_private_ip(&IpAddress::V6(0, 0, 0, 0, 0, 0, 0, 0)));
    assert!(!is_private_ip(&IpAddress::V6(0x2001, 0xdb8, 0, 0, 0, 0, 0, 1)));
    assert_eq!(parse_ip("8.8.8.8"), Some(IpAddress::V4(8, 8, 8, 8)));
}

#[test]
fn decimal_rendering() {
    assert_eq!(u64_to_string(0), "0");
    assert_eq!(u64_to_string(45000), "45000");
    assert_eq!(u64_to_string(u64::MAX), "18446744073709551615");
    assert_eq!(i64_to_string(0), "0");
    assert_eq!(i64_to_string(-1), "-1");
    assert_eq!(i64_to_string(1024), "1024");
    assert_eq!(i64_to_string(i64::MIN), "-9223372036854775808");
    assert_eq!(i64_to_string(i64::MAX), "9223372036854775807");
}

#[test]
fn string_helpers() {
    assert!(str_eq("tunnel", "tunnel"));
    assert!(!str_eq("tunnel", "tunnels"));
    assert!(str_ends_with("printer.local", ".local"));
    assert!(!str_ends_with("local", ".local"));
    assert!(str_contains("{\"type\":\"ping\"}", "\"ping\""));
    assert!(!str_contains("ping", "\"ping\""));
    assert!(str_contains("anything", ""));
    assert_eq!(lowercase("LocalHost"), "localhost");
    assert_eq!(lowercase("ÄB"), "äb");
}

#[test]
fn error_codes_and_messages() {
    let e = AppError::NotFound("Client 1 not running".to_string());
    assert_eq!(e.status_code(), 404);
    assert_eq!(e.public_message(), "Client 1 not running");
    assert_eq!(e.display_string(), "Not found: Client 1 not running");

    let e = AppError::Database("locked".to_string());
    assert_eq!(e.status_code(), 500);
    assert_eq!(e.public_message(), "Database error");
    assert_eq!(e.display_string(), "Database error: locked");

    let e = AppError::BadRequest("Invalid bind_addr: invalid IP address syntax".to_string());
    assert_eq!(e.status_code(), 400);
    assert_eq!(
        e.display_string(),
        "Bad request: Invalid bind_addr: invalid IP address syntax"
    );

    assert_eq!(AppError::Unauthorized.status_code(), 401);
    assert_eq!(AppError::Unauthorized.public_message(), "Unauthorized");
    assert_eq!(AppError::Jwt("expired".to_string()).status_code(), 401);
    assert_eq!(AppError::Jwt("expired".to_string()).public_message(), "Invalid token");
    assert_eq!(AppError::PasswordHash.status_code(), 500);
    assert_eq!(
        AppError::Tunnel("x".to_string()).public_message(),
        "Tunnel operation failed"
    );
    assert_eq!(AppError::Config("no secret".to_string()).status_code(), 500);
    assert_eq!(AppError::Io("gone".to_string()).public_message(), "IO error");
    assert_eq!(
        AppError::Internal("boom".to_string()).public_message(),
        "boom"
    );
}

#[test]
fn configuration_defaults() {
    assert_eq!(default_local_host(), "localhost");
    assert_eq!(default_webhook_format(), "json");
    assert_eq!(default_bind_addr(), "0.0.0.0");
    assert_eq!(default_bind_tunnels(), "0.0.0.0");
    assert_eq!(default_port_start(), 1024);
    assert_eq!(default_port_end(), 65535);
}
