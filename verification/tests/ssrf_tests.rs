use headless_rss::ssrf::{
    parse_ipv4_literal, parse_ipv6_literal, validate_ip_address, validate_resolved_addresses, validate_url_target,
    redirect_step, IpAddress, RedirectDecision, SsrfError, UrlTarget,
};

#[test]
fn blocks_dangerous_schemes() {
    assert_eq!(
        validate_url_target("file:///etc/passwd", false),
        Err(SsrfError::SchemeNotAllowed("file".to_string()))
    );
    assert_eq!(
        validate_url_target("ftp://example.com/feed", false),
        Err(SsrfError::SchemeNotAllowed("ftp".to_string()))
    );
    assert_eq!(
        validate_url_target("not a url", false),
        Err(SsrfError::SchemeNotAllowed(String::new()))
    );
}

#[test]
fn blocks_localhost_names_unless_testing() {
    assert_eq!(
        validate_url_target("http://localhost:8000/feed", false),
        Err(SsrfError::Localhost)
    );
    assert_eq!(
        validate_url_target("http://127.0.0.1:8000/feed", false),
        Err(SsrfError::Localhost)
    );
    assert_eq!(
        validate_url_target("http://127.0.0.1:8000/feed", true),
        Ok(UrlTarget { host: "127.0.0.1".to_string(), port: 8000 })
    );
}

#[test]
fn blocks_private_and_metadata_literals() {
    assert_eq!(
        validate_url_target("http://10.1.2.3/feed", false),
        Err(SsrfError::Private(IpAddress::V4(10, 1, 2, 3)))
    );
    assert_eq!(
        validate_url_target("http://192.168.0.10/feed", true),
        Err(SsrfError::Private(IpAddress::V4(192, 168, 0, 10)))
    );
    // The metadata address is link-local, which is checked first.
    assert_eq!(
        validate_url_target("http://169.254.169.254/latest/meta-data", false),
        Err(SsrfError::LinkLocal(IpAddress::V4(169, 254, 169, 254)))
    );
}

#[test]
fn allows_public_https_url_with_default_port() {
    assert_eq!(
        validate_url_target("https://Example.com/feed.xml", false),
        Ok(UrlTarget { host: "example.com".to_string(), port: 443 })
    );
    assert_eq!(
        validate_url_target("http://example.com/feed.xml", false),
        Ok(UrlTarget { host: "example.com".to_string(), port: 80 })
    );
}

#[test]
fn classifies_addresses() {
    assert_eq!(
        validate_ip_address(IpAddress::V4(127, 0, 0, 1), false),
        Err(SsrfError::Loopback(IpAddress::V4(127, 0, 0, 1)))
    );
    assert_eq!(validate_ip_address(IpAddress::V4(127, 0, 0, 1), true), Ok(()));
    assert_eq!(
        validate_ip_address(IpAddress::V4(172, 20, 0, 1), true),
        Err(SsrfError::Private(IpAddress::V4(172, 20, 0, 1)))
    );
    assert_eq!(validate_ip_address(IpAddress::V4(172, 32, 0, 1), false), Ok(()));
    assert_eq!(
        validate_ip_address(IpAddress::V4(0, 0, 0, 0), true),
        Err(SsrfError::Unspecified(IpAddress::V4(0, 0, 0, 0)))
    );
    assert_eq!(
        validate_ip_address(IpAddress::V4(224, 0, 0, 251), true),
        Err(SsrfError::Multicast(IpAddress::V4(224, 0, 0, 251)))
    );
    let loopback6 = IpAddress::V6(0, 0, 0, 0, 0, 0, 0, 1);
    assert_eq!(validate_ip_address(loopback6, false), Err(SsrfError::Loopback(loopback6)));
    let unique_local = IpAddress::V6(0xfd00, 0, 0, 0, 0, 0, 0, 1);
    assert_eq!(validate_ip_address(unique_local, true), Err(SsrfError::Private(unique_local)));
    let link_local = IpAddress::V6(0xfe80, 0, 0, 0, 0, 0, 0, 1);
    assert_eq!(validate_ip_address(link_local, true), Err(SsrfError::LinkLocal(link_local)));
    let multicast = IpAddress::V6(0xff02, 0, 0, 0, 0, 0, 0, 1);
    assert_eq!(validate_ip_address(multicast, true), Err(SsrfError::Multicast(multicast)));
    assert_eq!(validate_ip_address(IpAddress::V4(93, 184, 216, 34), false), Ok(()));
}

#[test]
fn reports_first_refused_resolved_address() {
    let addrs = [
        IpAddress::V4(93, 184, 216, 34),
        IpAddress::V4(10, 0, 0, 1),
        IpAddress::V4(127, 0, 0, 1),
    ];
    assert_eq!(
        validate_resolved_addresses(&addrs, false),
        Err(SsrfError::Private(IpAddress::V4(10, 0, 0, 1)))
    );
    assert_eq!(validate_resolved_addresses(&addrs[..1], false), Ok(()));
    assert_eq!(validate_resolved_addresses(&[], false), Ok(()));
}

#[test]
fn reads_dotted_quads_like_std() {
    assert_eq!(parse_ipv4_literal("10.0.0.1"), Some(IpAddress::V4(10, 0, 0, 1)));
    assert_eq!(parse_ipv4_literal("255.255.255.255"), Some(IpAddress::V4(255, 255, 255, 255)));
    assert_eq!(parse_ipv4_literal("256.0.0.1"), None);
    assert_eq!(parse_ipv4_literal("01.0.0.1"), None);
    assert_eq!(parse_ipv4_literal("1.2.3"), None);
    assert_eq!(parse_ipv4_literal("1.2.3.4.5"), None);
    assert_eq!(parse_ipv4_literal("example.com"), None);
    assert_eq!(parse_ipv4_literal("1..2.3"), None);
}

#[test]
fn refusal_messages_name_the_scheme_or_address() {
    assert_eq!(
        SsrfError::SchemeNotAllowed("ftp".to_string()).message(),
        "URL scheme 'ftp' is not allowed. Only http and https are permitted."
    );
    assert_eq!(SsrfError::MissingHost.message(), "URL must have a valid hostname.");
    assert_eq!(SsrfError::Localhost.message(), "Access to localhost is not allowed.");
    assert_eq!(
        SsrfError::CloudMetadata.message(),
        "Access to cloud metadata service is not allowed."
    );
    assert_eq!(
        SsrfError::Loopback(IpAddress::V4(127, 0, 0, 1)).message(),
        "Access to loopback address 127.0.0.1 is not allowed."
    );
    assert_eq!(
        SsrfError::Private(IpAddress::V4(192, 168, 10, 254)).message(),
        "Access to private address 192.168.10.254 is not allowed."
    );
    assert_eq!(
        SsrfError::Loopback(IpAddress::V6(0, 0, 0, 0, 0, 0, 0, 1)).message(),
        "Access to loopback address ::1 is not allowed."
    );
    assert_eq!(
        SsrfError::Unspecified(IpAddress::V6(0, 0, 0, 0, 0, 0, 0, 0)).message(),
        "Access to unspecified address :: is not allowed."
    );
    assert_eq!(
        SsrfError::LinkLocal(IpAddress::V6(0xfe80, 0, 0, 0, 0, 0, 0, 1)).message(),
        "Access to link-local address fe80::1 is not allowed."
    );
    assert_eq!(
        SsrfError::Private(IpAddress::V6(0xfd12, 0x3456, 0, 0, 0, 0, 0, 0x0abc)).message(),
        "Access to private address fd12:3456::abc is not allowed."
    );
    assert_eq!(
        SsrfError::Multicast(IpAddress::V6(0xff02, 0, 0, 1, 0, 0, 0, 1)).message(),
        "Access to multicast address ff02:0:0:1::1 is not allowed."
    );
    assert_eq!(
        SsrfError::Multicast(IpAddress::V6(0xff02, 0, 0, 2, 0, 0, 3, 4)).message(),
        "Access to multicast address ff02::2:0:0:3:4 is not allowed."
    );
    assert_eq!(
        SsrfError::Multicast(IpAddress::V6(0xff02, 0, 2, 3, 4, 5, 6, 7)).message(),
        "Access to multicast address ff02:0:2:3:4:5:6:7 is not allowed."
    );
    assert_eq!(
        SsrfError::Multicast(IpAddress::V6(0xff02, 1, 2, 3, 4, 5, 0, 0)).message(),
        "Access to multicast address ff02:1:2:3:4:5:: is not allowed."
    );
}

#[test]
fn reads_bracketed_ipv6_literals() {
    assert_eq!(parse_ipv6_literal("[::1]"), Some(IpAddress::V6(0, 0, 0, 0, 0, 0, 0, 1)));
    assert_eq!(parse_ipv6_literal("[::]"), Some(IpAddress::V6(0, 0, 0, 0, 0, 0, 0, 0)));
    assert_eq!(parse_ipv6_literal("[fd00::1]"), Some(IpAddress::V6(0xfd00, 0, 0, 0, 0, 0, 0, 1)));
    assert_eq!(parse_ipv6_literal("[1::]"), Some(IpAddress::V6(1, 0, 0, 0, 0, 0, 0, 0)));
    assert_eq!(
        parse_ipv6_literal("[1:2:3:4:5:6:7:8]"),
        Some(IpAddress::V6(1, 2, 3, 4, 5, 6, 7, 8))
    );
    assert_eq!(
        parse_ipv6_literal("[2001:DB8:0:0:1::ffff]"),
        Some(IpAddress::V6(0x2001, 0xdb8, 0, 0, 1, 0, 0, 0xffff))
    );
    assert_eq!(parse_ipv6_literal("::1"), None);
    assert_eq!(parse_ipv6_literal("[1:::2]"), None);
    assert_eq!(parse_ipv6_literal("[1::2::3]"), None);
    assert_eq!(parse_ipv6_literal("[12345::]"), None);
    assert_eq!(parse_ipv6_literal("[1:2:3:4:5:6:7]"), None);
    assert_eq!(parse_ipv6_literal("[1:2:3:4:5:6:7:8:9]"), None);
    assert_eq!(parse_ipv6_literal("[1:2:3:4::5:6:7:8]"), None);
    assert_eq!(parse_ipv6_literal("[g::1]"), None);
    assert_eq!(parse_ipv6_literal("[1:]"), None);
    assert_eq!(parse_ipv6_literal("[]"), None);
}

#[test]
fn refuses_ipv6_literal_targets_by_address() {
    assert_eq!(
        validate_url_target("http://[::1]:8080/feed.xml", false),
        Err(SsrfError::Loopback(IpAddress::V6(0, 0, 0, 0, 0, 0, 0, 1)))
    );
    assert_eq!(
        validate_url_target("http://[::1]:8080/feed.xml", true),
        Ok(UrlTarget { host: "[::1]".to_string(), port: 8080 })
    );
    assert_eq!(
        validate_url_target("https://[fd00::1]/", false),
        Err(SsrfError::Private(IpAddress::V6(0xfd00, 0, 0, 0, 0, 0, 0, 1)))
    );
    assert_eq!(
        validate_url_target("https://[fe80::1]/", true),
        Err(SsrfError::LinkLocal(IpAddress::V6(0xfe80, 0, 0, 0, 0, 0, 0, 1)))
    );
    assert_eq!(
        validate_url_target("http://[2001:db8::1]/feed", false),
        Ok(UrlTarget { host: "[2001:db8::1]".to_string(), port: 80 })
    );
}

#[test]
fn redirects_are_followed_to_the_joined_location_up_to_ten_times() {
    assert_eq!(redirect_step("http://example.org/a", 0, 200, None), RedirectDecision::Deliver);
    assert_eq!(redirect_step("http://example.org/a", 0, 404, Some("/b")), RedirectDecision::Deliver);
    assert_eq!(redirect_step("http://example.org/a", 0, 302, None), RedirectDecision::Deliver);
    assert_eq!(
        redirect_step("http://example.org/dir/a", 0, 301, Some("b?x=1")),
        RedirectDecision::Follow("http://example.org/dir/b?x=1".to_string())
    );
    assert_eq!(
        redirect_step("http://example.org/a", 9, 307, Some("https://other.example/feed")),
        RedirectDecision::Follow("https://other.example/feed".to_string())
    );
    assert_eq!(
        redirect_step("http://example.org/a", 10, 302, Some("/b")),
        RedirectDecision::TooMany
    );
    assert_eq!(
        redirect_step("http://example.org/a", 0, 302, Some("http://[::1")),
        RedirectDecision::BadLocation
    );
}
