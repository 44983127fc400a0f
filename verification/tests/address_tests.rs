use mc_poller::address::{is_valid_ip, ServerAddress};
use mc_poller::error::ProtocolError;

#[test]
fn dotted_quads_are_accepted() {
    for host in ["1.2.3.4", "127.0.0.1", "0.0.0.0", "255.255.255.255", "10.0.0.1"] {
        assert!(is_valid_ip(host), "{} should be accepted", host);
        assert!(ServerAddress::new(String::from(host), 25565).is_ok());
    }
}

#[test]
fn bad_quads_fall_back_to_hostname_rules() {
    // Not IPv4 literals, but still fine as hostnames.
    assert!(is_valid_ip("256.1.1.1"));
    assert!(is_valid_ip("01.2.3.4"));
    assert!(is_valid_ip("1.2.3"));
}

#[test]
fn ipv6_literals_are_accepted() {
    for host in [
        "::",
        "::1",
        "1:2:3:4:5:6:7:8",
        "2001:db8::8a2e:370:7334",
        "::ffff:192.168.0.1",
        "fe80::",
        "a:b:c:d:e:f:1.2.3.4",
    ] {
        assert!(is_valid_ip(host), "{} should be accepted", host);
    }
}

#[test]
fn bad_ipv6_literals_are_rejected() {
    for host in [
        "1:2:3:4:5:6:7:8:9",
        "1:::2",
        "1::2::3",
        "12345::",
        ":",
        "1:2:3:4:5:6:7",
        "g::1",
        "1:2:3:4:5:6:7:8::",
    ] {
        assert!(!is_valid_ip(host), "{} should be rejected", host);
    }
}

#[test]
fn ipv4_group_boundaries() {
    // 255 is the largest group value; every host here is still accepted,
    // but only the first two as IPv4 literals — the others pass as
    // hostnames, as a browser would treat them.
    assert!(mc_poller::address::is_ipv4_literal("255.0.255.0"));
    assert!(mc_poller::address::is_ipv4_literal("9.99.199.249"));
    assert!(!mc_poller::address::is_ipv4_literal("256.0.0.0"));
    assert!(!mc_poller::address::is_ipv4_literal("00.1.1.1"));
    assert!(!mc_poller::address::is_ipv4_literal("1.2.3.4.5"));
    assert!(!mc_poller::address::is_ipv4_literal("1..2.3"));
    assert!(!mc_poller::address::is_ipv4_literal("1.2.3.1000"));
}

#[test]
fn hostnames_are_accepted() {
    for host in ["example.com", "VaLiD-HoStNaMe", "50-name", "mc.example-server.net"] {
        assert!(is_valid_ip(host), "{} should be accepted", host);
    }
}

#[test]
fn invalid_non_hostnames_are_rejected() {
    for host in [
        "",
        "a b",
        "asdf@fasd",
        "-invalid-name",
        "also-invalid-",
        "empty..label",
        "under_score",
        "semi;colon",
        "sla/sh",
    ] {
        assert!(!is_valid_ip(host), "{} should be rejected", host);
        assert_eq!(
            ServerAddress::new(String::from(host), 25565).unwrap_err(),
            ProtocolError::InvalidAddress
        );
    }
}

#[test]
fn hostname_check_agrees_with_validator_crate() {
    // On strings that are not IP literals, the library's answer is the
    // hostname rule; it must agree with the crate it relies on.
    for host in [
        "example.com",
        "foo-bar.baz",
        "a..b",
        "trailing.dot.",
        ".leading",
        "ok123",
        "bad_char",
        "x y z",
    ] {
        assert_eq!(
            is_valid_ip(host),
            hostname_validator::is_valid(host),
            "{} should match the validator crate",
            host
        );
    }
}

#[test]
fn address_joins_host_and_port() {
    let a = ServerAddress::new(String::from("127.0.0.1"), 25565).unwrap();
    assert_eq!(a.address(), "127.0.0.1:25565");
    let b = ServerAddress::new(String::from("example.com"), 19132).unwrap();
    assert_eq!(b.address(), "example.com:19132");
    assert!(b.is_valid_ip());
}
