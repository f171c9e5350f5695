use gsftp::config::{parse_destination, parse_ipv4, parse_port_or_default};

#[test]
fn destination_splits_user_and_host() {
    let parts = parse_destination("someone@example.com").expect("well-formed destination");
    assert_eq!(parts.0, "someone");
    assert_eq!(parts.1, "example.com");
}

#[test]
fn destination_splits_on_the_first_at_sign() {
    let parts = parse_destination("a@b@c").expect("first at-sign splits");
    assert_eq!(parts.0, "a");
    assert_eq!(parts.1, "b@c");
}

#[test]
fn destination_without_an_at_sign_is_rejected() {
    assert!(parse_destination("justahost").is_none());
    assert!(parse_destination("").is_none());
}

#[test]
fn ipv4_literals_parse_to_their_octets() {
    assert_eq!(parse_ipv4("10.0.0.8"), Some((10, 0, 0, 8)));
    assert_eq!(parse_ipv4("255.255.255.255"), Some((255, 255, 255, 255)));
    assert_eq!(parse_ipv4("0.0.0.0"), Some((0, 0, 0, 0)));
}

#[test]
fn hostnames_and_malformed_addresses_are_not_ipv4_literals() {
    assert!(parse_ipv4("example.com").is_none());
    assert!(parse_ipv4("256.1.1.1").is_none());
    assert!(parse_ipv4("01.2.3.4").is_none());
    assert!(parse_ipv4("1.2.3").is_none());
    assert!(parse_ipv4("1.2.3.4.5").is_none());
    assert!(parse_ipv4("1.2.3.").is_none());
    assert!(parse_ipv4("").is_none());
}

#[test]
fn ports_parse_with_a_fallback_to_twenty_two() {
    assert_eq!(parse_port_or_default("22"), 22);
    assert_eq!(parse_port_or_default("8022"), 8022);
    assert_eq!(parse_port_or_default("+80"), 80);
    assert_eq!(parse_port_or_default("0022"), 22);
    assert_eq!(parse_port_or_default("65535"), 65535);
}

#[test]
fn malformed_ports_fall_back_to_the_default() {
    assert_eq!(parse_port_or_default(""), 22);
    assert_eq!(parse_port_or_default("+"), 22);
    assert_eq!(parse_port_or_default("eighty"), 22);
    assert_eq!(parse_port_or_default("65536"), 22);
    assert_eq!(parse_port_or_default("-1"), 22);
    assert_eq!(parse_port_or_default("99999999999999999999"), 22);
}
