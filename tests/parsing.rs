use rtun::forward::{forwards_for_ports, get_config_from_str, port_to_string, ssh_args, ParseError, TunnelSpec};

#[test]
fn parses_host_and_ports() {
    let spec = get_config_from_str("myhost 2222:22").unwrap();
    assert_eq!(spec.host, "myhost");
    assert_eq!(spec.local_port, 2222);
    assert_eq!(spec.remote_port, 22);
}

#[test]
fn missing_space_is_refused() {
    assert_eq!(get_config_from_str("badformat").err(), Some(ParseError::BadSpacing));
    assert_eq!(get_config_from_str("").err(), Some(ParseError::BadSpacing));
}

#[test]
fn two_spaces_are_refused() {
    assert_eq!(get_config_from_str("a b 1:2").err(), Some(ParseError::BadSpacing));
}

#[test]
fn missing_colon_is_refused() {
    assert_eq!(get_config_from_str("host 1234").err(), Some(ParseError::BadPortPair));
}

#[test]
fn two_colons_are_refused() {
    assert_eq!(get_config_from_str("host 1:2:3").err(), Some(ParseError::BadPortPair));
}

#[test]
fn non_numeric_local_port_is_refused() {
    assert_eq!(get_config_from_str("host ab:22").err(), Some(ParseError::BadLocalPort));
    assert_eq!(get_config_from_str("host :22").err(), Some(ParseError::BadLocalPort));
}

#[test]
fn non_numeric_remote_port_is_refused() {
    assert_eq!(get_config_from_str("host 22:x1").err(), Some(ParseError::BadRemotePort));
}

#[test]
fn port_above_sixteen_bits_is_refused() {
    assert_eq!(get_config_from_str("host 65536:1").err(), Some(ParseError::BadLocalPort));
    assert_eq!(get_config_from_str("host 1:70000").err(), Some(ParseError::BadRemotePort));
    let spec = get_config_from_str("host 65535:0").unwrap();
    assert_eq!((spec.local_port, spec.remote_port), (65535, 0));
}

#[test]
fn leading_plus_is_accepted_as_for_std_numbers() {
    let spec = get_config_from_str("h +80:+443").unwrap();
    assert_eq!((spec.local_port, spec.remote_port), (80, 443));
    assert_eq!(get_config_from_str("h +:1").err(), Some(ParseError::BadLocalPort));
}

#[test]
fn written_spec_reads_back() {
    for (h, p, r) in [("example.com", 8080u16, 9090u16), ("a", 0, 65535), ("x:y", 7, 1)] {
        let text = format!("{} {}:{}", h, port_to_string(p), port_to_string(r));
        let spec = get_config_from_str(&text).unwrap();
        assert_eq!(spec.host, h);
        assert_eq!((spec.local_port, spec.remote_port), (p, r));
    }
}

#[test]
fn ports_are_written_in_decimal() {
    assert_eq!(port_to_string(0), "0");
    assert_eq!(port_to_string(7), "7");
    assert_eq!(port_to_string(1234), "1234");
    assert_eq!(port_to_string(65535), "65535");
}

#[test]
fn ssh_arguments_hold_the_forward() {
    let spec = TunnelSpec { host: "example.com".to_string(), local_port: 8080, remote_port: 80 };
    assert_eq!(ssh_args(&spec), vec!["-N", "-T", "-L", "8080:127.0.0.1:80", "example.com"]);
}

#[test]
fn one_forward_per_requested_port() {
    let specs = forwards_for_ports(&vec![8080, 9090], "example.com");
    assert_eq!(specs.len(), 2);
    assert_eq!(specs[0].host, "example.com");
    assert_eq!((specs[0].local_port, specs[0].remote_port), (8080, 8080));
    assert_eq!(specs[1].host, "example.com");
    assert_eq!((specs[1].local_port, specs[1].remote_port), (9090, 9090));
    assert!(forwards_for_ports(&vec![], "h").is_empty());
}
