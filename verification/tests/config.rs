use udp_over_tcp::addr::{IpAddress, SocketAddress};
use udp_over_tcp::config::{
    check_modes, parse_port_spec, port_or_addr, Config, ConfigError, PortSpec,
};
use udp_over_tcp::text::{parse_ipv4, parse_port, parse_socket_v4};

fn v4(a: u8, b: u8, c: u8, d: u8, port: u16) -> SocketAddress {
    SocketAddress::new(IpAddress::V4([a, b, c, d]), port)
}

#[test]
fn a_bare_port_takes_the_default_ip() {
    assert_eq!(port_or_addr("7878", None, IpAddress::unspecified()), Ok(v4(0, 0, 0, 0, 7878)));
    assert_eq!(port_or_addr("9999", None, IpAddress::localhost()), Ok(v4(127, 0, 0, 1, 9999)));
    assert_eq!(port_or_addr("0", None, IpAddress::localhost()), Ok(v4(127, 0, 0, 1, 0)));
    assert_eq!(port_or_addr("65535", None, IpAddress::localhost()), Ok(v4(127, 0, 0, 1, 65535)));
}

#[test]
fn a_parsed_socket_address_is_taken_as_it_is() {
    let parsed = Some(v4(192, 168, 1, 100, 8888));
    assert_eq!(
        port_or_addr("192.168.1.100:8888", parsed, IpAddress::localhost()),
        Ok(v4(192, 168, 1, 100, 8888))
    );
}

#[test]
fn an_ipv4_address_with_a_port_is_read_without_help() {
    assert_eq!(
        port_or_addr("127.0.0.1:8888", None, IpAddress::unspecified()),
        Ok(v4(127, 0, 0, 1, 8888))
    );
    assert_eq!(
        port_or_addr("192.168.1.100:0080", None, IpAddress::unspecified()),
        Ok(v4(192, 168, 1, 100, 80))
    );
    assert_eq!(
        parse_port_spec("10.0.0.1:65535", None, IpAddress::localhost()),
        Ok(PortSpec::Fixed(v4(10, 0, 0, 1, 65535)))
    );
}

#[test]
fn an_ipv6_address_counts_as_the_platform_read_it() {
    let mut ip = [0u8; 16];
    ip[15] = 1;
    let loopback = SocketAddress::new(IpAddress::V6(ip), 7878);
    assert_eq!(port_or_addr("[::1]:7878", Some(loopback), IpAddress::localhost()), Ok(loopback));
    assert_eq!(
        port_or_addr("[::1]:7878", None, IpAddress::localhost()),
        Err(ConfigError::NotAddressOrPort)
    );
    assert_eq!(
        parse_port_spec("[::1]:7878", Some(loopback), IpAddress::localhost()),
        Ok(PortSpec::Fixed(loopback))
    );
}

#[test]
fn socket_v4_text_grammar() {
    assert_eq!(parse_socket_v4(b"1.2.3.4:5"), Some(([1, 2, 3, 4], 5)));
    assert_eq!(parse_socket_v4(b"0.0.0.0:0"), Some(([0, 0, 0, 0], 0)));
    assert_eq!(parse_socket_v4(b"255.255.255.255:65535"), Some(([255, 255, 255, 255], 65535)));
    assert_eq!(parse_socket_v4(b"1.2.3.4:65536"), None);
    assert_eq!(parse_socket_v4(b"1.2.3.4:"), None);
    assert_eq!(parse_socket_v4(b"1.2.3.4:+5"), None);
    assert_eq!(parse_socket_v4(b"1.2.3.4"), None);
    assert_eq!(parse_socket_v4(b":5"), None);
    assert_eq!(parse_socket_v4(b"1.2.3:5"), None);
    assert_eq!(parse_socket_v4(b"1.2.3.4:5:6"), None);
    assert_eq!(parse_socket_v4(b"1.2.3.4 :5"), None);
    assert_eq!(parse_socket_v4(b"host:5"), None);
    assert_eq!(parse_socket_v4(b""), None);
}

#[test]
fn neither_address_nor_port_is_refused() {
    for text in
        ["", "65536", "server", "12x", "-1", " 80", "80 ", "+", "1.2.3.4", "server:7878", "1.2.3.4:"]
    {
        assert_eq!(
            port_or_addr(text, None, IpAddress::localhost()),
            Err(ConfigError::NotAddressOrPort),
            "{text:?}"
        );
    }
}

#[test]
fn port_text_grammar() {
    assert_eq!(parse_port(b"80"), Some(80));
    assert_eq!(parse_port(b"+80"), Some(80));
    assert_eq!(parse_port(b"00080"), Some(80));
    assert_eq!(parse_port(b"65535"), Some(65535));
    assert_eq!(parse_port(b"65536"), None);
    assert_eq!(parse_port(b"99999999999999999999"), None);
    assert_eq!(parse_port(b""), None);
    assert_eq!(parse_port(b"+"), None);
    assert_eq!(parse_port(b"++1"), None);
    assert_eq!(parse_port(b"-0"), None);
    assert_eq!(parse_port(b"8 0"), None);
    assert_eq!(parse_port(b"0x50"), None);
}

#[test]
fn ipv4_text_grammar() {
    assert_eq!(parse_ipv4(b"127.0.0.1"), Some([127, 0, 0, 1]));
    assert_eq!(parse_ipv4(b"0.0.0.0"), Some([0, 0, 0, 0]));
    assert_eq!(parse_ipv4(b"255.255.255.255"), Some([255, 255, 255, 255]));
    assert_eq!(parse_ipv4(b"192.168.1.100"), Some([192, 168, 1, 100]));
    assert_eq!(parse_ipv4(b"256.0.0.1"), None);
    assert_eq!(parse_ipv4(b"01.2.3.4"), None);
    assert_eq!(parse_ipv4(b"1.2.3"), None);
    assert_eq!(parse_ipv4(b"1.2.3.4.5"), None);
    assert_eq!(parse_ipv4(b"1.2.3."), None);
    assert_eq!(parse_ipv4(b".1.2.3"), None);
    assert_eq!(parse_ipv4(b"1..2.3"), None);
    assert_eq!(parse_ipv4(b"1.2.3.4 "), None);
    assert_eq!(parse_ipv4(b"+1.2.3.4"), None);
    assert_eq!(parse_ipv4(b"1000.2.3.4"), None);
    assert_eq!(parse_ipv4(b"localhost"), None);
    assert_eq!(parse_ipv4(b""), None);
}

#[test]
fn auto_takes_the_default_ip() {
    assert_eq!(
        parse_port_spec("auto", None, IpAddress::unspecified()),
        Ok(PortSpec::Auto(IpAddress::V4([0, 0, 0, 0])))
    );
    assert_eq!(
        parse_port_spec("auto", None, IpAddress::localhost()),
        Ok(PortSpec::Auto(IpAddress::V4([127, 0, 0, 1])))
    );
}

#[test]
fn ip_auto_takes_the_given_ip() {
    assert_eq!(
        parse_port_spec("192.168.1.100:auto", None, IpAddress::localhost()),
        Ok(PortSpec::Auto(IpAddress::V4([192, 168, 1, 100])))
    );
    assert_eq!(
        parse_port_spec("127.0.0.1:auto", None, IpAddress::unspecified()),
        Ok(PortSpec::Auto(IpAddress::V4([127, 0, 0, 1])))
    );
}

#[test]
fn ip_auto_with_a_bad_ip_is_refused() {
    for text in [":auto", "server:auto", "1.2.3:auto", "300.1.1.1:auto", "1.2.3.4.5:auto"] {
        assert_eq!(
            parse_port_spec(text, None, IpAddress::localhost()),
            Err(ConfigError::InvalidIp),
            "{text:?}"
        );
    }
}

#[test]
fn only_the_first_colon_splits() {
    // The text after the first colon is ":1:auto", not "auto".
    assert_eq!(
        parse_port_spec("::1:auto", None, IpAddress::localhost()),
        Err(ConfigError::NotAddressOrPort)
    );
    assert_eq!(
        parse_port_spec("1.2.3.4:auto:auto", None, IpAddress::localhost()),
        Err(ConfigError::NotAddressOrPort)
    );
}

#[test]
fn fixed_port_spec() {
    assert_eq!(
        parse_port_spec("9999", None, IpAddress::unspecified()),
        Ok(PortSpec::Fixed(v4(0, 0, 0, 0, 9999)))
    );
    assert_eq!(
        parse_port_spec("127.0.0.1:8888", Some(v4(127, 0, 0, 1, 8888)), IpAddress::localhost()),
        Ok(PortSpec::Fixed(v4(127, 0, 0, 1, 8888)))
    );
    assert_eq!(
        parse_port_spec("AUTO", None, IpAddress::localhost()),
        Err(ConfigError::NotAddressOrPort)
    );
    assert_eq!(
        parse_port_spec("autos", None, IpAddress::localhost()),
        Err(ConfigError::NotAddressOrPort)
    );
}

#[test]
fn is_auto_tells_the_two_apart() {
    assert!(PortSpec::Auto(IpAddress::localhost()).is_auto());
    assert!(!PortSpec::Fixed(v4(127, 0, 0, 1, 1)).is_auto());
}

#[test]
fn primary_bind_address_of_auto_is_port_zero() {
    assert_eq!(
        PortSpec::Auto(IpAddress::V4([10, 0, 0, 1])).primary_bind_address(),
        v4(10, 0, 0, 1, 0)
    );
    assert_eq!(PortSpec::Fixed(v4(0, 0, 0, 0, 9999)).primary_bind_address(), v4(0, 0, 0, 0, 9999));
}

#[test]
fn auto_mode_gating() {
    let fixed = PortSpec::Fixed(v4(127, 0, 0, 1, 9999));
    let auto = PortSpec::Auto(IpAddress::localhost());
    // listen side
    assert_eq!(check_modes(true, &fixed, &fixed), Ok(()));
    assert_eq!(check_modes(true, &auto, &fixed), Ok(()));
    assert_eq!(check_modes(true, &fixed, &auto), Err(ConfigError::AutoSendtoOnListenSide));
    assert_eq!(check_modes(true, &auto, &auto), Err(ConfigError::AutoSendtoOnListenSide));
    // connect side
    assert_eq!(check_modes(false, &fixed, &fixed), Ok(()));
    assert_eq!(check_modes(false, &fixed, &auto), Ok(()));
    assert_eq!(check_modes(false, &auto, &fixed), Err(ConfigError::AutoBindOnConnectSide));
    assert_eq!(check_modes(false, &auto, &auto), Err(ConfigError::AutoBindOnConnectSide));
}

#[test]
fn assemble_asks_for_every_argument_in_turn() {
    let tcp = Some(v4(0, 0, 0, 0, 7878));
    let fixed = Some(PortSpec::Fixed(v4(127, 0, 0, 1, 9999)));
    let auto = Some(PortSpec::Auto(IpAddress::localhost()));
    assert_eq!(Config::assemble(true, None, None, None), Err(ConfigError::MissingTcpEndpoint));
    assert_eq!(Config::assemble(true, None, fixed, fixed), Err(ConfigError::MissingTcpEndpoint));
    assert_eq!(Config::assemble(true, tcp, None, None), Err(ConfigError::MissingUdpBind));
    assert_eq!(Config::assemble(true, tcp, None, fixed), Err(ConfigError::MissingUdpBind));
    assert_eq!(Config::assemble(true, tcp, fixed, None), Err(ConfigError::MissingUdpSendto));
    assert_eq!(Config::assemble(true, tcp, fixed, auto), Err(ConfigError::AutoSendtoOnListenSide));
    assert_eq!(Config::assemble(false, tcp, auto, fixed), Err(ConfigError::AutoBindOnConnectSide));
    let ok = Config::assemble(false, tcp, fixed, auto).unwrap();
    assert!(!ok.listen);
    assert_eq!(ok.tcp_addr, v4(0, 0, 0, 0, 7878));
    assert_eq!(ok.udp_bind, fixed.unwrap());
    assert_eq!(ok.udp_sendto, auto.unwrap());
}

#[test]
fn every_error_has_its_sentence() {
    assert_eq!(
        ConfigError::NotAddressOrPort.message(),
        "provided value is not an address or a port number"
    );
    assert_eq!(ConfigError::InvalidIp.message(), "invalid IP address");
    assert_eq!(ConfigError::MissingTcpEndpoint.message(), "no tcp address given");
    assert_eq!(ConfigError::MissingUdpBind.message(), "no udp port given");
    assert_eq!(ConfigError::MissingUdpSendto.message(), "no udp forward destination given");
    assert_eq!(
        ConfigError::AutoBindOnConnectSide.message(),
        "--udp-bind auto can only be used with --tcp-listen (listen side)"
    );
    assert_eq!(
        ConfigError::AutoSendtoOnListenSide.message(),
        "--udp-sendto IP:auto can only be used with --tcp-connect (connect side)"
    );
}
