//! What the tunnel is told at start-up: which side it is, where its UDP
//! socket binds and where its datagrams go, and the grammar of the
//! arguments that say so.

use crate::addr::{IpAddress, SocketAddress};
use crate::text::{
    find_byte, first_index, ipv4_text, parse_ipv4, parse_port, parse_socket_v4, port_text,
    socket_v4_text, COLON,
};
use vstd::prelude::*;
use vstd::slice::slice_subrange;
use vstd::string::{StringExecFns, StringSliceAdditionalSpecFns};

verus! {

/// Where a UDP socket binds or sends.
#[derive(Clone, Copy, Debug, PartialEq, Eq)]
pub enum PortSpec {
    /// One fully specified address.
    Fixed(SocketAddress),
    /// The IP address is given; the port is chosen flow by flow.
    Auto(IpAddress),
}

/// Why a configuration was refused.
#[derive(Clone, Copy, Debug, PartialEq, Eq)]
pub enum ConfigError {
    /// The text is neither a socket address nor a port number.
    NotAddressOrPort,
    /// The text before `:auto` is not an IP address.
    InvalidIp,
    /// Neither a TCP address to listen on nor one to connect to was given.
    MissingTcpEndpoint,
    /// No UDP bind address was given.
    MissingUdpBind,
    /// No UDP destination was given.
    MissingUdpSendto,
    /// An automatic UDP bind was asked for on the connect side.
    AutoBindOnConnectSide,
    /// An automatic UDP destination was asked for on the listen side.
    AutoSendtoOnListenSide,
}

/// The text `auto`.
pub open spec fn auto_text() -> Seq<u8> {
    seq![0x61u8, 0x75u8, 0x74u8, 0x6fu8]
}

/// The address that an argument stands for. `parsed` is what the
/// platform's socket-address parser made of the same text, for the forms
/// that are not read here. Where it made nothing, the text is an IPv4
/// address with a port, or a port alone, which is paired with `default_ip`.
pub open spec fn addr_of(text: Seq<u8>, parsed: Option<SocketAddress>, default_ip: IpAddress)
    -> Result<SocketAddress, ConfigError> {
    match parsed {
        Some(addr) => Ok(addr),
        None => match socket_v4_text(text) {
            Some((octets, port)) => Ok(SocketAddress { ip: IpAddress::V4(octets), port }),
            None => match port_text(text) {
                Some(port) => Ok(SocketAddress { ip: default_ip, port }),
                None => Err(ConfigError::NotAddressOrPort),
            },
        },
    }
}

/// The port specification that an argument stands for: `auto`, an IPv4
/// address followed by `:auto`, or else an address as `addr_of` reads it.
pub open spec fn port_spec_of(text: Seq<u8>, parsed: Option<SocketAddress>, default_ip: IpAddress)
    -> Result<PortSpec, ConfigError> {
    let colon = first_index(text, COLON);
    if text == auto_text() {
        Ok(PortSpec::Auto(default_ip))
    } else if colon < text.len() && text.skip(colon + 1) == auto_text() {
        match ipv4_text(text.take(colon)) {
            Some(octets) => Ok(PortSpec::Auto(IpAddress::V4(octets))),
            None => Err(ConfigError::InvalidIp),
        }
    } else {
        match addr_of(text, parsed, default_ip) {
            Ok(addr) => Ok(PortSpec::Fixed(addr)),
            Err(e) => Err(e),
        }
    }
}

/// The modes that a side may not use: an automatic bind belongs to the
/// listen side, an automatic destination to the connect side.
pub open spec fn mode_error(listen: bool, udp_bind: PortSpec, udp_sendto: PortSpec) -> Option<
    ConfigError,
> {
    if udp_bind is Auto && !listen {
        Some(ConfigError::AutoBindOnConnectSide)
    } else if udp_sendto is Auto && listen {
        Some(ConfigError::AutoSendtoOnListenSide)
    } else {
        None
    }
}

impl PortSpec {
    /// Whether the port is chosen flow by flow.
    pub fn is_auto(&self) -> (r: bool)
        ensures
            r == (*self is Auto),
    {
        match self {
            PortSpec::Auto(_) => true,
            PortSpec::Fixed(_) => false,
        }
    }

    /// The address at which the primary UDP socket binds: the fixed
    /// address, or port 0 on the given IP where the port is automatic.
    pub open spec fn bind_address(self) -> SocketAddress {
        match self {
            PortSpec::Fixed(addr) => addr,
            PortSpec::Auto(ip) => SocketAddress { ip, port: 0 },
        }
    }

    /// Computes `bind_address`.
    pub fn primary_bind_address(&self) -> (r: SocketAddress)
        ensures
            r == self.bind_address(),
    {
        match self {
            PortSpec::Fixed(addr) => *addr,
            PortSpec::Auto(ip) => SocketAddress { ip: *ip, port: 0 },
        }
    }
}

impl ConfigError {
    /// A sentence for the person who wrote the arguments.
    pub fn message(&self) -> (r: String)
        ensures
            r@ == match *self {
                ConfigError::NotAddressOrPort => "provided value is not an address or a port number"@,
                ConfigError::InvalidIp => "invalid IP address"@,
                ConfigError::MissingTcpEndpoint => "no tcp address given"@,
                ConfigError::MissingUdpBind => "no udp port given"@,
                ConfigError::MissingUdpSendto => "no udp forward destination given"@,
                ConfigError::AutoBindOnConnectSide => "--udp-bind auto can only be used with --tcp-listen (listen side)"@,
                ConfigError::AutoSendtoOnListenSide => "--udp-sendto IP:auto can only be used with --tcp-connect (connect side)"@,
            },
    {
        match self {
            ConfigError::NotAddressOrPort => String::from_str(
                "provided value is not an address or a port number",
            ),
            ConfigError::InvalidIp => String::from_str("invalid IP address"),
            ConfigError::MissingTcpEndpoint => String::from_str("no tcp address given"),
            ConfigError::MissingUdpBind => String::from_str("no udp port given"),
            ConfigError::MissingUdpSendto => String::from_str("no udp forward destination given"),
            ConfigError::AutoBindOnConnectSide => String::from_str(
                "--udp-bind auto can only be used with --tcp-listen (listen side)",
            ),
            ConfigError::AutoSendtoOnListenSide => String::from_str(
                "--udp-sendto IP:auto can only be used with --tcp-connect (connect side)",
            ),
        }
    }
}

/// Tests whether `s` is the text `auto`.
fn is_auto_text(s: &[u8]) -> (r: bool)
    ensures
        r == (s@ == auto_text()),
{
    let r = s.len() == 4 && s[0] == 0x61 && s[1] == 0x75 && s[2] == 0x74 && s[3] == 0x6f;
    proof {
        if r {
            assert(s@ =~= auto_text());
        }
    }
    r
}

/// Reads an argument that is a socket address or a bare port. An IPv4
/// address with a port and a bare port are read here; `parsed` is what the
/// platform's socket-address parser made of `arg`, and is what counts for
/// every other form, such as an IPv6 address in brackets.
pub fn port_or_addr(arg: &str, parsed: Option<SocketAddress>, default_ip: IpAddress) -> (r: Result<
    SocketAddress,
    ConfigError,
>)
    ensures
        r == addr_of(arg.spec_bytes(), parsed, default_ip),
{
    match parsed {
        Some(addr) => Ok(addr),
        None => match parse_socket_v4(arg.as_bytes()) {
            Some((octets, port)) => Ok(SocketAddress { ip: IpAddress::V4(octets), port }),
            None => match parse_port(arg.as_bytes()) {
                Some(port) => Ok(SocketAddress { ip: default_ip, port }),
                None => Err(ConfigError::NotAddressOrPort),
            },
        },
    }
}

/// Reads a `--udp-bind` or `--udp-sendto` argument. `parsed` is what the
/// platform's socket-address parser made of `arg`; it counts where the
/// argument is a socket address.
pub fn parse_port_spec(arg: &str, parsed: Option<SocketAddress>, default_ip: IpAddress) -> (r:
    Result<PortSpec, ConfigError>)
    ensures
        r == port_spec_of(arg.spec_bytes(), parsed, default_ip),
{
    let text = arg.as_bytes();
    if is_auto_text(text) {
        return Ok(PortSpec::Auto(default_ip));
    }
    let colon = find_byte(text, 0, COLON);
    assert(text@.skip(0) =~= text@);
    if colon < text.len() {
        let after = slice_subrange(text, colon + 1, text.len());
        assert(after@ =~= text@.skip(colon + 1));
        if is_auto_text(after) {
            let before = slice_subrange(text, 0, colon);
            assert(before@ =~= text@.take(colon as int));
            return match parse_ipv4(before) {
                Some(octets) => Ok(PortSpec::Auto(IpAddress::V4(octets))),
                None => Err(ConfigError::InvalidIp),
            };
        }
    }
    match port_or_addr(arg, parsed, default_ip) {
        Ok(addr) => Ok(PortSpec::Fixed(addr)),
        Err(e) => Err(e),
    }
}

/// Auto-mode gating: refuses an automatic bind on the connect side and an
/// automatic destination on the listen side, and nothing else.
pub fn check_modes(listen: bool, udp_bind: &PortSpec, udp_sendto: &PortSpec) -> (r: Result<
    (),
    ConfigError,
>)
    ensures
        match mode_error(listen, *udp_bind, *udp_sendto) {
            Some(e) => r == Err::<(), ConfigError>(e),
            None => r is Ok,
        },
{
    if udp_bind.is_auto() && !listen {
        Err(ConfigError::AutoBindOnConnectSide)
    } else if udp_sendto.is_auto() && listen {
        Err(ConfigError::AutoSendtoOnListenSide)
    } else {
        Ok(())
    }
}

/// A configuration that passed every start-up check.
#[derive(Clone, Copy, Debug, PartialEq, Eq)]
pub struct Config {
    /// Whether this is the listen side.
    pub listen: bool,
    /// Where the carrier listens or connects.
    pub tcp_addr: SocketAddress,
    /// Where the primary UDP socket binds.
    pub udp_bind: PortSpec,
    /// Where datagrams taken off the carrier are sent.
    pub udp_sendto: PortSpec,
}

impl Config {
    /// Whether the modes of this configuration suit its side.
    pub open spec fn valid(self) -> bool {
        mode_error(self.listen, self.udp_bind, self.udp_sendto) is None
    }

    /// What start-up makes of the arguments it found.
    pub open spec fn assembled(
        listen: bool,
        tcp_addr: Option<SocketAddress>,
        udp_bind: Option<PortSpec>,
        udp_sendto: Option<PortSpec>,
    ) -> Result<Config, ConfigError> {
        if tcp_addr is None {
            Err(ConfigError::MissingTcpEndpoint)
        } else if udp_bind is None {
            Err(ConfigError::MissingUdpBind)
        } else if udp_sendto is None {
            Err(ConfigError::MissingUdpSendto)
        } else {
            match mode_error(listen, udp_bind->0, udp_sendto->0) {
                Some(e) => Err(e),
                None => Ok(
                    Config {
                        listen,
                        tcp_addr: tcp_addr->0,
                        udp_bind: udp_bind->0,
                        udp_sendto: udp_sendto->0,
                    },
                ),
            }
        }
    }

    /// Puts the arguments together and checks them: each must be there,
    /// and the modes must suit the side.
    pub fn assemble(
        listen: bool,
        tcp_addr: Option<SocketAddress>,
        udp_bind: Option<PortSpec>,
        udp_sendto: Option<PortSpec>,
    ) -> (r: Result<Config, ConfigError>)
        ensures
            r == Config::assembled(listen, tcp_addr, udp_bind, udp_sendto),
            r matches Ok(c) ==> c.valid(),
    {
        let tcp_addr = match tcp_addr {
            Some(a) => a,
            None => {
                return Err(ConfigError::MissingTcpEndpoint);
            },
        };
        let udp_bind = match udp_bind {
            Some(b) => b,
            None => {
                return Err(ConfigError::MissingUdpBind);
            },
        };
        let udp_sendto = match udp_sendto {
            Some(s) => s,
            None => {
                return Err(ConfigError::MissingUdpSendto);
            },
        };
        match check_modes(listen, &udp_bind, &udp_sendto) {
            Err(e) => Err(e),
            Ok(_) => Ok(Config { listen, tcp_addr, udp_bind, udp_sendto }),
        }
    }
}

/// Auto-mode gating: start-up refuses an automatic destination on the
/// listen side and an automatic bind on the connect side, whatever the
/// other arguments are.
pub proof fn lemma_auto_gating(
    listen: bool,
    tcp_addr: Option<SocketAddress>,
    udp_bind: PortSpec,
    udp_sendto: PortSpec,
)
    ensures
        listen && udp_sendto is Auto ==> Config::assembled(
            listen,
            tcp_addr,
            Some(udp_bind),
            Some(udp_sendto),
        ) is Err,
        !listen && udp_bind is Auto ==> Config::assembled(
            listen,
            tcp_addr,
            Some(udp_bind),
            Some(udp_sendto),
        ) is Err,
        tcp_addr is Some && !(listen && udp_sendto is Auto) && !(!listen && udp_bind is Auto)
            ==> Config::assembled(listen, tcp_addr, Some(udp_bind), Some(udp_sendto)) is Ok,
{
}

} // verus!
