//! The rules of the command line: which options there are, which of them
//! take a value, which may come only once, and what they leave behind.
//!
//! Cutting the command line into options and values is left to the
//! caller; what an option means is decided here.

use crate::addr::{IpAddress, SocketAddress};
use crate::config::{
    addr_of, parse_port_spec, port_or_addr, port_spec_of, Config, ConfigError, PortSpec,
};
use vstd::prelude::*;
use vstd::string::{StringExecFns, StringSliceAdditionalSpecFns};

verus! {

/// An option of the command line.
#[derive(Clone, Copy, Debug, PartialEq, Eq)]
pub enum CliOption {
    /// `--tcp-listen`, `-l`: accept the carrier at this address.
    TcpListen,
    /// `--tcp-connect`, `-t`: dial the carrier at this address.
    TcpConnect,
    /// `--udp-bind`, `-u`: where the primary UDP socket binds.
    UdpBind,
    /// `--udp-sendto`, `-p`: where datagrams from the carrier are sent.
    UdpSendto,
    /// `--verbose`, `-v`.
    Verbose,
    /// `--debug`.
    Debug,
    /// `--help`, `-h`.
    Help,
}

/// The option that a long name stands for.
pub open spec fn long_option(name: Seq<char>) -> Option<CliOption> {
    if name == "tcp-listen"@ {
        Some(CliOption::TcpListen)
    } else if name == "tcp-connect"@ {
        Some(CliOption::TcpConnect)
    } else if name == "udp-bind"@ {
        Some(CliOption::UdpBind)
    } else if name == "udp-sendto"@ {
        Some(CliOption::UdpSendto)
    } else if name == "verbose"@ {
        Some(CliOption::Verbose)
    } else if name == "debug"@ {
        Some(CliOption::Debug)
    } else if name == "help"@ {
        Some(CliOption::Help)
    } else {
        None
    }
}

/// The option that a single letter stands for.
pub open spec fn short_option(letter: char) -> Option<CliOption> {
    if letter == 'l' {
        Some(CliOption::TcpListen)
    } else if letter == 't' {
        Some(CliOption::TcpConnect)
    } else if letter == 'u' {
        Some(CliOption::UdpBind)
    } else if letter == 'p' {
        Some(CliOption::UdpSendto)
    } else if letter == 'v' {
        Some(CliOption::Verbose)
    } else if letter == 'h' {
        Some(CliOption::Help)
    } else {
        None
    }
}

fn same_text(a: &str, b: &str) -> (r: bool)
    ensures
        r == (a@ == b@),
{
    String::from_str(a) == String::from_str(b)
}

impl CliOption {
    /// Reads a long option name, without its dashes.
    pub fn from_long(name: &str) -> (r: Option<CliOption>)
        ensures
            r == long_option(name@),
    {
        if same_text(name, "tcp-listen") {
            Some(CliOption::TcpListen)
        } else if same_text(name, "tcp-connect") {
            Some(CliOption::TcpConnect)
        } else if same_text(name, "udp-bind") {
            Some(CliOption::UdpBind)
        } else if same_text(name, "udp-sendto") {
            Some(CliOption::UdpSendto)
        } else if same_text(name, "verbose") {
            Some(CliOption::Verbose)
        } else if same_text(name, "debug") {
            Some(CliOption::Debug)
        } else if same_text(name, "help") {
            Some(CliOption::Help)
        } else {
            None
        }
    }

    /// Reads a short option letter.
    pub fn from_short(letter: char) -> (r: Option<CliOption>)
        ensures
            r == short_option(letter),
    {
        if letter == 'l' {
            Some(CliOption::TcpListen)
        } else if letter == 't' {
            Some(CliOption::TcpConnect)
        } else if letter == 'u' {
            Some(CliOption::UdpBind)
        } else if letter == 'p' {
            Some(CliOption::UdpSendto)
        } else if letter == 'v' {
            Some(CliOption::Verbose)
        } else if letter == 'h' {
            Some(CliOption::Help)
        } else {
            None
        }
    }

    /// The option as it is written out on the command line.
    pub open spec fn written(self) -> Seq<char> {
        match self {
            CliOption::TcpListen => "--tcp-listen"@,
            CliOption::TcpConnect => "--tcp-connect"@,
            CliOption::UdpBind => "--udp-bind"@,
            CliOption::UdpSendto => "--udp-sendto"@,
            CliOption::Verbose => "--verbose"@,
            CliOption::Debug => "--debug"@,
            CliOption::Help => "--help"@,
        }
    }

    /// Computes `written`.
    pub fn name(&self) -> (r: &'static str)
        ensures
            r@ == self.written(),
    {
        match self {
            CliOption::TcpListen => "--tcp-listen",
            CliOption::TcpConnect => "--tcp-connect",
            CliOption::UdpBind => "--udp-bind",
            CliOption::UdpSendto => "--udp-sendto",
            CliOption::Verbose => "--verbose",
            CliOption::Debug => "--debug",
            CliOption::Help => "--help",
        }
    }

    /// Whether a value follows the option.
    pub open spec fn has_value(self) -> bool {
        self is TcpListen || self is TcpConnect || self is UdpBind || self is UdpSendto
    }

    /// Computes `has_value`.
    pub fn takes_value(&self) -> (r: bool)
        ensures
            r == self.has_value(),
    {
        match self {
            CliOption::TcpListen | CliOption::TcpConnect | CliOption::UdpBind | CliOption::UdpSendto => true,
            _ => false,
        }
    }

    /// The IP address that a bare port or a bare `auto` is paired with:
    /// the wildcard where the option names a place to bind or listen, the
    /// loopback address where it names a place to connect or send to.
    pub open spec fn default_ip_spec(self) -> IpAddress {
        if self is TcpConnect || self is UdpSendto {
            IpAddress::V4([127u8, 0u8, 0u8, 1u8])
        } else {
            IpAddress::V4([0u8, 0u8, 0u8, 0u8])
        }
    }

    /// Computes `default_ip_spec`.
    pub fn default_ip(&self) -> (r: IpAddress)
        ensures
            r == self.default_ip_spec(),
    {
        match self {
            CliOption::TcpConnect | CliOption::UdpSendto => IpAddress::localhost(),
            _ => IpAddress::unspecified(),
        }
    }
}

/// What the options read so far have left behind.
#[derive(Clone, Copy, Debug, PartialEq, Eq)]
pub struct Options {
    /// Whether the carrier is accepted rather than dialled.
    pub listen: bool,
    pub tcp_addr: Option<SocketAddress>,
    pub udp_bind: Option<PortSpec>,
    pub udp_sendto: Option<PortSpec>,
    pub verbose: bool,
    pub debug: bool,
}

impl Options {
    /// Nothing read yet.
    pub open spec fn empty() -> Options {
        Options {
            listen: false,
            tcp_addr: None,
            udp_bind: None,
            udp_sendto: None,
            verbose: false,
            debug: false,
        }
    }

    /// Whether `option` may come now. An address may be given once: a
    /// second TCP endpoint, of either kind, a second UDP bind and a second
    /// UDP destination are refused.
    pub open spec fn admits_spec(self, option: CliOption) -> bool {
        match option {
            CliOption::TcpListen | CliOption::TcpConnect => self.tcp_addr is None,
            CliOption::UdpBind => self.udp_bind is None,
            CliOption::UdpSendto => self.udp_sendto is None,
            _ => true,
        }
    }

    /// The options after the flag `option`. An option that is no flag changes nothing.
    pub open spec fn with_flag(self, option: CliOption) -> Options {
        match option {
            CliOption::Verbose => Options { verbose: true, ..self },
            CliOption::Debug => Options { debug: true, ..self },
            _ => self,
        }
    }

    /// What the value `text` of `option` turns the options into. `parsed`
    /// is what the platform's socket-address parser made of `text`.
    pub open spec fn with_value(
        self,
        option: CliOption,
        text: Seq<u8>,
        parsed: Option<SocketAddress>,
    ) -> Result<Options, ConfigError> {
        match option {
            CliOption::TcpListen | CliOption::TcpConnect => match addr_of(
                text,
                parsed,
                option.default_ip_spec(),
            ) {
                Ok(addr) => Ok(
                    Options { listen: option is TcpListen, tcp_addr: Some(addr), ..self },
                ),
                Err(e) => Err(e),
            },
            CliOption::UdpBind => match port_spec_of(text, parsed, option.default_ip_spec()) {
                Ok(spec) => Ok(Options { udp_bind: Some(spec), ..self }),
                Err(e) => Err(e),
            },
            CliOption::UdpSendto => match port_spec_of(text, parsed, option.default_ip_spec()) {
                Ok(spec) => Ok(Options { udp_sendto: Some(spec), ..self }),
                Err(e) => Err(e),
            },
            _ => Ok(self),
        }
    }

    /// Nothing read yet.
    pub fn new() -> (r: Options)
        ensures
            r == Options::empty(),
    {
        Options {
            listen: false,
            tcp_addr: None,
            udp_bind: None,
            udp_sendto: None,
            verbose: false,
            debug: false,
        }
    }

    /// Whether `option` may come now; where it may not, the argument is unexpected.
    pub fn admits(&self, option: CliOption) -> (r: bool)
        ensures
            r == self.admits_spec(option),
    {
        match option {
            CliOption::TcpListen | CliOption::TcpConnect => self.tcp_addr.is_none(),
            CliOption::UdpBind => self.udp_bind.is_none(),
            CliOption::UdpSendto => self.udp_sendto.is_none(),
            _ => true,
        }
    }

    /// Takes note of a flag.
    pub fn set_flag(&mut self, option: CliOption)
        ensures
            *final(self) == old(self).with_flag(option),
    {
        match option {
            CliOption::Verbose => {
                self.verbose = true;
            },
            CliOption::Debug => {
                self.debug = true;
            },
            _ => {},
        }
    }

    /// Takes note of the value of an option. Where the value is refused
    /// the options stay as they were.
    pub fn set_value(&mut self, option: CliOption, text: &str, parsed: Option<SocketAddress>) -> (r:
        Result<(), ConfigError>)
        ensures
            match old(self).with_value(option, text.spec_bytes(), parsed) {
                Ok(after) => r is Ok && *final(self) == after,
                Err(e) => r == Err::<(), ConfigError>(e) && *final(self) == *old(self),
            },
    {
        let default_ip = option.default_ip();
        match option {
            CliOption::TcpListen | CliOption::TcpConnect => {
                match port_or_addr(text, parsed, default_ip) {
                    Ok(addr) => {
                        self.listen = match option {
                            CliOption::TcpListen => true,
                            _ => false,
                        };
                        self.tcp_addr = Some(addr);
                        Ok(())
                    },
                    Err(e) => Err(e),
                }
            },
            CliOption::UdpBind => {
                match parse_port_spec(text, parsed, default_ip) {
                    Ok(spec) => {
                        self.udp_bind = Some(spec);
                        Ok(())
                    },
                    Err(e) => Err(e),
                }
            },
            CliOption::UdpSendto => {
                match parse_port_spec(text, parsed, default_ip) {
                    Ok(spec) => {
                        self.udp_sendto = Some(spec);
                        Ok(())
                    },
                    Err(e) => Err(e),
                }
            },
            _ => Ok(()),
        }
    }

    /// The configuration that the options amount to, once all are read.
    pub fn finish(&self) -> (r: Result<Config, ConfigError>)
        ensures
            r == Config::assembled(self.listen, self.tcp_addr, self.udp_bind, self.udp_sendto),
            r matches Ok(c) ==> c.valid(),
    {
        Config::assemble(self.listen, self.tcp_addr, self.udp_bind, self.udp_sendto)
    }
}

} // verus!
