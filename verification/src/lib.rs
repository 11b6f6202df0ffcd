//! The core of a tunnel that carries UDP datagrams over one TCP connection,
//! without any I/O of its own.
//!
//! A process on each side owns the sockets. The listen side accepts the TCP
//! carrier, the connect side dials it. A datagram that arrives on a UDP
//! socket is framed together with the address of its sender and written to
//! the carrier; a frame that comes off the carrier is sent on as a
//! datagram. On the listen side every client may get a UDP socket of its
//! own, so that the answers to its datagrams can be told apart from the
//! answers to everybody else's and find their way back.
//!
//! * [`addr`]: socket addresses and their 18-byte wire form.
//! * [`frame`]: the length-prefixed frame and the stream decoder.
//! * [`flow`]: the flow table and the reverse port index.
//! * [`tunnel`]: the state machine that decides what to do with every
//!   datagram, frame and carrier event.
//! * [`config`]: port specifications, their grammar, and the start-up checks.
//! * [`cli`]: the options of the command line and what they mean.
//! * [`text`]: decimal numbers, ports and dotted quads as bytes.
//!
//! Every function comes with a contract that says exactly what it returns
//! and how it changes its state, and every contract is proved.

pub mod addr;
pub mod cli;
pub mod config;
pub mod flow;
pub mod frame;
pub mod text;
pub mod tunnel;
