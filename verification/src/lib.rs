//! Client side of the usb2snes serial protocol, without the serial port.
//!
//! Every request and every response is one packet of 512 bytes. This crate
//! builds request packets, decides how a response is collected from a
//! byte stream and when it is accepted, decodes the three kinds of response
//! payload and tracks whether a transport is open. It performs no I/O: the
//! caller opens the port, reads, writes and sleeps as the crate tells it to.

pub mod codec;
pub mod connection;
pub mod decode;
pub mod exchange;
pub mod hex;
pub mod layout;
pub mod text;

pub use codec::{build_request, ArgumentFault, ArgumentRef, EncodeError, Opcode, Schema};
pub use connection::{
    port_settings, CommandError, ConnectionError, FlowControl, Parity, PortSettings, ResetPlan,
    Usb2SnesCore,
};
pub use decode::{
    feature_string, parse_get_response, parse_info_response, parse_ls_response_internal,
    version_string, DecodeError,
};
pub use hex::HexFault;
pub use exchange::{validate_response, Exchange, ExchangeError, ReadOutcome, Step};
