//! Whether a transport is open, and under which name.

use crate::codec::{arg_texts, build_request, encode, EncodeError};
use crate::exchange::Exchange;
use vstd::prelude::*;

verus! {

/// Parity of the serial line.
#[derive(Clone, Copy, Debug, PartialEq, Eq)]
pub enum Parity {
    Off,
    Odd,
    Even,
}

/// Flow control of the serial line.
#[derive(Clone, Copy, Debug, PartialEq, Eq)]
pub enum FlowControl {
    Off,
    Software,
    Hardware,
}

/// How the transport is to be opened.
#[derive(Clone, Copy, Debug, PartialEq, Eq)]
pub struct PortSettings {
    pub baud_rate: u32,
    pub data_bits: u8,
    pub stop_bits: u8,
    pub parity: Parity,
    pub flow_control: FlowControl,
    /// Time limit of one read, in milliseconds.
    pub read_timeout_ms: u64,
    /// Time limit of one write, in milliseconds.
    pub write_timeout_ms: u64,
    /// Whether the line that wakes the device, DTR, is raised on opening.
    pub wake_on_open: bool,
}

/// The settings of every connection: 9600 baud, eight data bits, one stop
/// bit, no parity, no flow control, five seconds for a read and for a write,
/// the wake line raised.
pub open spec fn fixed_settings() -> PortSettings {
    PortSettings {
        baud_rate: 9600,
        data_bits: 8,
        stop_bits: 1,
        parity: Parity::Off,
        flow_control: FlowControl::Off,
        read_timeout_ms: 5000,
        write_timeout_ms: 5000,
        wake_on_open: true,
    }
}

/// The settings of every connection.
pub fn port_settings() -> (settings: PortSettings)
    ensures
        settings == fixed_settings(),
{
    PortSettings {
        baud_rate: 9600,
        data_bits: 8,
        stop_bits: 1,
        parity: Parity::Off,
        flow_control: FlowControl::Off,
        read_timeout_ms: 5000,
        write_timeout_ms: 5000,
        wake_on_open: true,
    }
}

/// What a reset of the device takes: the wake line is lowered, then the
/// caller pauses. The transport stays open.
#[derive(Clone, Copy, Debug, PartialEq, Eq)]
pub struct ResetPlan {
    /// Whether to lower the wake line. A transport that cannot do so goes
    /// on without.
    pub lower_wake_line: bool,
    /// How long to pause afterwards, in milliseconds.
    pub pause_ms: u64,
}

/// The reset of every device: the wake line goes down and the caller
/// pauses for half a second.
pub open spec fn fixed_reset() -> ResetPlan {
    ResetPlan { lower_wake_line: true, pause_ms: 500 }
}

/// Why the connection could not do what was asked.
#[derive(Clone, Copy, Debug, PartialEq, Eq)]
pub enum ConnectionError {
    /// No transport is open.
    NotConnected,
    /// The transport could not be opened.
    TransportOpen,
}

/// Why no exchange was started.
#[derive(Clone, Copy, Debug, PartialEq, Eq)]
pub enum CommandError {
    /// No transport is open.
    NotConnected,
    /// The request could not be built.
    Encode(EncodeError),
}

/// An open transport and the name that it was opened under.
struct Link<H> {
    transport: H,
    name: String,
}

/// The connection to a device: at most one open transport of type `H`.
///
/// The transport is whatever the caller opens; this type keeps it, hands it
/// out for reading and writing, and lets it go on
/// [`disconnect`](Usb2SnesCore::disconnect).
pub struct Usb2SnesCore<H> {
    link: Option<Link<H>>,
}

impl<H> Usb2SnesCore<H> {
    /// A transport is open.
    pub closed spec fn connected(&self) -> bool {
        self.link is Some
    }

    /// The open transport.
    pub closed spec fn transport(&self) -> Option<H> {
        match self.link {
            Some(link) => Some(link.transport),
            None => None,
        }
    }

    /// The name that the open transport was opened under.
    pub closed spec fn name(&self) -> Option<Seq<char>> {
        match self.link {
            Some(link) => Some(link.name@),
            None => None,
        }
    }

    /// There is a transport exactly when there is a name.
    pub proof fn lemma_name_with_transport(&self)
        ensures
            self.connected() <==> self.transport() is Some,
            self.connected() <==> self.name() is Some,
    {
    }

    /// A connection without a transport.
    pub fn new() -> (core: Self)
        ensures
            !core.connected(),
    {
        Usb2SnesCore { link: None }
    }

    /// Whether a transport is open.
    pub fn is_connected(&self) -> (open: bool)
        ensures
            open == self.connected(),
    {
        self.link.is_some()
    }

    /// The name that the open transport was opened under.
    pub fn port_name(&self) -> (name: Option<String>)
        ensures
            match name {
                Some(n) => self.name() == Some(n@),
                None => self.name() is None,
            },
    {
        match &self.link {
            Some(link) => Some(link.name.clone()),
            None => None,
        }
    }

    /// First half of connecting: lets go of the open transport, if there is
    /// one, and says how the new one is to be opened.
    pub fn prepare_connect(&mut self) -> (settings: PortSettings)
        ensures
            !final(self).connected(),
            settings == fixed_settings(),
    {
        self.link = None;
        port_settings()
    }

    /// Second half of connecting: takes the transport that was opened under
    /// `port_name`, or learns with `None` that it could not be opened. A
    /// transport that is still open is let go either way.
    pub fn connect(&mut self, port_name: String, transport: Option<H>) -> (done: Result<
        (),
        ConnectionError,
    >)
        ensures
            match transport {
                Some(t) => {
                    &&& done is Ok
                    &&& final(self).transport() == Some(t)
                    &&& final(self).name() == Some(port_name@)
                },
                None => {
                    &&& done == Err::<(), ConnectionError>(ConnectionError::TransportOpen)
                    &&& !final(self).connected()
                },
            },
    {
        match transport {
            Some(t) => {
                self.link = Some(Link { transport: t, name: port_name });
                Ok(())
            },
            None => {
                self.link = None;
                Err(ConnectionError::TransportOpen)
            },
        }
    }

    /// Lets go of the open transport, if there is one. This never fails.
    pub fn disconnect(&mut self) -> (done: Result<(), ConnectionError>)
        ensures
            done is Ok,
            !final(self).connected(),
    {
        self.link = None;
        Ok(())
    }

    /// Says what a reset of the device takes, if a transport is open.
    pub fn reset(&self) -> (plan: Result<ResetPlan, ConnectionError>)
        ensures
            self.connected() ==> plan == Ok::<ResetPlan, ConnectionError>(fixed_reset()),
            !self.connected() ==> plan == Err::<ResetPlan, ConnectionError>(
                ConnectionError::NotConnected,
            ),
    {
        if self.link.is_some() {
            Ok(ResetPlan { lower_wake_line: true, pause_ms: 500 })
        } else {
            Err(ConnectionError::NotConnected)
        }
    }

    /// The open transport, to read from and to write to.
    pub fn transport_mut(&mut self) -> (transport: Option<&mut H>)
        ensures
            match transport {
                Some(t) => {
                    &&& old(self).transport() == Some(*t)
                    &&& final(self).transport() == Some(*final(t))
                    &&& final(self).name() == old(self).name()
                },
                None => !old(self).connected() && !final(self).connected(),
            },
    {
        match &mut self.link {
            Some(link) => Some(&mut link.transport),
            None => None,
        }
    }

    /// Starts the exchange for a command: builds the request packet and
    /// hands out the exchange that will collect the response. Without an
    /// open transport nothing is built.
    pub fn send_command(
        &self,
        opcode: u8,
        space: u8,
        flags: u8,
        args: Option<Vec<String>>,
    ) -> (started: Result<Exchange, CommandError>)
        ensures
            match started {
                Ok(exchange) => {
                    &&& self.connected()
                    &&& encode(opcode, space, flags, arg_texts(args)) == Ok::<
                        Seq<u8>,
                        EncodeError,
                    >(exchange@.request)
                    &&& exchange@.received == Seq::<u8>::empty()
                },
                Err(CommandError::NotConnected) => !self.connected(),
                Err(CommandError::Encode(e)) => {
                    &&& self.connected()
                    &&& encode(opcode, space, flags, arg_texts(args)) == Err::<
                        Seq<u8>,
                        EncodeError,
                    >(e)
                },
            },
    {
        if self.link.is_none() {
            return Err(CommandError::NotConnected);
        }
        match build_request(opcode, space, flags, args) {
            Ok(packet) => Ok(Exchange::begin(packet)),
            Err(e) => Err(CommandError::Encode(e)),
        }
    }
}

} // verus!
