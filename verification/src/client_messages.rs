//! Messages that clients send over the mandatory control connection.
//!
//! Subscriptions and requests are those of [`crate::protocol`]; the choice of a transport
//! names ports only, since both ends know each other's address.
use vstd::prelude::*;
use crate::protocol::SocketAddress;

pub use crate::protocol::{
    AeronChannel, ControlOperation, ControlRequest, ProtocolError, SelectTransportOperation,
    SubscriptionArg, SubscriptionKey,
};

verus! {

/// The transport that a client asks a server for.
#[derive(Debug, Clone, Copy, PartialEq, Eq, Structural)]
pub enum TransportSelection {
    Udp { client_port: u16 },
    AeronIpc { stream_id: i32 },
    AeronUdp { client_port: u16, stream_id: i32 },
}

/// The message by which a client asks for a transport.
#[derive(Debug, Clone, Copy, PartialEq, Eq, Structural)]
pub struct SelectTransport {
    pub op: SelectTransportOperation,
    pub transport: TransportSelection,
}

impl SelectTransport {
    pub fn new(transport: TransportSelection) -> (message: SelectTransport)
        ensures
            message == (SelectTransport {
                op: SelectTransportOperation::SelectTransport,
                transport,
            }),
    {
        SelectTransport { op: SelectTransportOperation::SelectTransport, transport }
    }
}

/// Setup of an Aeron stream, without a tag that tells it from other messages.
#[derive(Debug, PartialEq, Eq)]
pub struct AeronConfigMessage {
    pub aeron_channel: AeronChannel,
    pub stream_id: i32,
}

impl Clone for AeronConfigMessage {
    fn clone(&self) -> (copy: AeronConfigMessage)
        ensures
            copy == *self,
    {
        AeronConfigMessage { aeron_channel: self.aeron_channel.clone(), stream_id: self.stream_id }
    }
}

/// Setup of a UDP stream.
#[derive(Debug, PartialEq, Eq)]
pub struct UdpConfigMessage {
    pub client_address: SocketAddress,
}

impl Clone for UdpConfigMessage {
    fn clone(&self) -> (copy: UdpConfigMessage)
        ensures
            copy == *self,
    {
        UdpConfigMessage { client_address: self.client_address.clone() }
    }
}

} // verus!
