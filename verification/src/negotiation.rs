//! How a client finds its server and agrees with it on a transport.
use vstd::prelude::*;
use vstd::string::*;
use crate::protocol::{
    ClientTransportConfig, ClientTransportModel, ControlReply, SelectionModel, SocketAddress,
    TransportReady, TransportSelection,
};
use crate::text::{has_prefix, joined, starts_with, without_prefix};
use crate::transport::{ControlFrame, Received};

verus! {

/// The socket address in an address that may carry a WebSocket scheme.
pub open spec fn socket_target_text(address: Seq<char>) -> Seq<char> {
    if starts_with(address, "ws://"@) {
        address.skip("ws://"@.len() as int)
    } else if starts_with(address, "wss://"@) {
        address.skip("wss://"@.len() as int)
    } else {
        address
    }
}

/// The WebSocket URI of an address that may carry its scheme already.
pub open spec fn control_uri_text(address: Seq<char>) -> Seq<char> {
    if starts_with(address, "ws://"@) || starts_with(address, "wss://"@) {
        address
    } else {
        "ws://"@ + address
    }
}

/// The socket address in an address that may carry a WebSocket scheme.
pub fn socket_target<'a>(address: &'a str) -> (target: &'a str)
    ensures
        target@ == socket_target_text(address@),
{
    match without_prefix(address, "ws://") {
        Some(target) => target,
        None => match without_prefix(address, "wss://") {
            Some(target) => target,
            None => address,
        },
    }
}

/// The WebSocket URI of an address that may carry its scheme already.
pub fn control_uri(address: &str) -> (uri: String)
    ensures
        uri@ == control_uri_text(address@),
{
    if has_prefix(address, "ws://") || has_prefix(address, "wss://") {
        address.to_owned()
    } else {
        let mut uri: String = "ws://".to_owned();
        uri.append(address);
        uri
    }
}

/// Both forms of an address name the same socket, whether it carries the plain scheme or
/// none.
pub proof fn law_scheme_does_not_change_the_target(address: Seq<char>)
    requires
        !starts_with(address, "ws://"@),
        !starts_with(address, "wss://"@),
    ensures
        control_uri_text(control_uri_text(address)) == control_uri_text(address),
        socket_target_text(control_uri_text(address)) == socket_target_text(address),
{
    let uri = "ws://"@ + address;
    assert(uri.take("ws://"@.len() as int) =~= "ws://"@);
    assert(uri.skip("ws://"@.len() as int) =~= address);
}

/// Why client and server do not agree on a transport.
#[derive(Debug, PartialEq, Eq)]
pub enum NegotiationError {
    /// Aeron transport selected while `[aeron].enabled` is false.
    AeronDisabled,
    /// The address of the server names no socket.
    InvalidAddress(String),
    /// A client that waits has asked for UDP without a socket to receive on.
    UdpNotInitialized,
    /// A client that polls has asked for UDP without a socket to receive on.
    UdpNotPrepared,
    /// An Aeron stream was asked for without a subscription to receive on.
    AeronNotPrepared,
    /// The server wants to send to a socket that the client does not have.
    UdpWithoutSocket,
    /// The control connection has ended.
    Ended,
    /// The server has closed the control connection.
    Closed(String),
    /// The server has refused the transport.
    Refused(String),
    /// What the server has sent is no reply.
    InvalidReply(String),
    /// What a client that waits has received is a reply to something else.
    UnexpectedControlReply(ControlReply),
    /// What a client that polls or blocks has received is a reply to something else.
    UnexpectedReply(ControlReply),
    /// The server has prepared another transport than the client has asked for.
    Incompatible { requested: crate::client::ClientTransportConfig, returned: TransportReady },
}

impl NegotiationError {
    /// What the error says. `shown` is the reply or the transport of the server that the
    /// error carries, as it is shown.
    pub open spec fn text(self, shown: Seq<char>) -> Seq<char> {
        match self {
            NegotiationError::AeronDisabled =>
                "Aeron transport selected while [aeron].enabled is false"@,
            NegotiationError::InvalidAddress(address) => "invalid socket address "@ + address@,
            NegotiationError::UdpNotInitialized => "UDP socket was not initialized"@,
            NegotiationError::UdpNotPrepared => "UDP socket was not prepared"@,
            NegotiationError::AeronNotPrepared =>
                "Aeron UDP subscription endpoint was not prepared"@,
            NegotiationError::UdpWithoutSocket => "server selected UDP without a client socket"@,
            NegotiationError::Ended => "control WebSocket closed during transport negotiation"@,
            NegotiationError::Closed(reason) => "control WebSocket closed during negotiation: "@
                + reason@,
            NegotiationError::Refused(message) => message@,
            NegotiationError::InvalidReply(reason) => reason@,
            NegotiationError::UnexpectedControlReply(_) =>
                "unexpected control reply during transport negotiation: "@ + shown,
            NegotiationError::UnexpectedReply(_) =>
                "unexpected reply during transport negotiation: "@ + shown,
            NegotiationError::Incompatible { requested, .. } =>
                "server returned incompatible transport during negotiation: requested "@
                + requested.shown() + ", returned "@ + shown,
        }
    }

    /// What the error says. `shown` is the reply or the transport of the server that the
    /// error carries, as it is shown; it does not matter for other errors.
    pub fn message(&self, shown: &str) -> (message: String)
        ensures
            message@ == self.text(shown@),
    {
        match self {
            NegotiationError::AeronDisabled =>
                "Aeron transport selected while [aeron].enabled is false".to_owned(),
            NegotiationError::InvalidAddress(address) => joined(
                "invalid socket address ",
                address.as_str(),
            ),
            NegotiationError::UdpNotInitialized => "UDP socket was not initialized".to_owned(),
            NegotiationError::UdpNotPrepared => "UDP socket was not prepared".to_owned(),
            NegotiationError::AeronNotPrepared =>
                "Aeron UDP subscription endpoint was not prepared".to_owned(),
            NegotiationError::UdpWithoutSocket =>
                "server selected UDP without a client socket".to_owned(),
            NegotiationError::Ended =>
                "control WebSocket closed during transport negotiation".to_owned(),
            NegotiationError::Closed(reason) => joined(
                "control WebSocket closed during negotiation: ",
                reason.as_str(),
            ),
            NegotiationError::Refused(message) => message.clone(),
            NegotiationError::InvalidReply(reason) => reason.clone(),
            NegotiationError::UnexpectedControlReply(_) => joined(
                "unexpected control reply during transport negotiation: ",
                shown,
            ),
            NegotiationError::UnexpectedReply(_) => joined(
                "unexpected reply during transport negotiation: ",
                shown,
            ),
            NegotiationError::Incompatible { requested, .. } => {
                let requested: String = requested.show();
                let mut text: String = joined(
                    "server returned incompatible transport during negotiation: requested ",
                    requested.as_str(),
                );
                text.append(", returned ");
                text.append(shown);
                text
            },
        }
    }
}

/// The socket that an address names, which may carry a WebSocket scheme. `parse` reads what
/// follows the scheme.
pub fn connect_target<A, P: Fn(&str) -> Option<A>>(address: &str, parse: &P) -> (result: Result<
    A,
    NegotiationError,
>)
    requires
        forall|target: &str| call_requires(*parse, (target,)),
    ensures
        exists|target: &str, parsed: Option<A>|
            {
                &&& target@ == socket_target_text(address@)
                &&& #[trigger] call_ensures(*parse, (target,), parsed)
                &&& match parsed {
                    Some(socket) => result == Ok::<A, NegotiationError>(socket),
                    None => result matches Err(NegotiationError::InvalidAddress(text)) && text@
                        == address@,
                }
            },
{
    match parse(socket_target(address)) {
        Some(socket) => Ok(socket),
        None => Err(NegotiationError::InvalidAddress(address.to_owned())),
    }
}

/// Aeron has to be enabled where it is asked for.
pub fn check_aeron(transport: &ClientTransportConfig, aeron_enabled: bool) -> (result: Result<
    (),
    NegotiationError,
>)
    ensures
        result == (if transport@.aeron_config() is Some && !aeron_enabled {
            Err(NegotiationError::AeronDisabled)
        } else {
            Ok(())
        }),
{
    if transport.is_aeron() && !aeron_enabled {
        Err(NegotiationError::AeronDisabled)
    } else {
        Ok(())
    }
}

/// What a client asks for that receives UDP at this port, if it does.
pub open spec fn selection_for(
    transport: ClientTransportModel,
    udp_port: Option<u16>,
) -> Option<SelectionModel> {
    match transport {
        ClientTransportModel::WebSocket => Some(SelectionModel::WebSocket),
        ClientTransportModel::Udp => match udp_port {
            Some(client_port) => Some(SelectionModel::Udp { client_port }),
            None => None,
        },
        ClientTransportModel::AeronIpc { stream_id } => Some(SelectionModel::AeronIpc { stream_id }),
        ClientTransportModel::AeronUdp { endpoint, stream_id } => Some(
            SelectionModel::AeronUdp { endpoint, stream_id },
        ),
    }
}

/// What a client asks for that receives UDP at this port, if it does.
pub fn select_transport(transport: &ClientTransportConfig, udp_port: Option<u16>) -> (result:
    Result<TransportSelection, NegotiationError>)
    ensures
        match result {
            Ok(selection) => selection_for(transport@, udp_port) == Some(selection@),
            Err(error) => selection_for(transport@, udp_port) is None && error
                == NegotiationError::UdpNotInitialized,
        },
{
    match transport {
        ClientTransportConfig::WebSocket => Ok(TransportSelection::WebSocket),
        ClientTransportConfig::Udp => match udp_port {
            Some(client_port) => Ok(TransportSelection::Udp { client_port }),
            None => Err(NegotiationError::UdpNotInitialized),
        },
        ClientTransportConfig::AeronIpc { stream_id } => Ok(
            TransportSelection::AeronIpc { stream_id: *stream_id },
        ),
        ClientTransportConfig::AeronUdp { endpoint, stream_id } => Ok(
            TransportSelection::AeronUdp { endpoint: endpoint.clone(), stream_id: *stream_id },
        ),
    }
}

/// What asks for a transport asks for the Aeron stream that it is configured with.
pub proof fn law_selection_keeps_the_aeron_stream(
    transport: ClientTransportModel,
    udp_port: Option<u16>,
)
    requires
        selection_for(transport, udp_port) is Some,
    ensures
        selection_for(transport, udp_port)->0.aeron_config() == transport.aeron_config(),
{
}

/// What a client does while it waits for its transport.
#[derive(Debug, PartialEq, Eq)]
pub enum NegotiationStep {
    /// Wait on.
    Continue,
    /// Answer a ping and wait on.
    Pong(Vec<u8>),
    /// Receive from this address only; then the transport is ready.
    ConnectUdp(SocketAddress),
    /// The transport is ready.
    Ready,
    /// Give up.
    Fail(NegotiationError),
}

/// What a client that waits does with the reply to its choice.
pub open spec fn step_on_reply(has_udp_socket: bool, reply: ControlReply) -> NegotiationStep {
    match reply {
        ControlReply::TransportReady { transport: TransportReady::Udp { server_address } } =>
            if has_udp_socket {
                NegotiationStep::ConnectUdp(server_address)
            } else {
                NegotiationStep::Fail(NegotiationError::UdpWithoutSocket)
            },
        ControlReply::TransportReady { .. } => NegotiationStep::Ready,
        ControlReply::Error { message } => NegotiationStep::Fail(
            NegotiationError::Refused(message),
        ),
        _ => NegotiationStep::Fail(NegotiationError::UnexpectedControlReply(reply)),
    }
}

/// What a client that waits does with what it receives before its transport is ready.
pub open spec fn step_on_received(
    has_udp_socket: bool,
    received: Received<Result<ControlReply, String>>,
) -> NegotiationStep {
    match received {
        Received::NotReady => NegotiationStep::Continue,
        Received::Ended => NegotiationStep::Fail(NegotiationError::Ended),
        Received::Frame(ControlFrame::Text(Ok(reply))) => step_on_reply(has_udp_socket, reply),
        Received::Frame(ControlFrame::Text(Err(reason))) => NegotiationStep::Fail(
            NegotiationError::InvalidReply(reason),
        ),
        Received::Frame(ControlFrame::Ping(payload)) => NegotiationStep::Pong(payload),
        Received::Frame(ControlFrame::Close(reason)) => NegotiationStep::Fail(
            NegotiationError::Closed(reason),
        ),
        Received::Frame(_) => NegotiationStep::Continue,
    }
}

/// What a client that waits does with what it receives before its transport is ready.
pub fn negotiation_step(
    has_udp_socket: bool,
    received: Received<Result<ControlReply, String>>,
) -> (step: NegotiationStep)
    ensures
        step == step_on_received(has_udp_socket, received),
{
    match received {
        Received::NotReady => NegotiationStep::Continue,
        Received::Ended => NegotiationStep::Fail(NegotiationError::Ended),
        Received::Frame(frame) => match frame {
            ControlFrame::Text(Ok(reply)) => match reply {
                ControlReply::TransportReady { transport } => match transport {
                    TransportReady::Udp { server_address } => if has_udp_socket {
                        NegotiationStep::ConnectUdp(server_address)
                    } else {
                        NegotiationStep::Fail(NegotiationError::UdpWithoutSocket)
                    },
                    _ => NegotiationStep::Ready,
                },
                ControlReply::Error { message } => NegotiationStep::Fail(
                    NegotiationError::Refused(message),
                ),
                other => NegotiationStep::Fail(NegotiationError::UnexpectedControlReply(other)),
            },
            ControlFrame::Text(Err(reason)) => NegotiationStep::Fail(
                NegotiationError::InvalidReply(reason),
            ),
            ControlFrame::Ping(payload) => NegotiationStep::Pong(payload),
            ControlFrame::Close(reason) => NegotiationStep::Fail(NegotiationError::Closed(reason)),
            ControlFrame::Binary(_) => NegotiationStep::Continue,
            ControlFrame::Pong => NegotiationStep::Continue,
            ControlFrame::Other => NegotiationStep::Continue,
        },
    }
}

/// What it takes to connect to a server.
#[derive(Debug, PartialEq, Eq)]
pub struct ConnectPlan {
    /// The WebSocket URI to ask for.
    pub uri: String,
    /// Whether a UDP socket has to be bound.
    pub needs_udp_socket: bool,
}

/// What it takes to connect to a server with one of the general transports.
pub fn plan_connection(
    address: &str,
    transport: &ClientTransportConfig,
    aeron_enabled: bool,
) -> (result: Result<ConnectPlan, NegotiationError>)
    ensures
        match result {
            Err(error) => transport@.aeron_config() is Some && !aeron_enabled && error
                == NegotiationError::AeronDisabled,
            Ok(plan) => {
                &&& !(transport@.aeron_config() is Some && !aeron_enabled)
                &&& plan.uri@ == control_uri_text(address@)
                &&& plan.needs_udp_socket == (transport@ is Udp)
            },
        },
{
    match check_aeron(transport, aeron_enabled) {
        Err(error) => Err(error),
        Ok(()) => Ok(
            ConnectPlan {
                uri: control_uri(address),
                needs_udp_socket: matches!(transport, ClientTransportConfig::Udp),
            },
        ),
    }
}

} // verus!
