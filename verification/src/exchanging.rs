//! What clients ask for, and what they make of what they receive.
use vstd::prelude::*;
use crate::blocking::{self, ReadLook, ReadStep};
use crate::client::polling::{self, PollEvent, PollLook, PollStep, PollingClient};
use crate::client::{
    awaited, event_of, looked, next_id, parse_client_event, polled, preparations_for, prepare,
    reply_result, validate_request_reply, AwaitStep, Client, ClientConfig, ClientError,
    ClientEvent, ControlLook, ControlStep, Preparations, ReceivedControl,
};
use crate::client_messages;
use crate::connection::{
    expects, listed, moved, ActiveClients, Connection, ConnectionAction, ConnectionEvent, Phase,
};
use crate::link_client::LinkClient;
use crate::negotiation::{
    check_aeron, connect_target, control_uri, control_uri_text, select_transport, selection_for,
    socket_target, socket_target_text, step_on_received, NegotiationError, NegotiationStep,
};
use crate::notation::law_channels_show_their_endpoint;
use crate::protocol::{
    AddressModel, AeronChannel, AeronConfig, ChannelModel, ClientTransportConfig, ClientTransportModel, ControlOperation,
    ControlReply, ControlReplyEnvelope, ControlRequest, ControlRequestEnvelope, ProtocolError,
    RequestModel, SelectionModel, SocketAddress, TransportReady, TransportSelection,
};
use crate::server_messages::ControlEvent;
use crate::session::{addressed_selection, Session};
use crate::text::{decimal, starts_with};
use crate::transport::{
    endpoint_in, endpoint_parameter, next_resolve_step, parameters, resolved_endpoint_port,
    ControlEndpoint, ControlFrame, EndpointError, InboundFrame, Received, ResolveStep,
};

verus! {

/// A scheme before an address does not change the socket that it names, and a URI that has
/// a scheme keeps it.
pub proof fn law_schemes_are_taken_off(address: Seq<char>)
    ensures
        socket_target_text("ws://"@ + address) == address,
        socket_target_text("wss://"@ + address) == address,
        !starts_with(address, "ws://"@) && !starts_with(address, "wss://"@) ==> socket_target_text(
            address,
        ) == address && control_uri_text(address) == "ws://"@ + address,
        control_uri_text("ws://"@ + address) == "ws://"@ + address,
        control_uri_text("wss://"@ + address) == "wss://"@ + address,
{
    reveal_strlit("ws://");
    reveal_strlit("wss://");
    let plain = "ws://"@ + address;
    let secure = "wss://"@ + address;
    assert(plain.take("ws://"@.len() as int) =~= "ws://"@);
    assert(secure.take("wss://"@.len() as int) =~= "wss://"@);
    assert(plain.skip("ws://"@.len() as int) =~= address);
    assert(secure.skip("wss://"@.len() as int) =~= address);
    assert(secure.take("ws://"@.len() as int)[2] == 's');
    assert("ws://"@[2] == ':');
    assert(!starts_with(secure, "ws://"@));
}

/// A client asks for the transport that it is set to, with the port and the stream of its
/// own; only UDP needs a port.
pub proof fn law_clients_ask_for_their_transport(
    transport: ClientTransportModel,
    udp_port: Option<u16>,
)
    ensures
        selection_for(transport, udp_port) is None <==> transport is Udp && udp_port is None,
        transport is WebSocket ==> selection_for(transport, udp_port) == Some(
            SelectionModel::WebSocket,
        ),
        transport is Udp && udp_port is Some ==> selection_for(transport, udp_port) == Some(
            SelectionModel::Udp { client_port: udp_port->0 },
        ),
        transport matches ClientTransportModel::AeronIpc { stream_id } ==> selection_for(
            transport,
            udp_port,
        ) == Some(SelectionModel::AeronIpc { stream_id }),
        transport matches ClientTransportModel::AeronUdp { endpoint, stream_id } ==> selection_for(
            transport,
            udp_port,
        ) == Some(SelectionModel::AeronUdp { endpoint, stream_id }),
{
}

/// A client that names ports only asks with the port that it receives at, needs that port
/// to be there, and prepares what it needs for it. The server adds the client's own host.
pub proof fn law_clients_ask_with_their_ports(
    transport: crate::client::ClientTransportConfig,
    udp_port: Option<u16>,
    aeron_udp_port: Option<u16>,
    peer_host: Seq<char>,
)
    ensures
        ({
            let waiting = crate::client::selection_for(transport, udp_port, aeron_udp_port);
            let polls = polling::selection_for(transport, udp_port, aeron_udp_port);
            let needs = preparations_for(transport);
            &&& waiting is Ok <==> polls is Ok
            &&& waiting is Ok ==> waiting == polls
            &&& waiting is Ok <==> (needs.udp_socket ==> udp_port is Some) && (
            needs.aeron_udp_stream is Some ==> aeron_udp_port is Some)
            &&& needs.udp_socket <==> transport is Udp
            &&& needs.aeron_udp_stream is Some <==> transport is AeronUdp
            &&& transport is Udp && udp_port is None ==> waiting == Err::<
                client_messages::TransportSelection,
                _,
            >(NegotiationError::UdpNotInitialized) && polls == Err::<
                client_messages::TransportSelection,
                _,
            >(NegotiationError::UdpNotPrepared)
            &&& transport is AeronUdp && aeron_udp_port is None ==> waiting == Err::<
                client_messages::TransportSelection,
                _,
            >(NegotiationError::AeronNotPrepared) && polls == waiting
            &&& waiting matches Ok(selection) ==> match transport {
                crate::client::ClientTransportConfig::Udp => addressed_selection(
                    peer_host,
                    selection,
                ) == (SelectionModel::Udp { client_port: udp_port->0 }),
                crate::client::ClientTransportConfig::AeronIpc { stream_id } =>
                    addressed_selection(peer_host, selection) == (SelectionModel::AeronIpc {
                    stream_id,
                }),
                crate::client::ClientTransportConfig::AeronUdp { stream_id } => {
                    &&& needs.aeron_udp_stream == Some(stream_id)
                    &&& addressed_selection(peer_host, selection) == (SelectionModel::AeronUdp {
                        endpoint: AddressModel { host: peer_host, port: aeron_udp_port->0 },
                        stream_id,
                    })
                },
            }
        }),
{
}

/// A server's word that a transport is ready ends a negotiation, by UDP only once the
/// socket is connected to the address that the server has named.
pub proof fn law_ready_transports_end_negotiations(
    has_udp_socket: bool,
    transport: TransportReady,
    address: SocketAddress,
)
    ensures
        ({
            let reply = ControlReply::TransportReady { transport };
            let text: ControlFrame<Result<ControlReply, String>> = ControlFrame::Text(Ok(reply));
            let waiting = step_on_received(has_udp_socket, Received::Frame(text));
            let blocks = blocking::step_on_frame(text);
            &&& waiting is Ready <==> !(transport is Udp)
            &&& blocks is Ready <==> !(transport is Udp)
            &&& transport == (TransportReady::Udp { server_address: address }) && has_udp_socket
                ==> waiting == NegotiationStep::ConnectUdp(address)
            &&& transport == (TransportReady::Udp { server_address: address }) ==> blocks
                == NegotiationStep::ConnectUdp(address)
            &&& transport is Udp && !has_udp_socket ==> waiting == NegotiationStep::Fail(
                NegotiationError::UdpWithoutSocket,
            )
        }),
{
}

/// A client that polls takes the transport that it has asked for, and nothing else.
pub proof fn law_polling_clients_take_what_they_asked_for(
    transport: crate::client::ClientTransportConfig,
    aeron_udp_port: Option<u16>,
    ready: TransportReady,
)
    ensures
        ({
            let step = polling::step_on_ready(transport, aeron_udp_port, ready);
            &&& step is ConnectUdp <==> transport is Udp && ready is Udp
            &&& step matches NegotiationStep::ConnectUdp(address) ==> ready == (
            TransportReady::Udp { server_address: address })
            &&& step is Ready <==> match ready {
                TransportReady::AeronIpc { stream_id } => transport == (
                crate::client::ClientTransportConfig::AeronIpc { stream_id }),
                TransportReady::AeronUdp { endpoint, stream_id } => transport == (
                crate::client::ClientTransportConfig::AeronUdp { stream_id }) && aeron_udp_port
                    == Some(endpoint.port),
                _ => false,
            }
            &&& !(step is ConnectUdp) && !(step is Ready) ==> step == NegotiationStep::Fail(
                NegotiationError::Incompatible { requested: transport, returned: ready },
            )
            &&& polling::step_on_frame(
                transport,
                aeron_udp_port,
                ControlFrame::Text(Ok(ControlReply::TransportReady { transport: ready })),
            ) == step
        }),
{
}

/// A refusal ends every negotiation with the server's own words, any other reply ends it as
/// unexpected, and so does a text that is no reply.
pub proof fn law_refusals_end_negotiations(
    has_udp_socket: bool,
    transport: crate::client::ClientTransportConfig,
    aeron_udp_port: Option<u16>,
    reply: ControlReply,
    reason: String,
)
    requires
        !(reply is TransportReady),
    ensures
        ({
            let text: ControlFrame<Result<ControlReply, String>> = ControlFrame::Text(Ok(reply));
            let garbled: ControlFrame<Result<ControlReply, String>> = ControlFrame::Text(
                Err(reason),
            );
            let waiting = step_on_received(has_udp_socket, Received::Frame(text));
            let polls = polling::step_on_frame(transport, aeron_udp_port, text);
            let blocks = blocking::step_on_frame(text);
            &&& reply matches ControlReply::Error { message } ==> {
                &&& waiting == NegotiationStep::Fail(NegotiationError::Refused(message))
                &&& polls == waiting
                &&& blocks == waiting
            }
            &&& !(reply is Error) ==> {
                &&& waiting == NegotiationStep::Fail(
                    NegotiationError::UnexpectedControlReply(reply),
                )
                &&& polls == NegotiationStep::Fail(NegotiationError::UnexpectedReply(reply))
                &&& blocks == polls
            }
            &&& step_on_received(has_udp_socket, Received::Frame(garbled))
                == NegotiationStep::Fail(NegotiationError::InvalidReply(reason))
            &&& polling::step_on_frame(transport, aeron_udp_port, garbled)
                == NegotiationStep::Fail(NegotiationError::InvalidReply(reason))
            &&& blocking::step_on_frame(garbled) == NegotiationStep::Fail(
                NegotiationError::InvalidReply(reason),
            )
        }),
{
}

/// What else comes during a negotiation: a ping is answered with what it carries, the end of
/// the connection ends the negotiation, and the rest is passed over.
pub proof fn law_negotiations_pass_other_frames(
    has_udp_socket: bool,
    transport: crate::client::ClientTransportConfig,
    aeron_udp_port: Option<u16>,
    payload: Vec<u8>,
    reason: String,
)
    ensures
        ({
            let ping: ControlFrame<Result<ControlReply, String>> = ControlFrame::Ping(payload);
            let close: ControlFrame<Result<ControlReply, String>> = ControlFrame::Close(reason);
            let binary: ControlFrame<Result<ControlReply, String>> = ControlFrame::Binary(payload);
            let pong: ControlFrame<Result<ControlReply, String>> = ControlFrame::Pong;
            let other: ControlFrame<Result<ControlReply, String>> = ControlFrame::Other;
            &&& step_on_received(has_udp_socket, Received::Frame(ping)) == NegotiationStep::Pong(
                payload,
            )
            &&& polling::step_on_frame(transport, aeron_udp_port, ping) == NegotiationStep::Pong(
                payload,
            )
            &&& blocking::step_on_frame(ping) == NegotiationStep::Pong(payload)
            &&& step_on_received(has_udp_socket, Received::Frame(close)) == NegotiationStep::Fail(
                NegotiationError::Closed(reason),
            )
            &&& polling::step_on_frame(transport, aeron_udp_port, close) == NegotiationStep::Fail(
                NegotiationError::Closed(reason),
            )
            &&& blocking::step_on_frame(close) == NegotiationStep::Fail(
                NegotiationError::Closed(reason),
            )
            &&& step_on_received(has_udp_socket, Received::Frame(binary)) is Continue
            &&& step_on_received(has_udp_socket, Received::Frame(pong)) is Continue
            &&& step_on_received(has_udp_socket, Received::Frame(other)) is Continue
            &&& polling::step_on_frame(transport, aeron_udp_port, binary) is Continue
            &&& polling::step_on_frame(transport, aeron_udp_port, pong) is Continue
            &&& polling::step_on_frame(transport, aeron_udp_port, other) is Continue
            &&& blocking::step_on_frame(binary) is Continue
            &&& blocking::step_on_frame(pong) is Continue
            &&& blocking::step_on_frame(other) is Continue
            &&& step_on_received(has_udp_socket, Received::NotReady) is Continue
            &&& step_on_received(has_udp_socket, Received::Ended) == NegotiationStep::Fail(
                NegotiationError::Ended,
            )
        }),
{
}

/// A reply acknowledges a request exactly where it is of the request's own kind; a refusal
/// carries the server's words, and a reply of another kind is unexpected.
pub proof fn law_replies_acknowledge_their_own_kind(
    operation: ControlOperation,
    reply: ControlReply,
)
    ensures
        reply_result(operation, reply) is Ok <==> match reply {
            ControlReply::Subscribed { .. } => operation == ControlOperation::Subscribe,
            ControlReply::Unsubscribed { .. } => operation == ControlOperation::Unsubscribe,
            ControlReply::Refetched { .. } => operation == ControlOperation::RefetchBbo,
            _ => false,
        },
        reply matches ControlReply::Error { message } ==> reply_result(operation, reply) == Err::<
            (),
            _,
        >(ClientError::Refused(message)),
        reply_result(operation, reply) is Err && !(reply is Error) ==> reply_result(
            operation,
            reply,
        ) == Err::<(), _>(ClientError::UnexpectedReply { operation, reply }),
{
}

/// Waiting for a reply ends with the reply that carries the request's number, and else only
/// where the connection ends or brings something that is no message. Other replies, faults,
/// pings and pongs are kept for later.
pub proof fn law_waits_end_with_the_own_reply(
    request_id: u64,
    operation: ControlOperation,
    text: ReceivedControl,
    payload: Vec<u8>,
    reason: String,
)
    ensures
        ({
            let (step, kept) = awaited(
                request_id,
                operation,
                Received::Frame(ControlFrame::Text(text)),
            );
            &&& text.event matches Some(ControlEvent::StreamError { error }) ==> step is Continue
                && kept == Some(ClientEvent::StreamError(error))
            &&& text.event is None ==> match text.envelope {
                Ok(envelope) => if envelope.request_id == Some(request_id) {
                    step == AwaitStep::Done(reply_result(operation, envelope.reply)) && kept
                        is None
                } else {
                    step is Continue && kept == Some(ClientEvent::Reply(envelope.reply))
                },
                Err(error) => step == AwaitStep::Done(
                    Err::<(), _>(ClientError::InvalidMessage(error)),
                ) && kept is None,
            }
        }),
        awaited(request_id, operation, Received::NotReady) == (
            AwaitStep::Continue,
            None::<ClientEvent>,
        ),
        awaited(request_id, operation, Received::Ended).0 == AwaitStep::Done(
            Err::<(), _>(ClientError::EndedWhileWaiting),
        ),
        awaited(request_id, operation, Received::Frame(ControlFrame::Binary(payload))).0
            == AwaitStep::Done(Err::<(), _>(ClientError::BinaryFrame)),
        awaited(request_id, operation, Received::Frame(ControlFrame::Close(reason))).0
            == AwaitStep::Done(Err::<(), _>(ClientError::ClosedWhileWaiting(reason))),
        awaited(request_id, operation, Received::Frame(ControlFrame::Ping(payload))) == (
            AwaitStep::Pong(payload),
            Some(ClientEvent::Keepalive),
        ),
        awaited(request_id, operation, Received::Frame(ControlFrame::Pong)) == (
            AwaitStep::Continue,
            Some(ClientEvent::Keepalive),
        ),
        awaited(request_id, operation, Received::Frame(ControlFrame::Other)) == (
            AwaitStep::Continue,
            None::<ClientEvent>,
        ),
{
}

/// A text is delivered as the fault that it is, else as the reply that it is, to clients
/// that wait and to clients that poll alike; the latter learn the number as well.
pub proof fn law_texts_are_delivered_as_what_they_are(text: ReceivedControl)
    ensures
        ({
            let received = Received::Frame(ControlFrame::Text(text));
            &&& text.event matches Some(ControlEvent::StreamError { error }) ==> {
                &&& event_of(text) == Ok::<_, ClientError>(ClientEvent::StreamError(error))
                &&& polled(received) == ControlStep::Deliver(ClientEvent::StreamError(error))
                &&& polling::polled(received) == PollStep::Deliver(PollEvent::StreamError(error))
                &&& polling::answered(received) is None
            }
            &&& text.event is None ==> match text.envelope {
                Ok(envelope) => {
                    &&& event_of(text) == Ok::<_, ClientError>(ClientEvent::Reply(envelope.reply))
                    &&& polled(received) == ControlStep::Deliver(ClientEvent::Reply(envelope.reply))
                    &&& polling::polled(received) == PollStep::Deliver(PollEvent::Reply(envelope))
                    &&& polling::answered(received) == envelope.request_id
                },
                Err(reason) => {
                    &&& event_of(text) == Err::<ClientEvent, _>(
                        ClientError::InvalidMessage(reason),
                    )
                    &&& polled(received) == ControlStep::Fail(ClientError::InvalidMessage(reason))
                    &&& polling::polled(received) == PollStep::Fail(
                        ClientError::InvalidMessage(reason),
                    )
                    &&& polling::answered(received) is None
                },
            }
        }),
{
}

/// What else comes over the control connection means the same to clients that wait and to
/// clients that poll.
pub proof fn law_other_frames_mean_the_same(payload: Vec<u8>, reason: String)
    ensures
        polled(Received::Frame(ControlFrame::Ping(payload))) == ControlStep::Pong(payload),
        polling::polled(Received::Frame(ControlFrame::Ping(payload))) == PollStep::Pong(payload),
        polled(Received::Frame(ControlFrame::Pong)) == ControlStep::Deliver(ClientEvent::Keepalive),
        polling::polled(Received::Frame(ControlFrame::Pong)) == PollStep::Deliver(
            PollEvent::Keepalive,
        ),
        polled(Received::Frame(ControlFrame::Binary(payload))) == ControlStep::Fail(
            ClientError::BinaryFrame,
        ),
        polling::polled(Received::Frame(ControlFrame::Binary(payload))) == PollStep::Fail(
            ClientError::BinaryFrame,
        ),
        polled(Received::Frame(ControlFrame::Close(reason))) == ControlStep::Fail(
            ClientError::Closed(reason),
        ),
        polling::polled(Received::Frame(ControlFrame::Close(reason))) == PollStep::Fail(
            ClientError::Closed(reason),
        ),
        polled(Received::Ended) == ControlStep::Fail(ClientError::Ended),
        polling::polled(Received::Ended) == PollStep::Fail(ClientError::Ended),
        polled(Received::NotReady) is Nothing,
        polling::polled(Received::NotReady) is Nothing,
        polled(Received::Frame(ControlFrame::Other)) is Nothing,
        polling::polled(Received::Frame(ControlFrame::Other)) is ReadControl,
{
}

/// A client looks at what it has kept before it looks at the control connection, and at a
/// datagram before that where it has a socket.
pub proof fn law_looks_have_an_order(
    kept: Seq<ClientEvent>,
    has_udp: bool,
    frame: InboundFrame,
    received: Received<ReceivedControl>,
)
    ensures
        kept.len() > 0 ==> looked(kept, ControlLook::Start) == (
            ControlStep::Deliver(kept[0]),
            kept.skip(1),
        ),
        kept.len() == 0 ==> looked(kept, ControlLook::Start) == (ControlStep::ReadControl, kept),
        looked(kept, ControlLook::Received(received)) == (polled(received), kept),
        polling::looked(has_udp, PollLook::Start) is ReadDatagram <==> has_udp,
        polling::looked(has_udp, PollLook::Start) is ReadControl <==> !has_udp,
        polling::looked(has_udp, PollLook::Datagram(Some(frame))) == PollStep::Deliver(
            PollEvent::Data(frame),
        ),
        polling::looked(has_udp, PollLook::Datagram(None)) is ReadControl,
        polling::looked(has_udp, PollLook::Control(received)) == polling::polled(received),
{
    if kept.len() > 0 {
        assert(kept.drop_first() =~= kept.skip(1));
    }
}

/// A client that blocks looks for a datagram first where it has a socket. Data that passes
/// the filter is delivered, other data sends it on to the control connection, and what is
/// no data is delivered as it came.
pub proof fn law_blocking_reads_have_an_order<T>(
    has_udp: bool,
    passes: bool,
    bytes: Vec<u8>,
    frame: ControlFrame<T>,
)
    ensures
        blocking::read_step::<T>(has_udp, ReadLook::Start, passes) is ReadDatagram <==> has_udp,
        blocking::read_step::<T>(has_udp, ReadLook::Start, passes) is ReadControl <==> !has_udp,
        blocking::read_step::<T>(has_udp, ReadLook::Datagram(None), passes) is ReadControl,
        passes ==> blocking::read_step::<T>(has_udp, ReadLook::Datagram(Some(bytes)), passes)
            == ReadStep::<T>::Deliver(ControlFrame::Binary(bytes)),
        passes ==> blocking::read_step::<T>(
            has_udp,
            ReadLook::Control(ControlFrame::Binary(bytes)),
            passes,
        ) == ReadStep::<T>::Deliver(ControlFrame::Binary(bytes)),
        !passes ==> blocking::read_step::<T>(has_udp, ReadLook::Datagram(Some(bytes)), passes)
            is ReadControl && blocking::read_step::<T>(
            has_udp,
            ReadLook::Control(ControlFrame::Binary(bytes)),
            passes,
        ) is ReadControl,
        !(frame is Binary) ==> blocking::read_step(has_udp, ReadLook::Control(frame), passes)
            == ReadStep::<T>::Deliver(frame) && blocking::data_of(ReadLook::Control(frame)) is None,
        blocking::data_of(ReadLook::<T>::Datagram(Some(bytes))) == Some(bytes),
        blocking::data_of(ReadLook::<T>::Control(ControlFrame::Binary(bytes))) == Some(bytes),
        blocking::data_of(ReadLook::<T>::Start) is None,
        blocking::data_of(ReadLook::<T>::Datagram(None)) is None,
{
}

/// Requests are numbered one after the other; after the largest number comes one.
pub proof fn law_requests_are_numbered_in_order(request_id: u64)
    ensures
        request_id < u64::MAX ==> next_id(request_id) == request_id + 1,
        request_id == u64::MAX ==> next_id(request_id) == 1,
{
}

/// A client refuses a request exactly where its transport is not ready or a rule is broken.
pub proof fn law_clients_refuse_for_a_reason(client: Client, request: RequestModel)
    ensures
        client.refusal(request) is None <==> client.transport_ready && request.error() is None,
        !client.transport_ready ==> client.refusal(request) == Some(ClientError::NotReady),
        client.transport_ready && request.error() is Some ==> client.refusal(request) == Some(
            ClientError::Protocol(request.error()->0),
        ),
{
}

/// A connection goes from its handshake to the backend, from there to the session, from
/// there to the backend again, and then it is over. A failure before the session ends it at
/// once with its error; the session's own result is what comes back in the end.
pub proof fn law_connections_go_their_way<E>(
    suggested_id: u64,
    client_id: u64,
    error: E,
    result: Result<(), E>,
    active: Map<u64, Seq<char>>,
    peer: Seq<char>,
)
    ensures
        moved(suggested_id, Phase::<E>::Handshake, ConnectionEvent::Accepted(Ok(()))) == (
            Phase::<E>::Connecting,
            ConnectionAction::<E>::Open { suggested_id },
        ),
        moved(suggested_id, Phase::<E>::Handshake, ConnectionEvent::Accepted(Err(error))) == (
            Phase::<E>::Over,
            ConnectionAction::Return(Err::<(), E>(error)),
        ),
        moved(suggested_id, Phase::<E>::Connecting, ConnectionEvent::Opened(Ok(client_id))) == (
            Phase::<E>::Serving { client_id },
            ConnectionAction::<E>::Serve { client_id },
        ),
        moved(suggested_id, Phase::<E>::Connecting, ConnectionEvent::Opened(Err(error))) == (
            Phase::<E>::Over,
            ConnectionAction::Return(Err::<(), E>(error)),
        ),
        moved(suggested_id, Phase::<E>::Serving { client_id }, ConnectionEvent::Served(result))
            == (
            Phase::Leaving { client_id, result },
            ConnectionAction::<E>::Disconnect { client_id },
        ),
        moved(suggested_id, Phase::Leaving { client_id, result }, ConnectionEvent::Disconnected)
            == (Phase::<E>::Over, ConnectionAction::Return(result)),
        listed(active, peer, Phase::<E>::Connecting, ConnectionEvent::Opened(Ok(client_id)))
            == active.insert(client_id, peer),
        listed(active, peer, Phase::<E>::Serving { client_id }, ConnectionEvent::Served(result))
            == active.remove(client_id),
        listed(active, peer, Phase::<E>::Handshake, ConnectionEvent::Accepted(Err(error)))
            == active,
        listed(active, peer, Phase::<E>::Connecting, ConnectionEvent::Opened(Err(error))) == active,
        expects(Phase::<E>::Handshake, ConnectionEvent::Accepted(Ok(()))),
        expects(Phase::<E>::Connecting, ConnectionEvent::Opened(Ok(client_id))),
        expects(Phase::<E>::Serving { client_id }, ConnectionEvent::Served(result)),
        expects(Phase::Leaving { client_id, result }, ConnectionEvent::Disconnected),
{
}

/// Both kinds of clients that wait, as they are called: the transport is ready once the
/// server has said so, and stays ready; nothing else of the client changes.
pub proof fn law_negotiations_make_clients_ready(
    link: &mut LinkClient,
    waiting: &mut Client,
    transport: TransportReady,
    link_step: NegotiationStep,
    waiting_step: NegotiationStep,
)
    requires
        call_ensures(
            LinkClient::negotiate_transport,
            (
                link,
                Received::Frame(ControlFrame::Text(Ok(ControlReply::TransportReady { transport }))),
            ),
            link_step,
        ),
        call_ensures(
            Client::negotiate_transport,
            (
                waiting,
                Received::Frame(ControlFrame::Text(Ok(ControlReply::TransportReady { transport }))),
            ),
            waiting_step,
        ),
    ensures
        !(transport is Udp) ==> link_step is Ready && waiting_step is Ready
            && final(link).transport_ready && final(waiting).transport_ready,
        transport matches TransportReady::Udp { server_address } ==> {
            &&& final(link).transport_ready == old(link).transport_ready
            &&& final(waiting).transport_ready == old(waiting).transport_ready
            &&& old(link).has_udp_socket ==> link_step == NegotiationStep::ConnectUdp(
                server_address,
            )
            &&& old(waiting).has_udp_socket ==> waiting_step == NegotiationStep::ConnectUdp(
                server_address,
            )
            &&& !old(link).has_udp_socket ==> link_step is Fail
            &&& !old(waiting).has_udp_socket ==> waiting_step is Fail
        },
        final(link).ref_counts == old(link).ref_counts,
        final(waiting).ref_counts == old(waiting).ref_counts,
        final(waiting).pending_events == old(waiting).pending_events,
{
}

/// Sending a request, as it is called: it gets the next number exactly where it is valid and
/// the transport is ready, and the numbers go up by one.
pub proof fn law_send_request_numbers_requests(
    client: &mut Client,
    request: ControlRequest,
    result: Result<ControlRequestEnvelope, ClientError>,
)
    requires
        old(client).wf(),
        call_ensures(Client::send_request, (client, request), result),
    ensures
        result is Ok <==> old(client).transport_ready && request@.error() is None,
        result matches Ok(envelope) ==> envelope.request == request && envelope.request_id
            == old(client).next_request_id && (old(client).next_request_id < u64::MAX
            ==> final(client).next_request_id == old(client).next_request_id + 1),
        result is Err ==> *final(client) == *old(client),
        !old(client).transport_ready ==> result == Err::<ControlRequestEnvelope, _>(
            ClientError::NotReady,
        ),
        final(client).next_request_id > 0,
        final(client).pending_events == old(client).pending_events,
{
}

/// The same of a client that polls, whose transport is ready; a request is pending only once
/// it was sent.
pub proof fn law_polling_clients_number_requests(
    client: &mut PollingClient,
    request: ControlRequest,
    result: Result<ControlRequestEnvelope, ProtocolError>,
    sent: &mut PollingClient,
    request_id: u64,
    other: u64,
)
    requires
        old(client).wf(),
        old(sent).wf(),
        call_ensures(PollingClient::send_request, (client, request), result),
        call_ensures(PollingClient::request_sent, (sent, request_id), ()),
        other != request_id,
    ensures
        result is Ok <==> request@.error() is None,
        result matches Ok(envelope) ==> envelope.request == request && envelope.request_id
            == old(client).next_request_id && (old(client).next_request_id < u64::MAX
            ==> final(client).next_request_id == old(client).next_request_id + 1),
        final(client).pending_requests@ == old(client).pending_requests@,
        final(sent).pending_requests@.contains(request_id),
        final(sent).pending_requests@.contains(other) == old(sent).pending_requests@.contains(
            other,
        ),
        final(sent).next_request_id == old(sent).next_request_id,
{
}

/// A reply, as a client that waits takes it in: the one with the request's number ends the
/// wait, any other is kept as the last of what is to be handed out later.
pub proof fn law_await_request_reply_keeps_other_replies(
    client: &mut Client,
    request_id: u64,
    operation: ControlOperation,
    envelope: ControlReplyEnvelope,
    step: AwaitStep,
)
    requires
        old(client).wf(),
        call_ensures(
            Client::await_request_reply,
            (
                client,
                request_id,
                operation,
                Received::Frame(
                    ControlFrame::Text(ReceivedControl { event: None, envelope: Ok(envelope) }),
                ),
            ),
            step,
        ),
    ensures
        envelope.request_id == Some(request_id) ==> step is Done && final(client).pending_events@
            == old(client).pending_events@,
        envelope.request_id == Some(request_id) && envelope.reply is Subscribed && operation
            == ControlOperation::Subscribe ==> step == AwaitStep::Done(Ok::<(), ClientError>(())),
        envelope.request_id == Some(request_id) ==> (envelope.reply matches ControlReply::Error {
            message,
        } ==> step == AwaitStep::Done(Err::<(), _>(ClientError::Refused(message)))),
        envelope.request_id != Some(request_id) ==> step is Continue
            && final(client).pending_events@
            == old(client).pending_events@.push(ClientEvent::Reply(envelope.reply)),
        final(client).ref_counts == old(client).ref_counts,
        final(client).next_request_id == old(client).next_request_id,
{
}

/// Looking for an event, as it is called: what was kept comes out oldest first, and only
/// where nothing was kept is the control connection looked at.
pub proof fn law_poll_control_hands_out_kept_events(
    client: &mut Client,
    step: ControlStep,
)
    requires
        old(client).wf(),
        call_ensures(Client::poll_control, (client, ControlLook::Start), step),
    ensures
        old(client).pending_events@.len() > 0 ==> step == ControlStep::Deliver(
            old(client).pending_events@[0],
        ) && final(client).pending_events@ == old(client).pending_events@.skip(1),
        old(client).pending_events@.len() == 0 ==> step is ReadControl
            && final(client).pending_events@ == old(client).pending_events@,
{
    law_looks_have_an_order(
        old(client).pending_events@,
        true,
        arbitrary(),
        Received::NotReady,
    );
}

/// A look at the control connection, as a client that polls takes it in: a reply comes out
/// with its number and ends the wait for that request alone.
pub proof fn law_poll_delivers_replies(
    client: &mut PollingClient,
    envelope: ControlReplyEnvelope,
    step: PollStep,
    other: u64,
)
    requires
        old(client).wf(),
        call_ensures(
            PollingClient::poll,
            (
                client,
                PollLook::Control(
                    Received::Frame(
                        ControlFrame::Text(ReceivedControl { event: None, envelope: Ok(envelope) }),
                    ),
                ),
            ),
            step,
        ),
    ensures
        step == PollStep::Deliver(PollEvent::Reply(envelope)),
        final(client).pending_requests@.contains(other)
            <==> old(client).pending_requests@.contains(other)
            && envelope.request_id != Some(other),
        final(client).has_udp == old(client).has_udp,
{
}

/// A datagram, as a client that polls takes it in, comes out as it is and changes nothing.
pub proof fn law_poll_delivers_datagrams(
    client: &mut PollingClient,
    frame: InboundFrame,
    step: PollStep,
)
    requires
        old(client).wf(),
        call_ensures(PollingClient::poll, (client, PollLook::Datagram(Some(frame))), step),
    ensures
        step == PollStep::Deliver(PollEvent::Data(frame)),
        *final(client) == *old(client),
{
}

/// The end of a session, as a connection takes it in: the backend is told of that very
/// session, which is listed no longer, and everyone else stays listed.
pub proof fn law_step_ends_sessions<E>(
    connection: &mut Connection<E>,
    active: &mut ActiveClients,
    client_id: u64,
    result: Result<(), E>,
    action: ConnectionAction<E>,
    other: u64,
)
    requires
        old(connection).phase == (Phase::<E>::Serving { client_id }),
        old(active).wf(),
        call_ensures(
            Connection::<E>::step,
            (connection, ConnectionEvent::Served(result), active),
            action,
        ),
        other != client_id,
    ensures
        action == (ConnectionAction::<E>::Disconnect { client_id }),
        final(connection).phase == (Phase::Leaving { client_id, result }),
        !final(active)@.contains_key(client_id),
        final(active)@.contains_key(other) <==> old(active)@.contains_key(other),
        old(active)@.contains_key(other) ==> final(active)@[other] == old(active)@[other],
{
}

/// An opened session, as a connection takes it in: it is served under the number that the
/// backend gave, and listed with the client's address.
pub proof fn law_step_opens_sessions<E>(
    connection: &mut Connection<E>,
    active: &mut ActiveClients,
    client_id: u64,
    action: ConnectionAction<E>,
    other: u64,
)
    requires
        old(connection).phase is Connecting,
        old(active).wf(),
        call_ensures(
            Connection::<E>::step,
            (connection, ConnectionEvent::Opened(Ok(client_id)), active),
            action,
        ),
        other != client_id,
    ensures
        action == (ConnectionAction::<E>::Serve { client_id }),
        final(active)@.contains_key(client_id),
        final(active)@[client_id] == old(connection).peer@,
        final(active)@.contains_key(other) <==> old(active)@.contains_key(other),
        old(active)@.contains_key(other) ==> final(active)@[other] == old(active)@[other],
{
}

/// Addresses, as they are asked for: a scheme is taken off for the socket and put on for the
/// URI.
pub proof fn law_addresses_lose_and_gain_schemes(
    address: &str,
    rest: Seq<char>,
    target: &str,
    uri: String,
)
    requires
        call_ensures(socket_target, (address,), target),
        call_ensures(control_uri, (address,), uri),
    ensures
        address@ == "ws://"@ + rest || address@ == "wss://"@ + rest ==> target@ == rest && uri@
            == address@,
        !starts_with(address@, "ws://"@) && !starts_with(address@, "wss://"@) ==> target@
            == address@ && uri@ == "ws://"@ + address@,
{
    law_schemes_are_taken_off(rest);
}

/// A transport is refused for want of Aeron exactly where it is an Aeron stream and Aeron is
/// not enabled.
pub proof fn law_aeron_has_to_be_enabled(
    transport: &ClientTransportConfig,
    plain: crate::client::ClientTransportConfig,
    aeron_enabled: bool,
    checked: Result<(), NegotiationError>,
    prepared: Result<Preparations, NegotiationError>,
)
    requires
        call_ensures(check_aeron, (transport, aeron_enabled), checked),
        call_ensures(prepare, (plain, aeron_enabled), prepared),
    ensures
        checked is Err <==> (transport is AeronIpc || transport is AeronUdp) && !aeron_enabled,
        prepared is Err <==> (plain is AeronIpc || plain is AeronUdp) && !aeron_enabled,
        checked is Err ==> checked->Err_0 is AeronDisabled,
        prepared is Err ==> prepared->Err_0 is AeronDisabled,
        prepared matches Ok(needs) ==> {
            &&& needs.udp_socket <==> plain is Udp
            &&& needs.aeron_udp_stream is Some <==> plain is AeronUdp
        },
{
}

/// The port of a wildcard subscription, as it is waited for: a port ends the wait, a fault
/// ends it, and five seconds without either end it too.
pub proof fn law_ports_are_waited_for_five_seconds(
    resolved: Result<Option<u16>, EndpointError>,
    started_at: u128,
    now: u128,
    step: ResolveStep,
)
    requires
        call_ensures(next_resolve_step, (resolved, started_at, now), step),
    ensures
        resolved matches Ok(Some(port)) ==> step == ResolveStep::Done(port),
        resolved matches Err(error) ==> step == ResolveStep::Failed(error),
        resolved == Ok::<Option<u16>, EndpointError>(None) ==> {
            &&& step is TimedOut <==> now >= started_at + 5_000_000_000
            &&& step is Retry <==> now < started_at + 5_000_000_000
        },
{
}

/// The endpoint of a channel, as it is asked for, is that of its own notation.
pub proof fn law_endpoints_are_found_in_channels(
    channel: &AeronChannel,
    text: String,
    uri: &str,
    endpoint: Option<&str>,
)
    requires
        call_ensures(AeronChannel::to_channel_string, (channel,), text),
        uri@ == text@,
        call_ensures(endpoint_parameter, (uri,), endpoint),
        channel matches AeronChannel::Udp { host, .. } ==> !host@.contains('|'),
    ensures
        endpoint is Some <==> channel is Udp,
        channel matches AeronChannel::Udp { host, port } ==> endpoint is Some && endpoint->0@
            == host@ + ":"@ + decimal(*port as nat),
{
    match channel {
        AeronChannel::Ipc => {
            law_channels_show_their_endpoint(Seq::empty(), 0);
        },
        AeronChannel::Udp { host, port } => {
            law_channels_show_their_endpoint(host@, *port);
        },
    }
}

/// Settings that nothing else is said of leave Aeron off and ping after thirty seconds.
pub proof fn law_settings_start_without_aeron(
    endpoint: ControlEndpoint,
    transport: crate::client::ClientTransportConfig,
    config: ClientConfig,
)
    requires
        call_ensures(ClientConfig::new, (endpoint, transport), config),
    ensures
        config.endpoint == endpoint,
        config.transport == transport,
        !config.aeron_enabled,
        config.keepalive_interval == 30_000_000_000,
{
}

/// Choosing a transport, as it is called by each kind of client: everyone asks for what they
/// are set to, with the port that they receive at.
pub proof fn law_select_transport_asks_for_the_setting(
    transport: &ClientTransportConfig,
    plain: crate::client::ClientTransportConfig,
    udp_port: Option<u16>,
    aeron_udp_port: Option<u16>,
    addressed: Result<TransportSelection, NegotiationError>,
    waiting: Result<client_messages::TransportSelection, NegotiationError>,
    polls: Result<client_messages::TransportSelection, NegotiationError>,
)
    requires
        call_ensures(select_transport, (transport, udp_port), addressed),
        call_ensures(
            crate::client::select_transport,
            (plain, udp_port, aeron_udp_port),
            waiting,
        ),
        call_ensures(polling::select_transport, (plain, udp_port, aeron_udp_port), polls),
    ensures
        addressed is Err <==> transport is Udp && udp_port is None,
        addressed matches Ok(selection) ==> match transport {
            ClientTransportConfig::WebSocket => selection@ is WebSocket,
            ClientTransportConfig::Udp => selection@ == (SelectionModel::Udp {
                client_port: udp_port->0,
            }),
            ClientTransportConfig::AeronIpc { stream_id } => selection@ == (
            SelectionModel::AeronIpc { stream_id: *stream_id }),
            ClientTransportConfig::AeronUdp { endpoint, stream_id } => selection@ == (
            SelectionModel::AeronUdp { endpoint: endpoint@, stream_id: *stream_id }),
        },
        waiting is Err <==> (plain is Udp && udp_port is None) || (plain is AeronUdp
            && aeron_udp_port is None),
        polls is Err <==> waiting is Err,
        waiting matches Ok(selection) ==> polls == waiting && match plain {
            crate::client::ClientTransportConfig::Udp => selection == (
            client_messages::TransportSelection::Udp { client_port: udp_port->0 }),
            crate::client::ClientTransportConfig::AeronIpc { stream_id } => selection == (
            client_messages::TransportSelection::AeronIpc { stream_id }),
            crate::client::ClientTransportConfig::AeronUdp { stream_id } => selection == (
            client_messages::TransportSelection::AeronUdp {
                client_port: aeron_udp_port->0,
                stream_id,
            }),
        },
{
    law_clients_ask_for_their_transport(transport@, udp_port);
}

/// The same of a client that blocks, which has its socket before it asks.
pub proof fn law_blocking_clients_ask_for_the_setting(
    transport: &ClientTransportConfig,
    udp_port: Option<u16>,
    selection: TransportSelection,
)
    requires
        transport is Udp ==> udp_port is Some,
        call_ensures(blocking::select_transport, (transport, udp_port), selection),
    ensures
        match transport {
            ClientTransportConfig::WebSocket => selection@ is WebSocket,
            ClientTransportConfig::Udp => selection@ == (SelectionModel::Udp {
                client_port: udp_port->0,
            }),
            ClientTransportConfig::AeronIpc { stream_id } => selection@ == (
            SelectionModel::AeronIpc { stream_id: *stream_id }),
            ClientTransportConfig::AeronUdp { endpoint, stream_id } => selection@ == (
            SelectionModel::AeronUdp { endpoint: endpoint@, stream_id: *stream_id }),
        },
{
}

/// A server's word on a transport, as each kind of client takes it in: a client that polls
/// takes only what it asked for, a client that blocks takes what it gets.
pub proof fn law_negotiation_steps_follow_the_server(
    plain: crate::client::ClientTransportConfig,
    aeron_udp_port: Option<u16>,
    ready: TransportReady,
    polls: NegotiationStep,
    blocks: NegotiationStep,
)
    requires
        call_ensures(
            polling::negotiation_step,
            (
                plain,
                aeron_udp_port,
                ControlFrame::Text(Ok(ControlReply::TransportReady { transport: ready })),
            ),
            polls,
        ),
        call_ensures(
            blocking::negotiation_step,
            (ControlFrame::Text(Ok(ControlReply::TransportReady { transport: ready })),),
            blocks,
        ),
    ensures
        polls is Ready <==> match ready {
            TransportReady::AeronIpc { stream_id } => plain == (
            crate::client::ClientTransportConfig::AeronIpc { stream_id }),
            TransportReady::AeronUdp { endpoint, stream_id } => plain == (
            crate::client::ClientTransportConfig::AeronUdp { stream_id }) && aeron_udp_port
                == Some(endpoint.port),
            _ => false,
        },
        polls is ConnectUdp <==> plain is Udp && ready is Udp,
        blocks is Ready <==> !(ready is Udp),
        ready matches TransportReady::Udp { server_address } ==> blocks
            == NegotiationStep::ConnectUdp(server_address) && (plain is Udp ==> polls
            == NegotiationStep::ConnectUdp(server_address)),
{
    law_polling_clients_take_what_they_asked_for(plain, aeron_udp_port, ready);
}

/// A reply, as it is judged: it acknowledges a request of its own kind only.
pub proof fn law_validate_request_reply_judges_kinds(
    operation: ControlOperation,
    reply: ControlReply,
    result: Result<(), ClientError>,
)
    requires
        call_ensures(validate_request_reply, (operation, reply), result),
    ensures
        result is Ok <==> match reply {
            ControlReply::Subscribed { .. } => operation == ControlOperation::Subscribe,
            ControlReply::Unsubscribed { .. } => operation == ControlOperation::Unsubscribe,
            ControlReply::Refetched { .. } => operation == ControlOperation::RefetchBbo,
            _ => false,
        },
        reply matches ControlReply::Error { message } ==> result == Err::<(), _>(
            ClientError::Refused(message),
        ),
{
}

/// A text, as it is read: a fault counts before a reply.
pub proof fn law_parse_client_event_reads_faults_first(
    text: ReceivedControl,
    result: Result<ClientEvent, ClientError>,
)
    requires
        call_ensures(parse_client_event, (text,), result),
    ensures
        text.event matches Some(ControlEvent::StreamError { error }) ==> result == Ok::<
            _,
            ClientError,
        >(ClientEvent::StreamError(error)),
        text.event is None ==> match text.envelope {
            Ok(envelope) => result == Ok::<_, ClientError>(ClientEvent::Reply(envelope.reply)),
            Err(reason) => result == Err::<ClientEvent, _>(ClientError::InvalidMessage(reason)),
        },
{
}

/// What it takes to connect, as it is asked: the address with its scheme, and what the
/// transport needs.
pub proof fn law_plan_connection_prepares_the_transport(
    address: &str,
    transport: crate::client::ClientTransportConfig,
    aeron_enabled: bool,
    result: Result<polling::PollingPlan, NegotiationError>,
)
    requires
        call_ensures(polling::plan_connection, (address, transport, aeron_enabled), result),
    ensures
        result is Err <==> (transport is AeronIpc || transport is AeronUdp) && !aeron_enabled,
        result matches Ok(plan) ==> {
            &&& plan.preparations.udp_socket <==> transport is Udp
            &&& plan.preparations.aeron_udp_stream is Some <==> transport is AeronUdp
            &&& !starts_with(address@, "ws://"@) && !starts_with(address@, "wss://"@)
                ==> plan.uri@ == "ws://"@ + address@
            &&& starts_with(address@, "ws://"@) || starts_with(address@, "wss://"@)
                ==> plan.uri@ == address@
        },
{
}

/// A socket address, as it is looked up: what is parsed is the address without its scheme,
/// and an address that is none is named whole in the error.
pub proof fn law_connect_target_parses_without_scheme<A, P: Fn(&str) -> Option<A>>(
    address: &str,
    parse: &P,
    result: Result<A, NegotiationError>,
    rest: Seq<char>,
)
    requires
        call_ensures(connect_target::<A, P>, (address, parse), result),
        address@ == "ws://"@ + rest || address@ == "wss://"@ + rest || (address@ == rest
            && !starts_with(rest, "ws://"@) && !starts_with(rest, "wss://"@)),
    ensures
        exists|target: &str, parsed: Option<A>|
            {
                &&& target@ == rest
                &&& #[trigger] call_ensures(*parse, (target,), parsed)
                &&& parsed is Some <==> result is Ok
                &&& parsed matches Some(socket) ==> result->Ok_0 == socket
            },
        result matches Err(error) ==> (error matches NegotiationError::InvalidAddress(text)
            && text@ == address@),
{
    law_schemes_are_taken_off(rest);
    let (target, parsed) = choose|target: &str, parsed: Option<A>|
        {
            &&& target@ == socket_target_text(address@)
            &&& #[trigger] call_ensures(*parse, (target,), parsed)
            &&& match parsed {
                Some(socket) => result == Ok::<A, NegotiationError>(socket),
                None => result matches Err(NegotiationError::InvalidAddress(text)) && text@
                    == address@,
            }
        };
    assert(call_ensures(*parse, (target,), parsed));
}

/// The port of a channel, as it is looked up: none where the channel names no endpoint, an
/// error where the endpoint is no address, and port 0 means that there is none yet.
pub proof fn law_resolved_ports_are_not_zero<P: Fn(&str) -> Option<u16>>(
    channel_uri: &str,
    parse_port: &P,
    result: Result<Option<u16>, EndpointError>,
)
    requires
        call_ensures(resolved_endpoint_port::<P>, (channel_uri, parse_port), result),
    ensures
        result != Ok::<Option<u16>, EndpointError>(Some(0)),
        endpoint_in(parameters(channel_uri@)) is None <==> result == Err::<Option<u16>, _>(
            EndpointError::Missing,
        ),
        result matches Ok(Some(port)) ==> exists|text: &str|
            text@ == endpoint_in(parameters(channel_uri@))->0 && #[trigger] call_ensures(
                *parse_port,
                (text,),
                Some(port),
            ),
{
}

/// A session, as it begins and as it is asked, knows both ends, takes data until an Aeron
/// stream carries it, and adds the client's own host to a port.
pub proof fn law_sessions_know_both_ends(
    peer_host: &str,
    local_host: &str,
    aeron_enabled: bool,
    begun: Session,
    session: &Session,
    takes: bool,
    client_port: u16,
    stream_id: i32,
    selected: TransportSelection,
)
    requires
        call_ensures(Session::new, (peer_host, local_host, aeron_enabled), begun),
        call_ensures(Session::takes_data, (session,), takes),
        call_ensures(
            Session::addressed,
            (session, client_messages::TransportSelection::AeronUdp { client_port, stream_id }),
            selected,
        ),
    ensures
        begun.peer_host@ == peer_host@,
        begun.local_host@ == local_host@,
        begun.aeron_enabled == aeron_enabled,
        !begun.transport_ready && !begun.external_data_plane && begun.udp_target is None,
        takes <==> !session.external_data_plane,
        selected@ == (SelectionModel::AeronUdp {
            endpoint: AddressModel { host: session.peer_host@, port: client_port },
            stream_id,
        }),
{
    assert(begun@.udp_target is None);
}

/// The Aeron stream of a transport, as it is asked for: there is one exactly for Aeron, and it
/// has the stream and the endpoint of the setting.
pub proof fn law_aeron_config_is_the_setting(
    transport: &ClientTransportConfig,
    selection: &TransportSelection,
    is_aeron: bool,
    config: Option<AeronConfig>,
    selected: Option<AeronConfig>,
)
    requires
        call_ensures(ClientTransportConfig::is_aeron, (transport,), is_aeron),
        call_ensures(ClientTransportConfig::aeron_config, (transport,), config),
        call_ensures(TransportSelection::aeron_config, (selection,), selected),
    ensures
        is_aeron <==> transport is AeronIpc || transport is AeronUdp,
        config is Some <==> is_aeron,
        selected is Some <==> selection is AeronIpc || selection is AeronUdp,
        transport matches ClientTransportConfig::AeronIpc { stream_id } ==> config is Some
            && config->0.stream_id == *stream_id && config->0.aeron_channel@ is Ipc,
        transport matches ClientTransportConfig::AeronUdp { endpoint, stream_id } ==> config is Some
            && config->0.stream_id == *stream_id && config->0.aeron_channel@ == (
        ChannelModel::Udp { host: endpoint.host@, port: endpoint.port }),
        selection matches TransportSelection::AeronIpc { stream_id } ==> selected is Some
            && selected->0.stream_id == *stream_id && selected->0.aeron_channel@ is Ipc,
        selection matches TransportSelection::AeronUdp { endpoint, stream_id } ==> selected is Some
            && selected->0.stream_id == *stream_id && selected->0.aeron_channel@ == (
        ChannelModel::Udp { host: endpoint.host@, port: endpoint.port }),
{
    if config is Some {
        assert(config->0@ == transport@.aeron_config()->0);
    }
    if selected is Some {
        assert(selected->0@ == selection@.aeron_config()->0);
    }
}

/// What clients and negotiations say when they fail.
pub proof fn law_client_errors_say_why(
    error: &ClientError,
    negotiation: &NegotiationError,
    shown: &str,
    message: String,
    negotiation_message: String,
)
    requires
        call_ensures(ClientError::message, (error, shown), message),
        call_ensures(NegotiationError::message, (negotiation, shown), negotiation_message),
    ensures
        error is AeronDisabled ==> message@
            == "Aeron transport selected while [aeron].enabled is false"@,
        error is NotReady ==> message@ == "data transport is not ready"@,
        error is Ended ==> message@ == "control WebSocket closed"@,
        error is EndedWhileWaiting ==> message@
            == "control WebSocket closed while awaiting request acknowledgement"@,
        error is BinaryFrame ==> message@
            == "binary frames are not allowed on the control WebSocket"@,
        error is InvalidMessage ==> message@ == "invalid control WebSocket message"@,
        error matches ClientError::Closed(reason) ==> message@ == "control WebSocket closed: "@
            + reason@,
        error matches ClientError::ClosedWhileWaiting(reason) ==> message@
            == "control WebSocket closed while awaiting request acknowledgement: "@ + reason@,
        error matches ClientError::Refused(text) ==> message@ == text@,
        negotiation is AeronDisabled ==> negotiation_message@
            == "Aeron transport selected while [aeron].enabled is false"@,
        negotiation is UdpNotInitialized ==> negotiation_message@
            == "UDP socket was not initialized"@,
        negotiation is UdpNotPrepared ==> negotiation_message@ == "UDP socket was not prepared"@,
        negotiation is AeronNotPrepared ==> negotiation_message@
            == "Aeron UDP subscription endpoint was not prepared"@,
        negotiation is UdpWithoutSocket ==> negotiation_message@
            == "server selected UDP without a client socket"@,
        negotiation is Ended ==> negotiation_message@
            == "control WebSocket closed during transport negotiation"@,
        negotiation matches NegotiationError::Closed(reason) ==> negotiation_message@
            == "control WebSocket closed during negotiation: "@ + reason@,
        negotiation matches NegotiationError::Refused(text) ==> negotiation_message@ == text@,
        negotiation matches NegotiationError::InvalidAddress(address) ==> negotiation_message@
            == "invalid socket address "@ + address@,
{
}

} // verus!
