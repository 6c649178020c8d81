use market_data_link::blocking::{self, BlockingLink, ReadLook, ReadStep};
use market_data_link::client::polling::{self, PollEvent, PollLook, PollStep};
use market_data_link::client::{
    self, parse_client_event, prepare, validate_request_reply, AwaitStep, Client, ClientConfig,
    ClientError, ClientEvent, ControlLook, Preparations, ReceivedControl,
};
use market_data_link::client_messages;
use market_data_link::codec::Trade;
use market_data_link::connection::{
    ActiveClients, Connection, ConnectionAction, ConnectionEvent,
};
use market_data_link::float64::Float64;
use market_data_link::link_client::{
    self, ControlStep, LinkClient, LinkClientConfig, LinkError, ReceivedText,
    DEFAULT_KEEPALIVE_INTERVAL,
};
use market_data_link::negotiation::{
    check_aeron, connect_target, control_uri, negotiation_step, plan_connection, select_transport, socket_target,
    NegotiationError, NegotiationStep,
};
use market_data_link::protocol::{
    ClientTransportConfig, ControlOperation, ControlReply, ControlReplyEnvelope, ControlRequest,
    ProtocolError, SelectTransport, SocketAddress, SubscriptionArg, SubscriptionKey,
    TransportReady, TransportSelection,
};
use market_data_link::ref_counts::RefCounts;
use market_data_link::server::SessionControl;
use market_data_link::server_messages::{ControlEvent, StreamError};
use market_data_link::session::{Session, SessionAction, SessionEvent};
use market_data_link::transport::{ControlEndpoint, ControlFrame, InboundFrame, Received};

fn number(value: f64) -> Float64 {
    Float64::from_bits(value.to_bits())
}

fn reaches(_previous: Float64, _current: Float64, _threshold_bps: Float64) -> bool {
    false
}

fn trade(market_id: i32) -> Vec<u8> {
    Trade {
        market_id,
        timestamp_mdp_in: 1,
        price: number(10.0),
        quantity: number(1.0),
        side: 1,
        event_id: 4,
        ts_mono_mdp_out: 5,
    }
    .encode_le()
    .to_vec()
}

fn subscribe(id: i32, stream: &str) -> ControlRequest {
    ControlRequest::subscribe(vec![SubscriptionArg::new(vec![id], stream)])
}

fn selection(transport: TransportSelection) -> SessionEvent {
    SessionEvent::Text {
        selection: Some(SelectTransport::new(transport)),
        request_id: None,
        request: Err("missing field `args`".to_string()),
    }
}

fn request(request_id: Option<u64>, request: ControlRequest) -> SessionEvent {
    SessionEvent::Text { selection: None, request_id, request: Ok(request) }
}

fn reply(request_id: Option<u64>, reply: ControlReply) -> SessionAction {
    SessionAction::Reply(ControlReplyEnvelope::new(request_id, reply))
}

fn refusal(request_id: Option<u64>, message: &str) -> SessionAction {
    reply(request_id, ControlReply::error(message))
}

// Sessions.

#[test]
fn sessions_over_the_control_connection_send_binary_frames() {
    let mut session = Session::new("10.0.0.7", "10.0.0.1", false);
    assert_eq!(
        session.step(selection(TransportSelection::WebSocket)),
        reply(None, ControlReply::TransportReady { transport: TransportReady::WebSocket })
    );
    assert!(session.takes_data());
    assert_eq!(
        session.step(SessionEvent::Outbound(Some(vec![1, 2]))),
        SessionAction::SendBinary(vec![1, 2])
    );
    assert_eq!(
        session.step(selection(TransportSelection::WebSocket)),
        refusal(None, "transport has already been selected")
    );
}

#[test]
fn sessions_announce_the_udp_port_of_the_server() {
    let mut session = Session::new("10.0.0.7", "10.0.0.1", false);
    assert_eq!(
        session.step(selection(TransportSelection::Udp { client_port: 0 })),
        refusal(None, "UDP client port must be non-zero")
    );
    assert_eq!(
        session.step(selection(TransportSelection::Udp { client_port: 4000 })),
        SessionAction::BindUdp
    );
    assert_eq!(
        session.step(SessionEvent::UdpBound { port: 5000 }),
        reply(
            None,
            ControlReply::TransportReady {
                transport: TransportReady::Udp {
                    server_address: SocketAddress::new("10.0.0.1", 5000),
                },
            },
        )
    );
    assert_eq!(
        session.step(SessionEvent::Outbound(Some(vec![3]))),
        SessionAction::SendDatagram {
            target: SocketAddress::new("10.0.0.7", 4000),
            data: vec![3],
        }
    );
}

#[test]
fn sessions_may_choose_again_after_a_refused_aeron_stream() {
    let mut session = Session::new("10.0.0.7", "10.0.0.1", true);
    assert!(matches!(
        session.step(selection(TransportSelection::AeronIpc { stream_id: 9 })),
        SessionAction::ConfigureAeron(_)
    ));
    assert_eq!(
        session.step(SessionEvent::AeronConfigured { result: Err("no driver".to_string()) }),
        refusal(None, "no driver")
    );
    assert_eq!(
        session.step(selection(TransportSelection::WebSocket)),
        reply(None, ControlReply::TransportReady { transport: TransportReady::WebSocket })
    );
}

#[test]
fn sessions_refuse_what_breaks_a_rule() {
    let mut session = Session::new("10.0.0.7", "10.0.0.1", false);
    assert_eq!(
        session.step(SessionEvent::Text {
            selection: None,
            request_id: None,
            request: Err("expected value at line 1 column 1".to_string()),
        }),
        refusal(None, "invalid control request: expected value at line 1 column 1")
    );
    assert_eq!(
        session.step(request(Some(5), ControlRequest::subscribe(Vec::new()))),
        refusal(Some(5), "control request args cannot be empty")
    );
    assert_eq!(
        session.step(request(Some(6), subscribe(42, "bbo"))),
        refusal(Some(6), "select_transport must succeed before subscriptions")
    );
    assert_eq!(
        session.step(selection(TransportSelection::AeronIpc { stream_id: 9 })),
        refusal(None, "Aeron transport selected while [aeron].enabled is false")
    );
    assert_eq!(
        session.step(SessionEvent::Binary),
        refusal(None, "binary client messages are unsupported")
    );
}

#[test]
fn sessions_pass_the_backends_answers_on() {
    let mut session = Session::new("10.0.0.7", "10.0.0.1", false);
    session.step(selection(TransportSelection::WebSocket));
    let asked = subscribe(42, "bbo");
    assert_eq!(
        session.step(request(Some(7), asked.clone())),
        SessionAction::Request(asked.clone())
    );
    assert_eq!(
        session.step(SessionEvent::BackendReplied { result: Ok(ControlReply::for_request(&asked)) }),
        reply(Some(7), ControlReply::Subscribed { args: asked.args.clone() })
    );
    session.step(request(None, asked));
    assert_eq!(
        session.step(SessionEvent::BackendReplied { result: Err("unknown market".to_string()) }),
        refusal(None, "unknown market")
    );
}

#[test]
fn sessions_follow_their_backend_and_their_connection() {
    let mut session = Session::new("10.0.0.7", "10.0.0.1", false);
    assert_eq!(
        session.step(SessionEvent::Control(Some(SessionControl::Error("late".to_string())))),
        refusal(None, "late")
    );
    assert_eq!(
        session.step(SessionEvent::Ping(vec![8])),
        SessionAction::Pong(vec![8])
    );
    assert_eq!(session.step(SessionEvent::Pong), SessionAction::Ignore);
    assert_eq!(session.step(SessionEvent::OtherFrame), SessionAction::Ignore);
    assert_eq!(
        session.step(SessionEvent::Control(Some(SessionControl::Close))),
        SessionAction::Stop
    );
    assert_eq!(session.step(SessionEvent::Control(None)), SessionAction::Stop);
    assert_eq!(session.step(SessionEvent::Outbound(None)), SessionAction::Stop);
    assert_eq!(session.step(SessionEvent::Close), SessionAction::Stop);
    assert_eq!(session.step(SessionEvent::Ended), SessionAction::Stop);
}

// Negotiation.

#[test]
fn addresses_have_a_target_and_a_uri() {
    assert_eq!(socket_target("ws://127.0.0.1:9000"), "127.0.0.1:9000");
    assert_eq!(socket_target("wss://127.0.0.1:9000"), "127.0.0.1:9000");
    assert_eq!(socket_target("127.0.0.1:9000"), "127.0.0.1:9000");
    assert_eq!(control_uri("ws://127.0.0.1:9000"), "ws://127.0.0.1:9000");
    assert_eq!(control_uri("wss://127.0.0.1:9000"), "wss://127.0.0.1:9000");
    assert_eq!(control_uri("127.0.0.1:9000"), "ws://127.0.0.1:9000");
}

#[test]
fn transports_are_asked_for_as_configured() {
    assert_eq!(
        select_transport(&ClientTransportConfig::WebSocket, None),
        Ok(TransportSelection::WebSocket)
    );
    assert_eq!(
        select_transport(&ClientTransportConfig::Udp, Some(4000)),
        Ok(TransportSelection::Udp { client_port: 4000 })
    );
    assert_eq!(
        select_transport(&ClientTransportConfig::Udp, None),
        Err(NegotiationError::UdpNotInitialized)
    );
    let endpoint = SocketAddress::new("10.0.0.7", 4000);
    assert_eq!(
        select_transport(
            &ClientTransportConfig::AeronUdp { endpoint: endpoint.clone(), stream_id: 3 },
            None,
        ),
        Ok(TransportSelection::AeronUdp { endpoint, stream_id: 3 })
    );
    assert_eq!(check_aeron(&ClientTransportConfig::Udp, false), Ok(()));
    assert_eq!(
        check_aeron(&ClientTransportConfig::AeronIpc { stream_id: 1 }, false),
        Err(NegotiationError::AeronDisabled)
    );
    assert_eq!(check_aeron(&ClientTransportConfig::AeronIpc { stream_id: 1 }, true), Ok(()));
}

#[test]
fn connections_are_planned_before_they_are_opened() {
    let plan = plan_connection("127.0.0.1:9000", &ClientTransportConfig::Udp, false).unwrap();
    assert_eq!(plan.uri, "ws://127.0.0.1:9000");
    assert!(plan.needs_udp_socket);
    assert!(!plan_connection("127.0.0.1:9000", &ClientTransportConfig::WebSocket, false)
        .unwrap()
        .needs_udp_socket);
    assert_eq!(
        plan_connection("127.0.0.1:9000", &ClientTransportConfig::AeronIpc { stream_id: 1 }, false)
            .err(),
        Some(NegotiationError::AeronDisabled)
    );
}

#[test]
fn negotiations_end_as_the_server_says() {
    let text = |reply| Received::Frame(ControlFrame::Text(reply));
    assert_eq!(negotiation_step(false, Received::NotReady), NegotiationStep::Continue);
    assert_eq!(
        negotiation_step(false, Received::Frame(ControlFrame::Binary(vec![1]))),
        NegotiationStep::Continue
    );
    assert_eq!(
        negotiation_step(false, Received::Frame(ControlFrame::Ping(vec![1]))),
        NegotiationStep::Pong(vec![1])
    );
    assert_eq!(
        negotiation_step(
            false,
            text(Ok(ControlReply::TransportReady { transport: TransportReady::WebSocket })),
        ),
        NegotiationStep::Ready
    );
    let address = SocketAddress::new("10.0.0.1", 5000);
    let udp = || {
        text(Ok(ControlReply::TransportReady {
            transport: TransportReady::Udp { server_address: SocketAddress::new("10.0.0.1", 5000) },
        }))
    };
    assert_eq!(negotiation_step(true, udp()), NegotiationStep::ConnectUdp(address));

    let failures = vec![
        (negotiation_step(false, udp()), "server selected UDP without a client socket"),
        (
            negotiation_step(false, Received::Ended),
            "control WebSocket closed during transport negotiation",
        ),
        (
            negotiation_step(false, Received::Frame(ControlFrame::Close("None".to_string()))),
            "control WebSocket closed during negotiation: None",
        ),
        (negotiation_step(false, text(Ok(ControlReply::error("busy")))), "busy"),
        (negotiation_step(false, text(Err("no JSON".to_string()))), "no JSON"),
        (
            negotiation_step(false, text(Ok(ControlReply::Refetched { args: Vec::new() }))),
            "unexpected control reply during transport negotiation: Refetched { args: [] }",
        ),
    ];
    for (step, message) in failures {
        match step {
            NegotiationStep::Fail(error) => {
                assert_eq!(error.message("Refetched { args: [] }"), message)
            }
            other => panic!("expected a failure, not {other:?}"),
        }
    }
}

#[test]
fn negotiation_errors_say_what_is_missing() {
    assert_eq!(
        NegotiationError::AeronDisabled.message(""),
        "Aeron transport selected while [aeron].enabled is false"
    );
    assert_eq!(NegotiationError::UdpNotInitialized.message(""), "UDP socket was not initialized");
    assert_eq!(NegotiationError::UdpNotPrepared.message(""), "UDP socket was not prepared");
    assert_eq!(
        NegotiationError::AeronNotPrepared.message(""),
        "Aeron UDP subscription endpoint was not prepared"
    );
    assert_eq!(
        NegotiationError::UnexpectedReply(ControlReply::Refetched { args: Vec::new() })
            .message("Refetched { args: [] }"),
        "unexpected reply during transport negotiation: Refetched { args: [] }"
    );
    assert_eq!(
        NegotiationError::Incompatible {
            requested: client::ClientTransportConfig::AeronUdp { stream_id: -7 },
            returned: TransportReady::WebSocket,
        }
        .message("WebSocket"),
        "server returned incompatible transport during negotiation: \
         requested AeronUdp { stream_id: -7 }, returned WebSocket"
    );
}

#[test]
fn transports_are_shown_with_their_streams() {
    for transport in [
        client::ClientTransportConfig::Udp,
        client::ClientTransportConfig::AeronIpc { stream_id: 0 },
        client::ClientTransportConfig::AeronIpc { stream_id: i32::MAX },
        client::ClientTransportConfig::AeronUdp { stream_id: i32::MIN },
    ] {
        assert_eq!(transport.show(), format!("{transport:?}"));
    }
    for operation in [
        ControlOperation::Subscribe,
        ControlOperation::Unsubscribe,
        ControlOperation::RefetchBbo,
    ] {
        assert_eq!(operation.show(), format!("{operation:?}"));
    }
}

#[test]
fn addresses_without_a_socket_are_refused() {
    let parse = |target: &str| {
        let (host, port) = target.split_once(':')?;
        Some((host.to_string(), port.parse::<u16>().ok()?))
    };
    let socket = || Ok(("127.0.0.1".to_string(), 9000));
    assert_eq!(connect_target("127.0.0.1:9000", &parse), socket());
    assert_eq!(connect_target("ws://127.0.0.1:9000", &parse), socket());
    assert_eq!(connect_target("wss://127.0.0.1:9000", &parse), socket());
    let error = connect_target("ws://feed.example", &parse).unwrap_err();
    assert_eq!(error, NegotiationError::InvalidAddress("ws://feed.example".to_string()));
    assert_eq!(error.message(""), "invalid socket address ws://feed.example");
}

// Owners of subscriptions.

#[test]
fn owners_are_counted_key_by_key() {
    let mut counts = RefCounts::new();
    let keys = SubscriptionArg::new(vec![1, 2, 1], "bbo").keys();
    let first = counts.acquire_all(&keys);
    assert_eq!(first.len(), 2);
    assert_eq!(counts.get(&keys[0]), 2);
    assert_eq!(counts.get(&keys[1]), 1);
    assert_eq!(counts.select(&keys, 1), vec![SubscriptionArg::new(vec![2], "bbo")]);

    assert!(counts.acquire_all(&vec![keys[1].clone()]).is_empty());
    let last = counts.release_all(&keys);
    assert_eq!(last, vec![SubscriptionArg::new(vec![1], "bbo")]);
    assert_eq!(counts.all_keys(), vec![SubscriptionKey::new(2, "bbo")]);
    assert!(counts.release_one(&keys[1]));
    assert!(counts.all_args().is_empty());
    assert!(!counts.release_one(&keys[1]));
}

// The link client.

fn link(transport: ClientTransportConfig) -> LinkClient {
    let endpoint = ControlEndpoint::Tcp("ws://127.0.0.1:9000".to_string());
    LinkClient::new(LinkClientConfig::new(endpoint, transport), false, 100).ok().unwrap()
}

fn ready_link() -> LinkClient {
    let mut client = link(ClientTransportConfig::WebSocket);
    let step = client.negotiate_transport(Received::Frame(ControlFrame::Text(Ok(
        ControlReply::TransportReady { transport: TransportReady::WebSocket },
    ))));
    assert_eq!(step, NegotiationStep::Ready);
    client
}

#[test]
fn link_clients_start_without_aeron() {
    let client = link(ClientTransportConfig::WebSocket);
    assert!(!client.config().aeron_enabled);
    assert_eq!(client.config().keepalive_interval, DEFAULT_KEEPALIVE_INTERVAL);
    assert_eq!(client.selection(None), Ok(TransportSelection::WebSocket));
    let endpoint = ControlEndpoint::Tcp("ws://127.0.0.1:1".to_string());
    let config = LinkClientConfig::new(endpoint, ClientTransportConfig::AeronIpc { stream_id: 1 });
    assert_eq!(
        LinkClient::new(config, false, 0).err(),
        Some(LinkError::AeronDisabled)
    );
}

#[test]
fn link_clients_count_owners_even_if_nothing_can_be_sent() {
    let mut client = link(ClientTransportConfig::WebSocket);
    let arg = SubscriptionArg::new(vec![42], "bbo");
    assert_eq!(client.acquire(&arg), Err(LinkError::NotReady));
    assert_eq!(client.subscription_count(&SubscriptionKey::new(42, "bbo")), 1);
    assert_eq!(client.resubscribe(), Err(LinkError::NotReady));
    assert_eq!(client.refetch_bbo(vec![42]), Err(LinkError::NotReady));
}

#[test]
fn link_clients_ask_for_first_and_give_up_last_subscriptions() {
    let mut client = ready_link();
    let arg = SubscriptionArg::new(vec![10, 11], "trades");
    let sent = client.acquire(&arg).unwrap().unwrap();
    assert_eq!(sent.keys().len(), 2);
    client.request_sent(&sent);
    assert_eq!(client.acquire(&SubscriptionArg::new(vec![10], "trades")), Ok(None));
    assert_eq!(
        client.release(&arg),
        Ok(Some(ControlRequest::unsubscribe(vec![SubscriptionArg::new(vec![11], "trades")])))
    );
    assert_eq!(
        client.resubscribe(),
        Ok(Some(ControlRequest::subscribe(vec![SubscriptionArg::new(vec![10], "trades")])))
    );
    assert_eq!(
        client.acquire(&SubscriptionArg::new(Vec::new(), "trades")),
        Err(LinkError::Protocol(ProtocolError::EmptyIds))
    );
    assert_eq!(client.refetch_bbo(vec![10]), Ok(ControlRequest::refetch_bbo(vec![10])));
}

#[test]
fn link_clients_deliver_what_they_have_asked_for() {
    let mut client = ready_link();
    let frame = |bytes| Received::Frame(ControlFrame::Binary(bytes));
    assert_eq!(client.poll_control(frame(trade(42)), 7, &reaches), ControlStep::Skip);
    let sent = client.acquire(&SubscriptionArg::new(vec![42], "trades")).unwrap().unwrap();
    client.request_sent(&sent);
    assert_eq!(
        client.poll_control(frame(trade(42)), 8, &reaches),
        ControlStep::Deliver(link_client::ClientEvent::Data(InboundFrame {
            bytes: trade(42),
            received_at: 8,
        }))
    );
    assert_eq!(client.receive(trade(43), 9, &reaches), None);

    let mut replacement = ready_link();
    replacement.take_over(client.ref_counts);
    assert!(replacement.receive(trade(42), 10, &reaches).is_some());
}

#[test]
fn link_clients_deliver_control_frames() {
    let mut client = ready_link();
    let text = |reply| {
        Received::Frame(ControlFrame::Text(ReceivedText { text: "{}".to_string(), reply }))
    };
    assert_eq!(
        client.poll_control(text(Some(ControlReply::error("no"))), 1, &reaches),
        ControlStep::Deliver(link_client::ClientEvent::Reply(ControlReply::error("no")))
    );
    assert_eq!(
        client.poll_control(text(None), 1, &reaches),
        ControlStep::Deliver(link_client::ClientEvent::Text("{}".to_string()))
    );
    assert_eq!(
        client.poll_control(Received::Frame(ControlFrame::Ping(vec![1])), 1, &reaches),
        ControlStep::Pong(vec![1])
    );
    assert_eq!(
        client.poll_control(Received::Frame(ControlFrame::Pong), 1, &reaches),
        ControlStep::Deliver(link_client::ClientEvent::Keepalive)
    );
    assert_eq!(client.poll_control(Received::NotReady, 1, &reaches), ControlStep::Nothing);
    assert_eq!(
        client.poll_control(Received::Ended, 1, &reaches),
        ControlStep::Fail(LinkError::Ended)
    );
    let closed = client.poll_control(
        Received::Frame(ControlFrame::Close("None".to_string())),
        1,
        &reaches,
    );
    match closed {
        ControlStep::Fail(error) => assert_eq!(error.message(), "control WebSocket closed: None"),
        other => panic!("expected a failure, not {other:?}"),
    }
}

#[test]
fn pings_are_due_after_the_idle_interval() {
    let mut client = link(ClientTransportConfig::WebSocket);
    assert!(!client.ping_due(100 + DEFAULT_KEEPALIVE_INTERVAL - 1));
    assert!(client.ping_due(100 + DEFAULT_KEEPALIVE_INTERVAL));
    assert!(!client.ping_due(0));
    client.message_sent(200);
    assert!(!client.ping_due(100 + DEFAULT_KEEPALIVE_INTERVAL));
}

#[test]
fn link_errors_say_what_is_wrong() {
    assert_eq!(LinkError::NotReady.message(), "data transport is not ready");
    assert_eq!(LinkError::Ended.message(), "control WebSocket closed");
    assert_eq!(
        LinkError::Protocol(ProtocolError::EmptyIds).message(),
        "subscription ids cannot be empty"
    );
    assert_eq!(
        LinkError::AeronDisabled.message(),
        "Aeron transport selected while [aeron].enabled is false"
    );
}

// The client with numbered requests.

fn numbered(transport: client::ClientTransportConfig) -> Client {
    let endpoint = ControlEndpoint::Tcp("ws://127.0.0.1:9000".to_string());
    let mut config = ClientConfig::new(endpoint, transport);
    config.aeron_enabled = true;
    Client::new(config, false, None, 0).ok().unwrap()
}

#[test]
fn clients_prepare_what_they_receive_on() {
    assert_eq!(
        prepare(client::ClientTransportConfig::Udp, false),
        Ok(Preparations { aeron_udp_stream: None, udp_socket: true })
    );
    assert_eq!(
        prepare(client::ClientTransportConfig::AeronUdp { stream_id: 4 }, true),
        Ok(Preparations { aeron_udp_stream: Some(4), udp_socket: false })
    );
    assert_eq!(
        prepare(client::ClientTransportConfig::AeronUdp { stream_id: 4 }, false),
        Err(NegotiationError::AeronDisabled)
    );
    assert_eq!(
        client::select_transport(
            client::ClientTransportConfig::AeronUdp { stream_id: 4 },
            None,
            Some(40123),
        ),
        Ok(client_messages::TransportSelection::AeronUdp { client_port: 40123, stream_id: 4 })
    );
    assert_eq!(
        numbered(client::ClientTransportConfig::AeronUdp { stream_id: 4 }).selection(None),
        Err(NegotiationError::AeronNotPrepared)
    );
    assert_eq!(
        numbered(client::ClientTransportConfig::Udp).selection(None),
        Err(NegotiationError::UdpNotInitialized)
    );
    assert_eq!(
        polling::select_transport(client::ClientTransportConfig::Udp, None, None),
        Err(NegotiationError::UdpNotPrepared)
    );
    assert_eq!(
        polling::select_transport(client::ClientTransportConfig::Udp, Some(4000), None),
        Ok(client_messages::TransportSelection::Udp { client_port: 4000 })
    );
}

#[test]
fn requests_are_numbered_from_one_and_never_zero() {
    let mut client = numbered(client::ClientTransportConfig::Udp);
    assert_eq!(client.send_request(subscribe(1, "bbo")).err(), Some(ClientError::NotReady));
    client.udp_connected();
    assert_eq!(client.send_request(subscribe(1, "bbo")).unwrap().request_id, 1);
    assert_eq!(client.send_request(subscribe(1, "bbo")).unwrap().request_id, 2);
    assert_eq!(
        client.send_request(ControlRequest::subscribe(Vec::new())).err(),
        Some(ClientError::Protocol(ProtocolError::EmptyArgs))
    );
    client.next_request_id = u64::MAX;
    assert_eq!(client.send_request(subscribe(1, "bbo")).unwrap().request_id, u64::MAX);
    assert_eq!(client.send_request(subscribe(1, "bbo")).unwrap().request_id, 1);
}

#[test]
fn replies_acknowledge_only_their_operation() {
    let args = || vec![SubscriptionArg::new(vec![1], "bbo")];
    assert_eq!(
        validate_request_reply(
            ControlOperation::Subscribe,
            ControlReply::Subscribed { args: args() },
        ),
        Ok(())
    );
    assert_eq!(
        validate_request_reply(
            ControlOperation::RefetchBbo,
            ControlReply::Refetched { args: args() },
        ),
        Ok(())
    );
    assert_eq!(
        validate_request_reply(ControlOperation::Subscribe, ControlReply::error("full")),
        Err(ClientError::Refused("full".to_string()))
    );
    let other = ControlReply::Unsubscribed { args: args() };
    let result = validate_request_reply(ControlOperation::Subscribe, other.clone());
    assert_eq!(
        result,
        Err(ClientError::UnexpectedReply { operation: ControlOperation::Subscribe, reply: other })
    );
    assert_eq!(
        result.unwrap_err().message("Unsubscribed { args: [] }"),
        "unexpected control reply for Subscribe: Unsubscribed { args: [] }"
    );
}

#[test]
fn waits_end_with_the_connection() {
    let mut client = numbered(client::ClientTransportConfig::Udp);
    let ends = vec![
        (Received::Ended, "control WebSocket closed while awaiting request acknowledgement"),
        (
            Received::Frame(ControlFrame::Close("None".to_string())),
            "control WebSocket closed while awaiting request acknowledgement: None",
        ),
        (
            Received::Frame(ControlFrame::Binary(vec![1])),
            "binary frames are not allowed on the control WebSocket",
        ),
        (
            Received::Frame(ControlFrame::Text(ReceivedControl {
                event: None,
                envelope: Err("no JSON".to_string()),
            })),
            "invalid control WebSocket message",
        ),
    ];
    for (received, message) in ends {
        match client.await_request_reply(1, ControlOperation::Subscribe, received) {
            AwaitStep::Done(Err(error)) => assert_eq!(error.message(""), message),
            other => panic!("expected the end, not {other:?}"),
        }
    }
    assert_eq!(
        client.await_request_reply(
            1,
            ControlOperation::Subscribe,
            Received::Frame(ControlFrame::Ping(vec![2])),
        ),
        AwaitStep::Pong(vec![2])
    );
    assert_eq!(
        client.poll_control(ControlLook::Start),
        client::ControlStep::Deliver(ClientEvent::Keepalive)
    );
    assert_eq!(client.poll_control(ControlLook::Start), client::ControlStep::ReadControl);
}

#[test]
fn duplicate_keys_of_one_request_are_owned_twice() {
    let mut client = numbered(client::ClientTransportConfig::Udp);
    let arg = SubscriptionArg::new(vec![1, 1], "bbo");
    let key = SubscriptionKey::new(1, "bbo");
    let plan = client.acquire(&arg).unwrap();
    assert_eq!(plan.request.as_ref().unwrap().args.len(), 2);
    client.conclude(&plan, Ok(())).unwrap();
    assert_eq!(client.subscription_count(&key), 2);
    let plan = client.release(&arg).unwrap();
    assert!(plan.request.is_none());
    client.conclude(&plan, Ok(())).unwrap();
    assert_eq!(client.subscription_count(&key), 0);
}

#[test]
fn texts_are_faults_before_they_are_replies() {
    let error = StreamError {
        id: None,
        stream: None,
        severity: 2,
        message: "feed lost".to_string(),
        timestamp: 9,
    };
    let both = ReceivedControl {
        event: Some(ControlEvent::stream_error(error.clone())),
        envelope: Ok(ControlReplyEnvelope::new(None, ControlReply::error("x"))),
    };
    assert_eq!(parse_client_event(both), Ok(ClientEvent::StreamError(error)));
    let mut client = numbered(client::ClientTransportConfig::Udp);
    let mut poll = |received| client.poll_control(ControlLook::Received(received));
    let invalid = ReceivedControl { event: None, envelope: Err("no JSON".to_string()) };
    assert_eq!(
        poll(Received::Frame(ControlFrame::Text(invalid))),
        client::ControlStep::Fail(ClientError::InvalidMessage("no JSON".to_string()))
    );
    assert_eq!(poll(Received::NotReady), client::ControlStep::Nothing);
    assert_eq!(
        poll(Received::Frame(ControlFrame::Ping(vec![1]))),
        client::ControlStep::Pong(vec![1])
    );
    assert_eq!(
        poll(Received::Frame(ControlFrame::Close("None".to_string()))),
        client::ControlStep::Fail(ClientError::Closed("None".to_string()))
    );
    assert_eq!(
        Client::refetch_bbo(vec![1, 2]).args,
        vec![SubscriptionArg::new(vec![1, 2], "bbo")]
    );
}

// The polling client.

#[test]
fn polling_clients_take_only_what_they_have_asked_for() {
    let ready = |transport| {
        ControlFrame::Text(Ok(ControlReply::TransportReady { transport }))
    };
    let udp = client::ClientTransportConfig::Udp;
    assert_eq!(
        polling::negotiation_step(udp, None, ready(TransportReady::AeronIpc { stream_id: 1 })),
        NegotiationStep::Fail(NegotiationError::Incompatible {
            requested: udp,
            returned: TransportReady::AeronIpc { stream_id: 1 },
        })
    );
    let ipc = client::ClientTransportConfig::AeronIpc { stream_id: 1 };
    assert_eq!(
        polling::negotiation_step(ipc, None, ready(TransportReady::AeronIpc { stream_id: 1 })),
        NegotiationStep::Ready
    );
    assert!(matches!(
        polling::negotiation_step(ipc, None, ready(TransportReady::AeronIpc { stream_id: 2 })),
        NegotiationStep::Fail(NegotiationError::Incompatible { .. })
    ));
    assert_eq!(
        polling::plan_connection("127.0.0.1:9000", ipc, false).err(),
        Some(NegotiationError::AeronDisabled)
    );
}

#[test]
fn polling_clients_keep_requests_pending_until_their_reply() {
    let mut client = PollingClientUnderTest::new();
    let first = client.send();
    let second = client.send();
    assert_eq!((first, second), (1, 2));
    let answer = ControlReplyEnvelope::new(Some(second), ControlReply::error("late"));
    assert_eq!(
        client.inner.poll(PollLook::Control(Received::Frame(ControlFrame::Text(ReceivedControl {
            event: None,
            envelope: Ok(answer),
        })))),
        PollStep::Deliver(PollEvent::Reply(ControlReplyEnvelope::new(
            Some(second),
            ControlReply::error("late"),
        )))
    );
    assert!(client.inner.pending_requests.contains(&first));
    assert!(!client.inner.pending_requests.contains(&second));
    assert_eq!(
        client.inner.send_request(ControlRequest::subscribe(Vec::new())).err(),
        Some(ProtocolError::EmptyArgs)
    );
    assert_eq!(client.inner.poll(PollLook::Control(Received::Frame(ControlFrame::Other))), PollStep::ReadControl);
    assert_eq!(
        client.inner.poll(PollLook::Control(Received::Frame(ControlFrame::Binary(vec![1])))),
        PollStep::Fail(ClientError::BinaryFrame)
    );
    assert_eq!(
        client.inner.poll(PollLook::Control(Received::Frame(ControlFrame::Ping(vec![1])))),
        PollStep::Pong(vec![1])
    );
    assert!(!client.inner.has_udp());
}

struct PollingClientUnderTest {
    inner: polling::PollingClient,
}

impl PollingClientUnderTest {
    fn new() -> PollingClientUnderTest {
        PollingClientUnderTest { inner: polling::PollingClient::new(false) }
    }

    fn send(&mut self) -> u64 {
        let envelope = self.inner.send_request(subscribe(42, "bbo")).unwrap();
        self.inner.request_sent(envelope.request_id);
        envelope.request_id
    }
}

// The blocking link.

#[test]
fn blocking_links_filter_data_by_what_was_sent() {
    let mut link = BlockingLink::new(true);
    assert!(link.has_udp());
    let deliver = |market_id| ReadStep::Deliver(ControlFrame::Binary(trade(market_id)));
    let datagram = |market_id| ReadLook::<String>::Datagram(Some(trade(market_id)));
    let frame = |market_id| ReadLook::<String>::Control(ControlFrame::Binary(trade(market_id)));
    assert_eq!(link.read(ReadLook::<String>::Start, 1, &reaches), ReadStep::ReadDatagram);
    assert_eq!(link.read(datagram(42), 1, &reaches), ReadStep::ReadControl);
    link.send(None);
    link.send(Some(subscribe(42, "trades")));
    assert_eq!(link.read(datagram(42), 2, &reaches), deliver(42));
    assert_eq!(link.read(ReadLook::<String>::Datagram(None), 2, &reaches), ReadStep::ReadControl);
    assert_eq!(link.read(frame(42), 3, &reaches), deliver(42));
    assert_eq!(link.read(frame(43), 3, &reaches), ReadStep::ReadControl);
    assert_eq!(
        link.read(ReadLook::Control(ControlFrame::Text("{}".to_string())), 3, &reaches),
        ReadStep::Deliver(ControlFrame::Text("{}".to_string()))
    );
    link.send(Some(ControlRequest::unsubscribe(vec![SubscriptionArg::new(vec![42], "trades")])));
    assert_eq!(link.read(datagram(42), 4, &reaches), ReadStep::ReadControl);

    let mut link = BlockingLink::new(false);
    assert_eq!(link.read(ReadLook::<String>::Start, 1, &reaches), ReadStep::ReadControl);
}

#[test]
fn blocking_links_take_what_the_server_has_prepared() {
    let ready = |transport| {
        ControlFrame::Text(Ok(ControlReply::TransportReady { transport }))
    };
    let address = || SocketAddress::new("10.0.0.1", 5000);
    assert_eq!(
        blocking::negotiation_step(ready(TransportReady::Udp { server_address: address() })),
        NegotiationStep::ConnectUdp(address())
    );
    assert_eq!(
        blocking::negotiation_step(ready(TransportReady::WebSocket)),
        NegotiationStep::Ready
    );
    assert_eq!(
        blocking::negotiation_step(ControlFrame::Ping(vec![1])),
        NegotiationStep::Pong(vec![1])
    );
    assert_eq!(blocking::negotiation_step(ControlFrame::Pong), NegotiationStep::Continue);
    assert_eq!(
        blocking::negotiation_step(ControlFrame::Text(Ok(ControlReply::error("busy")))),
        NegotiationStep::Fail(NegotiationError::Refused("busy".to_string()))
    );
    let other = ControlReply::Refetched { args: Vec::new() };
    assert_eq!(
        blocking::negotiation_step(ControlFrame::Text(Ok(other.clone()))),
        NegotiationStep::Fail(NegotiationError::UnexpectedReply(other))
    );
    assert_eq!(
        blocking::select_transport(&ClientTransportConfig::Udp, Some(4000)),
        TransportSelection::Udp { client_port: 4000 }
    );
    assert_eq!(
        blocking::select_transport(&ClientTransportConfig::WebSocket, None),
        TransportSelection::WebSocket
    );
}

#[test]
fn polls_prefer_datagrams() {
    let mut client = polling::PollingClient::new(true);
    assert_eq!(client.poll(PollLook::Start), PollStep::ReadDatagram);
    let frame = || InboundFrame { bytes: vec![1, 2], received_at: 5 };
    assert_eq!(
        client.poll(PollLook::Datagram(Some(frame()))),
        PollStep::Deliver(PollEvent::Data(frame()))
    );
    assert_eq!(client.poll(PollLook::Datagram(None)), PollStep::ReadControl);
    assert_eq!(
        client.poll(PollLook::Control(Received::Frame(ControlFrame::Pong))),
        PollStep::Deliver(PollEvent::Keepalive)
    );
    assert_eq!(
        polling::PollingClient::new(false).poll(PollLook::Start),
        PollStep::ReadControl
    );
}

// The life of a connection.

#[test]
fn opened_sessions_are_disconnected_once() {
    let mut active = ActiveClients::new();
    let mut other: Connection<String> = Connection::new("10.0.0.8:1", 1);
    other.step(ConnectionEvent::Accepted(Ok(())), &mut active);
    other.step(ConnectionEvent::Opened(Ok(1)), &mut active);

    let results = vec![Ok(()), Err("broken pipe".to_string())];
    for result in results {
        let mut connection: Connection<String> = Connection::new("10.0.0.7:4000", 9);
        assert_eq!(
            connection.step(ConnectionEvent::Accepted(Ok(())), &mut active),
            ConnectionAction::Open { suggested_id: 9 }
        );
        assert_eq!(active.len(), 1);
        assert_eq!(
            connection.step(ConnectionEvent::Opened(Ok(12)), &mut active),
            ConnectionAction::Serve { client_id: 12 }
        );
        assert_eq!(active.get(12), Some(&"10.0.0.7:4000".to_string()));
        assert_eq!(
            connection.step(ConnectionEvent::Served(result.clone()), &mut active),
            ConnectionAction::Disconnect { client_id: 12 }
        );
        assert_eq!(active.get(12), None);
        assert_eq!(
            connection.step(ConnectionEvent::Disconnected, &mut active),
            ConnectionAction::Return(result)
        );
        assert_eq!(active.get(1), Some(&"10.0.0.8:1".to_string()));
    }
}

#[test]
fn connections_that_open_no_session_disconnect_none() {
    let mut active = ActiveClients::new();
    let mut connection: Connection<String> = Connection::new("10.0.0.7:4000", 9);
    assert_eq!(
        connection.step(ConnectionEvent::Accepted(Err("no upgrade".to_string())), &mut active),
        ConnectionAction::Return(Err("no upgrade".to_string()))
    );
    let mut connection: Connection<String> = Connection::new("10.0.0.7:4000", 9);
    connection.step(ConnectionEvent::Accepted(Ok(())), &mut active);
    assert_eq!(
        connection.step(ConnectionEvent::Opened(Err("full".to_string())), &mut active),
        ConnectionAction::Return(Err("full".to_string()))
    );
    assert_eq!(active.len(), 0);
}
