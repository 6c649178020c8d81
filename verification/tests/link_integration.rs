use market_data_link::client::polling::{self, PollEvent, PollLook, PollStep};
use market_data_link::client::{
    prepare, AwaitStep, Client, ClientConfig, ClientError, ClientEvent, ClientTransportConfig,
    ControlLook, ControlStep, PollingClient, ReceivedControl,
};
use market_data_link::client_messages;
use market_data_link::codec::{Bbo, FeatureBbo};
use market_data_link::float64::Float64;
use market_data_link::negotiation::{NegotiationError, NegotiationStep};
use market_data_link::protocol::{
    AeronChannel, AeronConfig, ControlOperation, ControlReply, ControlReplyEnvelope,
    ControlRequest, SelectTransport, SocketAddress, SubscriptionArg, SubscriptionKey,
};
use market_data_link::server::SessionControl;
use market_data_link::server_messages::{ControlEvent, StreamError};
use market_data_link::session::{Session, SessionAction, SessionEvent};
use market_data_link::transport::{ControlEndpoint, ControlFrame, InboundFrame, Received};

const CLIENT_PORT: u16 = 40123;
const SERVER_PORT: u16 = 52781;

fn number(value: f64) -> Float64 {
    Float64::from_bits(value.to_bits())
}

fn feature() -> Vec<u8> {
    FeatureBbo {
        feature_id: 101,
        market_id: 42,
        timestamp_mdp_in: 1,
        bid: number(10.0),
        bid_volume: number(2.0),
        ask: number(11.0),
        ask_volume: number(3.0),
        event_id: 4,
        ts_mono_mdp_out: 5,
        mdp_received_ts_ns: 6,
        feature_start_ts_ns: 7,
        feature_done_ts_ns: 8,
        signal_bps: number(9.0),
    }
    .encode_le()
    .to_vec()
}

/// A server session with a backend that grants everything but what it is told to reject.
struct MockServer {
    session: Session,
    requests: Vec<ControlRequest>,
    aeron: Vec<AeronConfig>,
    reject_next: Option<String>,
}

impl MockServer {
    fn new(aeron_enabled: bool) -> MockServer {
        MockServer {
            session: Session::new("10.0.0.7", "10.0.0.1", aeron_enabled),
            requests: Vec::new(),
            aeron: Vec::new(),
            reject_next: None,
        }
    }

    fn handle(&mut self, event: SessionEvent) -> SessionAction {
        let mut action = self.session.step(event);
        loop {
            let outcome = match action {
                SessionAction::BindUdp => SessionEvent::UdpBound { port: SERVER_PORT },
                SessionAction::ConfigureAeron(config) => {
                    self.aeron.push(config);
                    SessionEvent::AeronConfigured { result: Ok(()) }
                }
                SessionAction::Request(request) => {
                    let reply = match self.reject_next.take() {
                        Some(message) => ControlReply::error(&message),
                        None => ControlReply::for_request(&request),
                    };
                    self.requests.push(request);
                    SessionEvent::BackendReplied { result: Ok(reply) }
                }
                other => return other,
            };
            action = self.session.step(outcome);
        }
    }

    fn select(&mut self, selection: client_messages::TransportSelection) -> ControlReply {
        let selection = self.session.addressed(selection);
        let envelope = self.reply(SessionEvent::Text {
            selection: Some(SelectTransport::new(selection)),
            request_id: None,
            request: Err("not a request".to_string()),
        });
        assert_eq!(envelope.request_id, None);
        envelope.reply
    }

    fn request(&mut self, request_id: Option<u64>, request: ControlRequest) -> ControlReplyEnvelope {
        self.reply(SessionEvent::Text { selection: None, request_id, request: Ok(request) })
    }

    fn reply(&mut self, event: SessionEvent) -> ControlReplyEnvelope {
        match self.handle(event) {
            SessionAction::Reply(envelope) => envelope,
            other => panic!("expected a reply, not {other:?}"),
        }
    }

    fn datagram(&mut self, data: Vec<u8>) -> (SocketAddress, Vec<u8>) {
        match self.handle(SessionEvent::Outbound(Some(data))) {
            SessionAction::SendDatagram { target, data } => (target, data),
            other => panic!("expected a datagram, not {other:?}"),
        }
    }
}

fn config(transport: ClientTransportConfig) -> ClientConfig {
    ClientConfig::new(ControlEndpoint::Tcp("ws://10.0.0.1:9000".to_string()), transport)
}

fn connect(config: ClientConfig, server: &mut MockServer) -> Result<Client, String> {
    let prepared = prepare(config.transport, config.aeron_enabled).map_err(|e| e.message(""))?;
    let udp_port = prepared.udp_socket.then_some(CLIENT_PORT);
    let mut client = Client::new(config, prepared.udp_socket, None, 0).map_err(|e| e.message(""))?;
    let reply = server.select(client.selection(udp_port).map_err(|e| e.message(""))?);
    match client.negotiate_transport(Received::Frame(ControlFrame::Text(Ok(reply)))) {
        NegotiationStep::ConnectUdp(address) => {
            assert_eq!(address, SocketAddress::new("10.0.0.1", SERVER_PORT));
            client.udp_connected();
        }
        NegotiationStep::Ready => {}
        NegotiationStep::Fail(error) => return Err(error.message("")),
        other => panic!("unexpected step {other:?}"),
    }
    Ok(client)
}

fn received(envelope: ControlReplyEnvelope) -> Received<ReceivedControl> {
    Received::Frame(ControlFrame::Text(ReceivedControl { event: None, envelope: Ok(envelope) }))
}

/// Sends a request and waits for its reply; `between` arrives before it.
fn ask(
    client: &mut Client,
    server: &mut MockServer,
    request: ControlRequest,
    between: Vec<Received<ReceivedControl>>,
) -> Result<(), ClientError> {
    let operation = request.op;
    let envelope = client.send_request(request)?;
    let request_id = envelope.request_id;
    for frame in between {
        assert!(!matches!(
            client.await_request_reply(request_id, operation, frame),
            AwaitStep::Done(_)
        ));
    }
    let answer = server.request(Some(request_id), envelope.request);
    match client.await_request_reply(request_id, operation, received(answer)) {
        AwaitStep::Done(result) => result,
        other => panic!("unexpected step {other:?}"),
    }
}

fn acquire(
    client: &mut Client,
    server: &mut MockServer,
    arg: &SubscriptionArg,
) -> Result<(), ClientError> {
    let mut plan = client.acquire(arg)?;
    let acknowledged = match plan.request.take() {
        Some(request) => ask(client, server, request, Vec::new()),
        None => Ok(()),
    };
    client.conclude(&plan, acknowledged)
}

fn release(
    client: &mut Client,
    server: &mut MockServer,
    arg: &SubscriptionArg,
) -> Result<(), ClientError> {
    let mut plan = client.release(arg)?;
    let acknowledged = match plan.request.take() {
        Some(request) => ask(client, server, request, Vec::new()),
        None => Ok(()),
    };
    client.conclude(&plan, acknowledged)
}

#[test]
fn udp_reference_counts_and_binary_delivery() {
    let mut server = MockServer::new(false);
    let mut client = connect(config(ClientTransportConfig::Udp), &mut server).unwrap();
    let arg = SubscriptionArg::new(vec![101], "feature");
    acquire(&mut client, &mut server, &arg).unwrap();
    acquire(&mut client, &mut server, &arg).unwrap();
    assert_eq!(server.requests.len(), 1);

    let (target, data) = server.datagram(feature());
    assert_eq!(target, SocketAddress::new("10.0.0.7", CLIENT_PORT));
    assert_eq!(data, feature());

    release(&mut client, &mut server, &arg).unwrap();
    assert_eq!(server.requests.len(), 1);
    release(&mut client, &mut server, &arg).unwrap();
    assert_eq!(server.requests.len(), 2);
    assert_eq!(server.requests[1].op, ControlOperation::Unsubscribe);

    assert_eq!(server.handle(SessionEvent::Close), SessionAction::Stop);
}

#[test]
fn payloads_are_sent_without_subscription_or_codec() {
    let mut server = MockServer::new(false);
    connect(config(ClientTransportConfig::Udp), &mut server).unwrap();
    assert_eq!(server.datagram(vec![255, 1, 2, 3]).1, vec![255, 1, 2, 3]);
}

#[test]
fn aeron_configuration_is_negotiated_with_backend() {
    let mut server = MockServer::new(true);
    let mut client_config = config(ClientTransportConfig::AeronIpc { stream_id: 2001 });
    client_config.aeron_enabled = true;
    let client = connect(client_config, &mut server).unwrap();
    assert!(client.transport_ready);
    assert_eq!(
        server.aeron,
        vec![AeronConfig { aeron_channel: AeronChannel::Ipc, stream_id: 2001 }]
    );
    assert!(
        !server.session.takes_data(),
        "Aeron negotiation must drop the legacy per-session receiver"
    );
    assert_eq!(server.handle(SessionEvent::Outbound(Some(vec![1]))), SessionAction::Ignore);
}

#[test]
fn aeron_udp_streams_are_opened_at_the_clients_port() {
    let mut server = MockServer::new(true);
    let ready = server.select(client_messages::TransportSelection::AeronUdp {
        client_port: 40200,
        stream_id: 2002,
    });
    assert_eq!(
        server.aeron,
        vec![AeronConfig {
            aeron_channel: AeronChannel::udp("10.0.0.7", 40200),
            stream_id: 2002,
        }]
    );
    let transport = ClientTransportConfig::AeronUdp { stream_id: 2002 };
    assert_eq!(
        polling::negotiation_step(
            transport,
            Some(40200),
            ControlFrame::Text(Ok(ready.clone())),
        ),
        NegotiationStep::Ready
    );
    assert!(matches!(
        polling::negotiation_step(
            transport,
            Some(40201),
            ControlFrame::Text(Ok(ready)),
        ),
        NegotiationStep::Fail(NegotiationError::Incompatible { .. })
    ));
}

#[test]
fn acknowledgement_commits_counts_and_rejection_preserves_them() {
    let mut server = MockServer::new(false);
    let mut client = connect(config(ClientTransportConfig::Udp), &mut server).unwrap();
    let arg = SubscriptionArg::new(vec![101], "feature");
    let key = SubscriptionKey::new(101, "feature");

    server.reject_next = Some("subscribe rejected".to_string());
    assert_eq!(
        acquire(&mut client, &mut server, &arg),
        Err(ClientError::Refused("subscribe rejected".to_string()))
    );
    assert_eq!(client.subscription_count(&key), 0);

    acquire(&mut client, &mut server, &arg).unwrap();
    assert_eq!(client.subscription_count(&key), 1);

    server.reject_next = Some("unsubscribe rejected".to_string());
    assert!(release(&mut client, &mut server, &arg).is_err());
    assert_eq!(client.subscription_count(&key), 1);

    assert_eq!(server.handle(SessionEvent::Close), SessionAction::Stop);
    let mut plan = client.release(&arg).unwrap();
    let request = plan.request.take().unwrap();
    let envelope = client.send_request(request).unwrap();
    let ended = match client.await_request_reply(
        envelope.request_id,
        ControlOperation::Unsubscribe,
        Received::Ended,
    ) {
        AwaitStep::Done(result) => result,
        other => panic!("unexpected step {other:?}"),
    };
    assert!(client.conclude(&plan, ended).is_err());
    assert_eq!(client.subscription_count(&key), 1);
}

#[test]
fn acknowledgement_wait_buffers_existing_data_keepalives_and_unsolicited_errors() {
    let mut server = MockServer::new(false);
    let mut client_config = config(ClientTransportConfig::Udp);
    client_config.keepalive_interval = 0;
    let mut client = connect(client_config, &mut server).unwrap();
    acquire(&mut client, &mut server, &SubscriptionArg::new(vec![101], "feature")).unwrap();

    assert_eq!(server.datagram(feature()).1, feature());
    let error = StreamError {
        id: Some(101),
        stream: Some("feature".to_string()),
        severity: 1,
        message: "unsolicited".to_string(),
        timestamp: 1,
    };
    let fault = match server.handle(SessionEvent::Control(Some(SessionControl::StreamError(error)))) {
        SessionAction::Fault(error) => error,
        other => panic!("expected a fault, not {other:?}"),
    };
    assert!(client.ping_due(0));
    assert_eq!(server.handle(SessionEvent::Ping(Vec::new())), SessionAction::Pong(Vec::new()));

    let between = vec![
        Received::Frame(ControlFrame::Text(ReceivedControl {
            event: Some(ControlEvent::stream_error(fault)),
            envelope: Err("no reply".to_string()),
        })),
        Received::Frame(ControlFrame::Pong),
        received(ControlReplyEnvelope::new(Some(77), ControlReply::error("late"))),
        Received::Frame(ControlFrame::Other),
    ];
    let arg = SubscriptionArg::new(vec![102], "feature");
    let mut plan = client.acquire(&arg).unwrap();
    let request = plan.request.take().unwrap();
    let acknowledged = ask(&mut client, &mut server, request, between);
    client.conclude(&plan, acknowledged).unwrap();

    match client.poll_control(ControlLook::Start) {
        ControlStep::Deliver(ClientEvent::StreamError(error)) => {
            assert_eq!(error.message, "unsolicited")
        }
        other => panic!("expected the fault, not {other:?}"),
    }
    assert_eq!(
        client.poll_control(ControlLook::Start),
        ControlStep::Deliver(ClientEvent::Keepalive)
    );
    assert_eq!(
        client.poll_control(ControlLook::Start),
        ControlStep::Deliver(ClientEvent::Reply(ControlReply::error("late")))
    );
    assert_eq!(client.poll_control(ControlLook::Start), ControlStep::ReadControl);
}

#[test]
fn subscriptions_are_rejected_before_transport_selection() {
    let mut server = MockServer::new(false);
    let request = ControlRequest::subscribe(vec![SubscriptionArg::new(vec![42], "bbo")]);
    let answer = server.request(None, request);
    assert_eq!(answer.request_id, None);
    match answer.reply {
        ControlReply::Error { message } => assert!(message.contains("select_transport")),
        other => panic!("unexpected reply {other:?}"),
    }
    assert!(server.requests.is_empty());
}

#[test]
fn aeron_is_rejected_when_disabled_on_either_side() {
    let mut server = MockServer::new(false);
    let local_error = connect(
        config(ClientTransportConfig::AeronIpc { stream_id: 1001 }),
        &mut server,
    )
    .err()
    .unwrap();
    assert!(local_error.contains("[aeron].enabled is false"));

    let mut client_config = config(ClientTransportConfig::AeronIpc { stream_id: 1001 });
    client_config.aeron_enabled = true;
    let server_error = connect(client_config, &mut server).err().unwrap();
    assert!(server_error.contains("[aeron].enabled is false"));
    assert!(server.aeron.is_empty());
}

#[test]
fn reconnect_restores_each_subscription_exactly_once() {
    let mut server = MockServer::new(false);
    let mut client = connect(config(ClientTransportConfig::Udp), &mut server).unwrap();
    let arg = SubscriptionArg::new(vec![10, 11], "bbo");
    acquire(&mut client, &mut server, &arg).unwrap();
    acquire(&mut client, &mut server, &arg).unwrap();
    assert_eq!(server.requests.len(), 1);

    let mut second = MockServer::new(false);
    let mut replacement = connect(client.config().clone(), &mut second).unwrap();
    replacement.take_over(client.ref_counts);
    let request = replacement.resubscribe().unwrap();
    ask(&mut replacement, &mut second, request, Vec::new()).unwrap();
    assert_eq!(second.requests.len(), 1);
    assert_eq!(second.requests[0].op, ControlOperation::Subscribe);
    assert_eq!(second.requests[0].keys().len(), 2);
    assert_eq!(replacement.subscription_count(&SubscriptionKey::new(10, "bbo")), 2);
    assert_eq!(server.handle(SessionEvent::Ended), SessionAction::Stop);
}

#[test]
fn clients_without_subscriptions_restore_nothing() {
    let mut server = MockServer::new(false);
    let client = connect(config(ClientTransportConfig::Udp), &mut server).unwrap();
    assert!(client.resubscribe().is_none());
}

#[test]
fn keepalive_ping_receives_a_pong() {
    let mut server = MockServer::new(false);
    let mut client_config = config(ClientTransportConfig::Udp);
    client_config.keepalive_interval = 0;
    let mut client = connect(client_config, &mut server).unwrap();
    assert!(client.ping_due(0));
    assert_eq!(server.handle(SessionEvent::Ping(Vec::new())), SessionAction::Pong(Vec::new()));
    assert_eq!(
        client.poll_control(ControlLook::Received(Received::Frame(ControlFrame::Pong))),
        ControlStep::Deliver(ClientEvent::Keepalive)
    );
}

#[test]
fn polling_client_correlates_requests_and_polls_udp_data() {
    let mut server = MockServer::new(false);
    let transport = ClientTransportConfig::Udp;
    let plan = polling::plan_connection("ws://10.0.0.1:9000", transport, false).unwrap();
    assert!(plan.preparations.udp_socket);
    let ready = server.select(client_messages::TransportSelection::Udp { client_port: CLIENT_PORT });
    assert_eq!(
        polling::negotiation_step(
            transport,
            None,
            ControlFrame::Text(Ok(ready)),
        ),
        NegotiationStep::ConnectUdp(SocketAddress::new("10.0.0.1", SERVER_PORT))
    );
    let mut client = PollingClient::new(true);

    let envelope = client
        .send_request(ControlRequest::subscribe(vec![SubscriptionArg::new(vec![42], "bbo")]))
        .unwrap();
    let request_id = envelope.request_id;
    client.request_sent(request_id);
    assert!(client.pending_requests.contains(&request_id));
    let answer = server.request(Some(request_id), envelope.request);
    assert_eq!(client.poll(PollLook::Start), PollStep::ReadDatagram);
    assert_eq!(client.poll(PollLook::Datagram(None)), PollStep::ReadControl);
    match client.poll(PollLook::Control(received(answer))) {
        PollStep::Deliver(PollEvent::Reply(reply)) => {
            assert_eq!(reply.request_id, Some(request_id));
            assert!(matches!(reply.reply, ControlReply::Subscribed { .. }));
        }
        other => panic!("unexpected step {other:?}"),
    }
    assert!(!client.pending_requests.contains(&request_id));

    let data = Bbo {
        market_id: 42,
        timestamp_mdp_in: 1,
        bid: number(1.0),
        bid_volume: number(1.0),
        ask: number(2.0),
        ask_volume: number(1.0),
        event_id: 1,
        ts_mono_mdp_out: 1,
    }
    .encode_le()
    .to_vec();
    let (_, bytes) = server.datagram(data.clone());
    assert_eq!(client.poll(PollLook::Start), PollStep::ReadDatagram);
    let frame = InboundFrame { bytes, received_at: 7 };
    match client.poll(PollLook::Datagram(Some(frame))) {
        PollStep::Deliver(PollEvent::Data(frame)) => {
            assert_eq!(frame.bytes, data);
            assert_eq!(frame.received_at, 7);
        }
        other => panic!("unexpected step {other:?}"),
    }
}
