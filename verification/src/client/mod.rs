//! The client that numbers its requests and waits for their replies.
//!
//! A client's life is linear: it prepares what it receives data on, connects, asks for its
//! transport, and sends numbered requests once the transport is ready. Market data never
//! comes over the control connection.
use std::collections::VecDeque;
use vstd::prelude::*;
use vstd::string::*;
use crate::client_messages::TransportSelection;
use crate::link_client::{elapsed, request_for, DEFAULT_KEEPALIVE_INTERVAL};
use crate::negotiation::{
    negotiation_step, step_on_received, NegotiationError, NegotiationStep,
};
use crate::protocol::{
    arg_models, ArgModel, ControlOperation, ControlReply, ControlReplyEnvelope, ControlRequest,
    ControlRequestEnvelope, KeyModel, ProtocolError, RequestModel, SubscriptionArg,
    SubscriptionKey,
};
use crate::ref_counts::{arg_keys, held_after, key_models, occurrences, RefCounts};
use crate::server_messages::{ControlEvent, StreamError};
use crate::session::{ActionModel, EventModel, SessionModel};
use crate::text::{joined, signed_decimal, signed_decimal_text};
use crate::transport::{ControlEndpoint, ControlFrame, Received};

pub mod polling;

pub use crate::client::polling::{PollEvent, PollingClient};

verus! {

/// The transport that a client wants its data on.
#[derive(Debug, Clone, Copy, PartialEq, Eq, Structural)]
pub enum ClientTransportConfig {
    Udp,
    AeronIpc { stream_id: i32 },
    AeronUdp { stream_id: i32 },
}

impl ClientTransportConfig {
    pub open spec fn aeron(self) -> bool {
        self is AeronIpc || self is AeronUdp
    }

    pub fn is_aeron(&self) -> (aeron: bool)
        ensures
            aeron == self.aeron(),
    {
        !matches!(self, ClientTransportConfig::Udp)
    }

    /// The transport as errors show it.
    pub open spec fn shown(self) -> Seq<char> {
        match self {
            ClientTransportConfig::Udp => "Udp"@,
            ClientTransportConfig::AeronIpc { stream_id } => "AeronIpc { stream_id: "@
                + signed_decimal(stream_id as int) + " }"@,
            ClientTransportConfig::AeronUdp { stream_id } => "AeronUdp { stream_id: "@
                + signed_decimal(stream_id as int) + " }"@,
        }
    }

    /// The transport as errors show it.
    pub fn show(&self) -> (text: String)
        ensures
            text@ == self.shown(),
    {
        match self {
            ClientTransportConfig::Udp => "Udp".to_owned(),
            ClientTransportConfig::AeronIpc { stream_id } => {
                let number: String = signed_decimal_text(*stream_id);
                let mut text: String = joined("AeronIpc { stream_id: ", number.as_str());
                text.append(" }");
                text
            },
            ClientTransportConfig::AeronUdp { stream_id } => {
                let number: String = signed_decimal_text(*stream_id);
                let mut text: String = joined("AeronUdp { stream_id: ", number.as_str());
                text.append(" }");
                text
            },
        }
    }
}

/// The settings of every connection and reconnection.
#[derive(Debug, PartialEq, Eq)]
pub struct ClientConfig {
    /// Where the control connection is opened.
    pub endpoint: ControlEndpoint,
    /// What is asked for once it is open.
    pub transport: ClientTransportConfig,
    /// Whether this process may connect to the Aeron media driver.
    pub aeron_enabled: bool,
    /// The idle time after which a ping is due, in nanoseconds.
    pub keepalive_interval: u128,
}

impl Clone for ClientConfig {
    fn clone(&self) -> (copy: ClientConfig)
        ensures
            copy == *self,
    {
        ClientConfig {
            endpoint: self.endpoint.clone(),
            transport: self.transport,
            aeron_enabled: self.aeron_enabled,
            keepalive_interval: self.keepalive_interval,
        }
    }
}

impl ClientConfig {
    /// A configuration with Aeron disabled and a keepalive interval of 30 seconds.
    pub fn new(endpoint: ControlEndpoint, transport: ClientTransportConfig) -> (config:
        ClientConfig)
        ensures
            config == (ClientConfig {
                endpoint,
                transport,
                aeron_enabled: false,
                keepalive_interval: DEFAULT_KEEPALIVE_INTERVAL,
            }),
    {
        ClientConfig {
            endpoint,
            transport,
            aeron_enabled: false,
            keepalive_interval: DEFAULT_KEEPALIVE_INTERVAL,
        }
    }
}

/// What has to be there before the transport is asked for.
#[derive(Debug, Clone, Copy, PartialEq, Eq, Structural)]
pub struct Preparations {
    /// The Aeron stream that is to be received on a UDP port of its own.
    pub aeron_udp_stream: Option<i32>,
    /// Whether a UDP socket has to be bound.
    pub udp_socket: bool,
}

/// What has to be there for this transport.
pub open spec fn preparations_for(transport: ClientTransportConfig) -> Preparations {
    Preparations {
        aeron_udp_stream: match transport {
            ClientTransportConfig::AeronUdp { stream_id } => Some(stream_id),
            _ => None,
        },
        udp_socket: transport is Udp,
    }
}

/// What has to be there before the transport is asked for.
pub fn prepare(transport: ClientTransportConfig, aeron_enabled: bool) -> (result: Result<
    Preparations,
    NegotiationError,
>)
    ensures
        result == (if transport.aeron() && !aeron_enabled {
            Err(NegotiationError::AeronDisabled)
        } else {
            Ok(preparations_for(transport))
        }),
{
    if transport.is_aeron() && !aeron_enabled {
        return Err(NegotiationError::AeronDisabled);
    }
    let aeron_udp_stream: Option<i32> = match transport {
        ClientTransportConfig::AeronUdp { stream_id } => Some(stream_id),
        _ => None,
    };
    Ok(
        Preparations {
            aeron_udp_stream,
            udp_socket: matches!(transport, ClientTransportConfig::Udp),
        },
    )
}

/// What a client that waits asks for if it receives at these ports.
pub open spec fn selection_for(
    transport: ClientTransportConfig,
    udp_port: Option<u16>,
    aeron_udp_port: Option<u16>,
) -> Result<TransportSelection, NegotiationError> {
    match transport {
        ClientTransportConfig::Udp => match udp_port {
            Some(client_port) => Ok(TransportSelection::Udp { client_port }),
            None => Err(NegotiationError::UdpNotInitialized),
        },
        ClientTransportConfig::AeronIpc { stream_id } => Ok(
            TransportSelection::AeronIpc { stream_id },
        ),
        ClientTransportConfig::AeronUdp { stream_id } => match aeron_udp_port {
            Some(client_port) => Ok(TransportSelection::AeronUdp { client_port, stream_id }),
            None => Err(NegotiationError::AeronNotPrepared),
        },
    }
}

/// What a client that waits asks for if it receives at these ports.
pub fn select_transport(
    transport: ClientTransportConfig,
    udp_port: Option<u16>,
    aeron_udp_port: Option<u16>,
) -> (result: Result<TransportSelection, NegotiationError>)
    ensures
        result == selection_for(transport, udp_port, aeron_udp_port),
{
    match transport {
        ClientTransportConfig::Udp => match udp_port {
            Some(client_port) => Ok(TransportSelection::Udp { client_port }),
            None => Err(NegotiationError::UdpNotInitialized),
        },
        ClientTransportConfig::AeronIpc { stream_id } => Ok(
            TransportSelection::AeronIpc { stream_id },
        ),
        ClientTransportConfig::AeronUdp { stream_id } => match aeron_udp_port {
            Some(client_port) => Ok(TransportSelection::AeronUdp { client_port, stream_id }),
            None => Err(NegotiationError::AeronNotPrepared),
        },
    }
}

/// What went wrong at a client.
#[derive(Debug, PartialEq, Eq)]
pub enum ClientError {
    /// Aeron transport selected while `[aeron].enabled` is false.
    AeronDisabled,
    /// Data transport is not ready.
    NotReady,
    Protocol(ProtocolError),
    /// The control connection has ended.
    Ended,
    /// The server has closed the control connection.
    Closed(String),
    /// The control connection has ended before the reply to a request.
    EndedWhileWaiting,
    /// The server has closed the control connection before the reply to a request.
    ClosedWhileWaiting(String),
    /// Binary frames are not allowed on the control connection.
    BinaryFrame,
    /// What the server has sent is neither an event nor a reply.
    InvalidMessage(String),
    /// The server has refused the request.
    Refused(String),
    /// The reply is to another operation.
    UnexpectedReply { operation: ControlOperation, reply: ControlReply },
}

/// An event of the control connection that no request waits for.
#[derive(Debug, PartialEq, Eq)]
pub enum ClientEvent {
    /// A reply to a request that is not waited for.
    Reply(ControlReply),
    /// A fault of a stream.
    StreamError(StreamError),
    /// A ping or pong was handled.
    Keepalive,
}

/// A text of the control connection: an event, if it can be read as one, and else a reply
/// or the reason why it is none.
#[derive(Debug, PartialEq, Eq)]
pub struct ReceivedControl {
    pub event: Option<ControlEvent>,
    pub envelope: Result<ControlReplyEnvelope, String>,
}

/// The number of the request after this one. Zero is never used.
pub open spec fn next_id(request_id: u64) -> u64 {
    if request_id == u64::MAX {
        1
    } else {
        (request_id + 1) as u64
    }
}

pub(crate) fn following_id(request_id: u64) -> (next: u64)
    ensures
        next == next_id(request_id),
{
    if request_id == u64::MAX {
        1
    } else {
        request_id + 1
    }
}

/// What the reply to a request means.
pub open spec fn reply_result(operation: ControlOperation, reply: ControlReply) -> Result<
    (),
    ClientError,
> {
    match (operation, reply) {
        (ControlOperation::Subscribe, ControlReply::Subscribed { .. }) => Ok(()),
        (ControlOperation::Unsubscribe, ControlReply::Unsubscribed { .. }) => Ok(()),
        (ControlOperation::RefetchBbo, ControlReply::Refetched { .. }) => Ok(()),
        (_, ControlReply::Error { message }) => Err(ClientError::Refused(message)),
        _ => Err(ClientError::UnexpectedReply { operation, reply }),
    }
}

/// What the reply to a request means.
pub fn validate_request_reply(operation: ControlOperation, reply: ControlReply) -> (result: Result<
    (),
    ClientError,
>)
    ensures
        result == reply_result(operation, reply),
{
    match (operation, reply) {
        (ControlOperation::Subscribe, ControlReply::Subscribed { .. }) => Ok(()),
        (ControlOperation::Unsubscribe, ControlReply::Unsubscribed { .. }) => Ok(()),
        (ControlOperation::RefetchBbo, ControlReply::Refetched { .. }) => Ok(()),
        (_, ControlReply::Error { message }) => Err(ClientError::Refused(message)),
        (operation, reply) => Err(ClientError::UnexpectedReply { operation, reply }),
    }
}

/// A server that grants a request acknowledges it, and one that refuses it does not.
pub proof fn law_granted_requests_are_acknowledged(request: RequestModel, reply: ControlReply)
    ensures
        reply@ == request.granted() ==> reply_result(request.op, reply) is Ok,
        reply is Error ==> reply_result(request.op, reply) is Err,
{
}

/// The event that a text is.
pub open spec fn event_of(received: ReceivedControl) -> Result<ClientEvent, ClientError> {
    match received.event {
        Some(ControlEvent::StreamError { error }) => Ok(ClientEvent::StreamError(error)),
        None => match received.envelope {
            Ok(envelope) => Ok(ClientEvent::Reply(envelope.reply)),
            Err(reason) => Err(ClientError::InvalidMessage(reason)),
        },
    }
}

/// The event that a text is.
pub fn parse_client_event(received: ReceivedControl) -> (result: Result<ClientEvent, ClientError>)
    ensures
        result == event_of(received),
{
    match received.event {
        Some(event) => Ok(ClientEvent::StreamError(event.into_stream_error())),
        None => match received.envelope {
            Ok(envelope) => Ok(ClientEvent::Reply(envelope.reply)),
            Err(reason) => Err(ClientError::InvalidMessage(reason)),
        },
    }
}

/// What a client does while it waits for the reply to a request.
#[derive(Debug, PartialEq, Eq)]
pub enum AwaitStep {
    /// Wait on.
    Continue,
    /// Answer a ping and wait on.
    Pong(Vec<u8>),
    /// The wait is over.
    Done(Result<(), ClientError>),
}

/// What a client that looks for an event has done so far.
#[derive(Debug, PartialEq, Eq)]
pub enum ControlLook {
    /// Nothing.
    Start,
    /// It has looked at the control connection.
    Received(Received<ReceivedControl>),
}

/// What a client that looks for an event does next.
#[derive(Debug, PartialEq, Eq)]
pub enum ControlStep {
    /// Look at the control connection, without waiting.
    ReadControl,
    /// Nothing is there.
    Nothing,
    Deliver(ClientEvent),
    /// Answer a ping, then deliver a keepalive.
    Pong(Vec<u8>),
    Fail(ClientError),
}

/// What a client does while it waits for the reply to a request, and the event that it
/// keeps for later.
pub open spec fn awaited(
    request_id: u64,
    operation: ControlOperation,
    received: Received<ReceivedControl>,
) -> (AwaitStep, Option<ClientEvent>) {
    match received {
        Received::NotReady => (AwaitStep::Continue, None),
        Received::Ended => (AwaitStep::Done(Err(ClientError::EndedWhileWaiting)), None),
        Received::Frame(ControlFrame::Binary(_)) => (
            AwaitStep::Done(Err(ClientError::BinaryFrame)),
            None,
        ),
        Received::Frame(ControlFrame::Text(text)) => match (text.event, text.envelope) {
            (Some(ControlEvent::StreamError { error }), _) => (
                AwaitStep::Continue,
                Some(ClientEvent::StreamError(error)),
            ),
            (None, Err(reason)) => (AwaitStep::Done(Err(ClientError::InvalidMessage(reason))), None),
            (None, Ok(envelope)) => if envelope.request_id != Some(request_id) {
                (AwaitStep::Continue, Some(ClientEvent::Reply(envelope.reply)))
            } else {
                (AwaitStep::Done(reply_result(operation, envelope.reply)), None)
            },
        },
        Received::Frame(ControlFrame::Ping(payload)) => (
            AwaitStep::Pong(payload),
            Some(ClientEvent::Keepalive),
        ),
        Received::Frame(ControlFrame::Pong) => (AwaitStep::Continue, Some(ClientEvent::Keepalive)),
        Received::Frame(ControlFrame::Close(reason)) => (
            AwaitStep::Done(Err(ClientError::ClosedWhileWaiting(reason))),
            None,
        ),
        Received::Frame(ControlFrame::Other) => (AwaitStep::Continue, None),
    }
}

/// A change of owners that is made once the server has acknowledged it.
pub struct ChangePlan {
    pub keys: Vec<SubscriptionKey>,
    pub release: bool,
    /// What the server is asked for first, if it has to be asked.
    pub request: Option<ControlRequest>,
}

/// One client's subscriptions and connection state.
pub struct Client {
    pub config: ClientConfig,
    pub has_udp_socket: bool,
    pub aeron_udp_port: Option<u16>,
    pub ref_counts: RefCounts,
    pub last_message_sent: u128,
    pub transport_ready: bool,
    pub next_request_id: u64,
    pub pending_events: VecDeque<ClientEvent>,
}

impl Client {
    /// Owners are counted rightly, and no request has the number zero.
    pub open spec fn wf(self) -> bool {
        &&& self.ref_counts.wf()
        &&& self.next_request_id > 0
    }

    /// Why a request cannot be sent.
    pub open spec fn refusal(self, request: RequestModel) -> Option<ClientError> {
        if !self.transport_ready {
            Some(ClientError::NotReady)
        } else {
            match request.error() {
                Some(error) => Some(ClientError::Protocol(error)),
                None => None,
            }
        }
    }

    /// A client without subscriptions whose transport is not ready yet.
    pub fn new(
        config: ClientConfig,
        has_udp_socket: bool,
        aeron_udp_port: Option<u16>,
        now: u128,
    ) -> (result: Result<Client, ClientError>)
        ensures
            match result {
                Ok(client) => {
                    &&& !(config.transport.aeron() && !config.aeron_enabled)
                    &&& client.wf()
                    &&& client.config == config
                    &&& client.has_udp_socket == has_udp_socket
                    &&& client.aeron_udp_port == aeron_udp_port
                    &&& client.last_message_sent == now
                    &&& !client.transport_ready
                    &&& client.next_request_id == 1
                    &&& client.pending_events@ == Seq::<ClientEvent>::empty()
                    &&& forall|key: KeyModel| #[trigger] client.ref_counts.count(key) == 0
                },
                Err(error) => {
                    &&& config.transport.aeron() && !config.aeron_enabled
                    &&& error == ClientError::AeronDisabled
                },
            },
    {
        match prepare(config.transport, config.aeron_enabled) {
            Err(_) => Err(ClientError::AeronDisabled),
            Ok(_) => Ok(
                Client {
                    config,
                    has_udp_socket,
                    aeron_udp_port,
                    ref_counts: RefCounts::new(),
                    last_message_sent: now,
                    transport_ready: false,
                    next_request_id: 1,
                    pending_events: VecDeque::new(),
                },
            ),
        }
    }

    pub fn config(&self) -> (config: &ClientConfig)
        ensures
            *config == self.config,
    {
        &self.config
    }

    /// The local owners of a confirmed subscription.
    pub fn subscription_count(&self, key: &SubscriptionKey) -> (count: usize)
        requires
            self.wf(),
        ensures
            count == self.ref_counts.count(key@),
    {
        self.ref_counts.get(key)
    }

    /// What to ask the server for.
    pub fn selection(&self, udp_port: Option<u16>) -> (result: Result<
        TransportSelection,
        NegotiationError,
    >)
        ensures
            result == selection_for(self.config.transport, udp_port, self.aeron_udp_port),
    {
        select_transport(self.config.transport, udp_port, self.aeron_udp_port)
    }

    /// Takes in what comes before the transport is ready.
    pub fn negotiate_transport(&mut self, received: Received<Result<ControlReply, String>>) -> (
    step: NegotiationStep)
        ensures
            step == step_on_received(old(self).has_udp_socket, received),
            *final(self) == (Client {
                transport_ready: old(self).transport_ready || step is Ready,
                ..*old(self)
            }),
    {
        let step: NegotiationStep = negotiation_step(self.has_udp_socket, received);
        if matches!(step, NegotiationStep::Ready) {
            self.transport_ready = true;
        }
        step
    }

    /// The UDP socket receives from the server: the transport is ready.
    pub fn udp_connected(&mut self)
        ensures
            *final(self) == (Client { transport_ready: true, ..*old(self) }),
    {
        self.transport_ready = true;
    }

    /// Numbers a request that can be sent.
    pub fn send_request(&mut self, request: ControlRequest) -> (result: Result<
        ControlRequestEnvelope,
        ClientError,
    >)
        requires
            old(self).wf(),
        ensures
            final(self).wf(),
            match old(self).refusal(request@) {
                Some(error) => *final(self) == *old(self) && result == Err::<
                    ControlRequestEnvelope,
                    _,
                >(error),
                None => {
                    &&& result == Ok::<_, ClientError>(
                        ControlRequestEnvelope { request_id: old(self).next_request_id, request },
                    )
                    &&& *final(self) == (Client {
                        next_request_id: next_id(old(self).next_request_id),
                        ..*old(self)
                    })
                },
            },
    {
        if !self.transport_ready {
            return Err(ClientError::NotReady);
        }
        if let Err(error) = request.validate() {
            return Err(ClientError::Protocol(error));
        }
        let request_id: u64 = self.next_request_id;
        self.next_request_id = following_id(request_id);
        Ok(ControlRequestEnvelope::new(request_id, request))
    }

    /// Takes in what comes while the reply to a request is waited for. What is not the
    /// reply is kept for later.
    pub fn await_request_reply(
        &mut self,
        request_id: u64,
        operation: ControlOperation,
        received: Received<ReceivedControl>,
    ) -> (step: AwaitStep)
        requires
            old(self).wf(),
        ensures
            final(self).wf(),
            step == awaited(request_id, operation, received).0,
            *final(self) == (Client { pending_events: final(self).pending_events, ..*old(self) }),
            final(self).pending_events@ == match awaited(request_id, operation, received).1 {
                Some(event) => old(self).pending_events@.push(event),
                None => old(self).pending_events@,
            },
    {
        match received {
            Received::NotReady => AwaitStep::Continue,
            Received::Ended => AwaitStep::Done(Err(ClientError::EndedWhileWaiting)),
            Received::Frame(frame) => match frame {
                ControlFrame::Binary(_) => AwaitStep::Done(Err(ClientError::BinaryFrame)),
                ControlFrame::Text(text) => match text.event {
                    Some(event) => {
                        self.pending_events.push_back(
                            ClientEvent::StreamError(event.into_stream_error()),
                        );
                        AwaitStep::Continue
                    },
                    None => match text.envelope {
                        Err(reason) => AwaitStep::Done(Err(ClientError::InvalidMessage(reason))),
                        Ok(envelope) => {
                            let awaited_for: bool = match envelope.request_id {
                                Some(id) => id == request_id,
                                None => false,
                            };
                            if awaited_for {
                                AwaitStep::Done(validate_request_reply(operation, envelope.reply))
                            } else {
                                self.pending_events.push_back(ClientEvent::Reply(envelope.reply));
                                AwaitStep::Continue
                            }
                        },
                    },
                },
                ControlFrame::Ping(payload) => {
                    self.pending_events.push_back(ClientEvent::Keepalive);
                    AwaitStep::Pong(payload)
                },
                ControlFrame::Pong => {
                    self.pending_events.push_back(ClientEvent::Keepalive);
                    AwaitStep::Continue
                },
                ControlFrame::Close(reason) => AwaitStep::Done(
                    Err(ClientError::ClosedWhileWaiting(reason)),
                ),
                ControlFrame::Other => AwaitStep::Continue,
            },
        }
    }

    /// Plans to add owners to subscriptions. The server is asked for those that have none.
    pub fn acquire(&self, arg: &SubscriptionArg) -> (result: Result<ChangePlan, ClientError>)
        requires
            self.wf(),
        ensures
            match arg@.error() {
                Some(error) => result == Err::<ChangePlan, _>(ClientError::Protocol(error)),
                None => {
                    let first = self.ref_counts.with_owners(arg_keys(arg@), 0);
                    &&& result is Ok
                    &&& key_models(result->Ok_0.keys@) == arg_keys(arg@)
                    &&& !result->Ok_0.release
                    &&& match result->Ok_0.request {
                        None => first.len() == 0,
                        Some(request) => first.len() > 0 && request@ == request_for(
                            ControlOperation::Subscribe,
                            first,
                        ),
                    }
                },
            },
    {
        if let Err(error) = arg.validate() {
            return Err(ClientError::Protocol(error));
        }
        let keys: Vec<SubscriptionKey> = arg.keys();
        assert(key_models(keys@) =~= arg_keys(arg@));
        let first: Vec<SubscriptionArg> = self.ref_counts.select(&keys, 0);
        assert(first@.len() == arg_models(first@).len());
        let request: Option<ControlRequest> = if first.len() == 0 {
            None
        } else {
            Some(ControlRequest::subscribe(first))
        };
        Ok(ChangePlan { keys, release: false, request })
    }

    /// Plans to take owners from subscriptions. The server is told of those that have one
    /// owner.
    pub fn release(&self, arg: &SubscriptionArg) -> (result: Result<ChangePlan, ClientError>)
        requires
            self.wf(),
        ensures
            match arg@.error() {
                Some(error) => result == Err::<ChangePlan, _>(ClientError::Protocol(error)),
                None => {
                    let last = self.ref_counts.with_owners(arg_keys(arg@), 1);
                    &&& result is Ok
                    &&& key_models(result->Ok_0.keys@) == arg_keys(arg@)
                    &&& result->Ok_0.release
                    &&& match result->Ok_0.request {
                        None => last.len() == 0,
                        Some(request) => last.len() > 0 && request@ == request_for(
                            ControlOperation::Unsubscribe,
                            last,
                        ),
                    }
                },
            },
    {
        if let Err(error) = arg.validate() {
            return Err(ClientError::Protocol(error));
        }
        let keys: Vec<SubscriptionKey> = arg.keys();
        assert(key_models(keys@) =~= arg_keys(arg@));
        let last: Vec<SubscriptionArg> = self.ref_counts.select(&keys, 1);
        assert(last@.len() == arg_models(last@).len());
        let request: Option<ControlRequest> = if last.len() == 0 {
            None
        } else {
            Some(ControlRequest::unsubscribe(last))
        };
        Ok(ChangePlan { keys, release: true, request })
    }

    /// Makes a planned change if the server has acknowledged it, and none otherwise.
    pub fn conclude(&mut self, plan: &ChangePlan, acknowledged: Result<(), ClientError>) -> (result:
        Result<(), ClientError>)
        requires
            old(self).wf(),
            acknowledged is Ok && !plan.release ==> old(self).ref_counts.has_room(key_models(plan.keys@)),
        ensures
            final(self).wf(),
            result == acknowledged,
            acknowledged is Err ==> *final(self) == *old(self),
            acknowledged is Ok ==> {
                &&& *final(self) == (Client { ref_counts: final(self).ref_counts, ..*old(self) })
                &&& forall|key: KeyModel| #[trigger]
                    final(self).ref_counts.count(key) == held_after(
                        old(self).ref_counts.count(key),
                        occurrences(key_models(plan.keys@), key),
                        plan.release,
                    )
            },
    {
        if acknowledged.is_err() {
            return acknowledged;
        }
        if plan.release {
            self.ref_counts.release_all(&plan.keys);
        } else {
            self.ref_counts.acquire_all(&plan.keys);
        }
        acknowledged
    }

    /// The request to fetch best bids and offers again.
    pub fn refetch_bbo(ids: Vec<i32>) -> (request: ControlRequest)
        ensures
            request@ == (RequestModel {
                op: ControlOperation::RefetchBbo,
                args: seq![ArgModel { id: ids@, stream: "bbo"@, noise_filter_bps: None }],
            }),
    {
        ControlRequest::refetch_bbo(ids)
    }

    /// The one request that restores every subscription, if there is any.
    pub fn resubscribe(&self) -> (request: Option<ControlRequest>)
        requires
            self.wf(),
        ensures
            ({
                let keys = key_models(self.ref_counts.counts.keys@);
                match request {
                    None => keys.len() == 0,
                    Some(request) => keys.len() > 0 && request@ == request_for(
                        ControlOperation::Subscribe,
                        keys,
                    ),
                }
            }),
    {
        let args: Vec<SubscriptionArg> = self.ref_counts.all_args();
        assert(args@.len() == arg_models(args@).len());
        if args.len() == 0 {
            None
        } else {
            Some(ControlRequest::subscribe(args))
        }
    }

    /// Takes over the subscriptions of the client that this one replaces.
    pub fn take_over(&mut self, ref_counts: RefCounts)
        requires
            old(self).wf(),
            ref_counts.wf(),
        ensures
            final(self).wf(),
            *final(self) == (Client { ref_counts, ..*old(self) }),
    {
        self.ref_counts = ref_counts;
    }

    /// Enters that something was sent.
    pub fn message_sent(&mut self, now: u128)
        ensures
            *final(self) == (Client { last_message_sent: now, ..*old(self) }),
    {
        self.last_message_sent = now;
    }

    /// Whether nothing was sent for so long that a ping is due.
    pub fn ping_due(&self, now: u128) -> (due: bool)
        ensures
            due == (elapsed(self.last_message_sent, now) >= self.config.keepalive_interval),
    {
        let idle: u128 = if now >= self.last_message_sent {
            now - self.last_message_sent
        } else {
            0
        };
        idle >= self.config.keepalive_interval
    }

    /// Looks for an event. The oldest event that was kept for later comes first, and the
    /// control connection is looked at only where none was kept.
    pub fn poll_control(&mut self, look: ControlLook) -> (step: ControlStep)
        requires
            old(self).wf(),
        ensures
            final(self).wf(),
            *final(self) == (Client { pending_events: final(self).pending_events, ..*old(self) }),
            (step, final(self).pending_events@) == looked(old(self).pending_events@, look),
    {
        match look {
            ControlLook::Start => match self.pending_events.pop_front() {
                Some(event) => {
                    assert(self.pending_events@ =~= old(self).pending_events@.drop_first());
                    ControlStep::Deliver(event)
                },
                None => ControlStep::ReadControl,
            },
            ControlLook::Received(received) => received_step(received),
        }
    }
}

/// What a look gives where these events were kept for later, and what is kept after it.
pub open spec fn looked(kept: Seq<ClientEvent>, look: ControlLook) -> (
    ControlStep,
    Seq<ClientEvent>,
) {
    match look {
        ControlLook::Start => if kept.len() > 0 {
            (ControlStep::Deliver(kept[0]), kept.drop_first())
        } else {
            (ControlStep::ReadControl, kept)
        },
        ControlLook::Received(received) => (polled(received), kept),
    }
}

/// What a look at the control connection gives.
fn received_step(received: Received<ReceivedControl>) -> (step: ControlStep)
    ensures
        step == polled(received),
{
    match received {
        Received::NotReady => ControlStep::Nothing,
        Received::Ended => ControlStep::Fail(ClientError::Ended),
        Received::Frame(frame) => match frame {
            ControlFrame::Binary(_) => ControlStep::Fail(ClientError::BinaryFrame),
            ControlFrame::Text(text) => match parse_client_event(text) {
                Ok(event) => ControlStep::Deliver(event),
                Err(error) => ControlStep::Fail(error),
            },
            ControlFrame::Ping(payload) => ControlStep::Pong(payload),
            ControlFrame::Pong => ControlStep::Deliver(ClientEvent::Keepalive),
            ControlFrame::Close(reason) => ControlStep::Fail(ClientError::Closed(reason)),
            ControlFrame::Other => ControlStep::Nothing,
        },
    }
}

/// What a look at the control connection gives.
pub open spec fn polled(received: Received<ReceivedControl>) -> ControlStep {
    match received {
        Received::NotReady => ControlStep::Nothing,
        Received::Ended => ControlStep::Fail(ClientError::Ended),
        Received::Frame(ControlFrame::Binary(_)) => ControlStep::Fail(ClientError::BinaryFrame),
        Received::Frame(ControlFrame::Text(text)) => match event_of(text) {
            Ok(event) => ControlStep::Deliver(event),
            Err(error) => ControlStep::Fail(error),
        },
        Received::Frame(ControlFrame::Ping(payload)) => ControlStep::Pong(payload),
        Received::Frame(ControlFrame::Pong) => ControlStep::Deliver(ClientEvent::Keepalive),
        Received::Frame(ControlFrame::Close(reason)) => ControlStep::Fail(
            ClientError::Closed(reason),
        ),
        Received::Frame(ControlFrame::Other) => ControlStep::Nothing,
    }
}

/// What the first looks of so many polls in a row give.
pub open spec fn first_looks(kept: Seq<ClientEvent>, polls: nat) -> Seq<ControlStep>
    decreases polls,
{
    if polls == 0 {
        Seq::empty()
    } else {
        let (step, left) = looked(kept, ControlLook::Start);
        seq![step] + first_looks(left, (polls - 1) as nat)
    }
}

/// Events that were kept for later are handed out in the order in which they came, before
/// the control connection is looked at again.
pub proof fn law_kept_events_come_first(kept: Seq<ClientEvent>, polls: nat, at: int)
    requires
        0 <= at < polls,
    ensures
        first_looks(kept, polls).len() == polls,
        first_looks(kept, polls)[at] == (if at < kept.len() {
            ControlStep::Deliver(kept[at])
        } else {
            ControlStep::ReadControl
        }),
    decreases polls,
{
    let left = looked(kept, ControlLook::Start).1;
    if polls > 1 {
        let next = if at > 0 {
            at - 1
        } else {
            0
        };
        law_kept_events_come_first(left, (polls - 1) as nat, next);
    } else {
        assert(first_looks(left, 0).len() == 0);
    }
}

/// Nothing is lost while a reply is waited for: what comes meanwhile and is not the reply
/// is kept for later, unless it ends the wait.
pub proof fn law_waiting_loses_nothing(
    request_id: u64,
    operation: ControlOperation,
    received: Received<ReceivedControl>,
)
    requires
        !(awaited(request_id, operation, received).0 is Done),
    ensures
        polled(received) matches ControlStep::Deliver(event) ==> awaited(
            request_id,
            operation,
            received,
        ).1 == Some(event),
        polled(received) matches ControlStep::Pong(payload) ==> awaited(
            request_id,
            operation,
            received,
        ) == (AwaitStep::Pong(payload), Some(ClientEvent::Keepalive)),
        !(polled(received) is Deliver) && !(polled(received) is Pong) ==> awaited(
            request_id,
            operation,
            received,
        ).1 is None,
{
}

/// Only the reply that carries the request's number ends the wait for it with success.
pub proof fn law_only_the_own_reply_acknowledges(
    request_id: u64,
    operation: ControlOperation,
    received: Received<ReceivedControl>,
)
    requires
        awaited(request_id, operation, received).0 == AwaitStep::Done(Ok::<(), ClientError>(())),
    ensures
        match received {
            Received::Frame(ControlFrame::Text(text)) => match (text.event, text.envelope) {
                (None, Ok(envelope)) => envelope.request_id == Some(request_id) && reply_result(
                    operation,
                    envelope.reply,
                ) is Ok,
                _ => false,
            },
            _ => false,
        },
{
}

/// Client and server fit together: a numbered request that keeps every rule reaches the
/// backend of a session with a transport, and if the backend grants it, the session's
/// answer ends the client's wait with success.
pub proof fn law_granted_requests_end_the_wait(
    session: SessionModel,
    request_id: u64,
    request: RequestModel,
    answer: ControlReplyEnvelope,
)
    requires
        session.awaiting is Nothing,
        session.transport_ready,
        request.error() is None,
        ({
            let asked = session.step(
                EventModel::Text {
                    selection: None,
                    request_id: Some(request_id),
                    request: Ok(request),
                },
            );
            asked.0.step(EventModel::BackendReplied { result: Ok(request.granted()) }).1
                == (ActionModel::Reply { request_id: answer.request_id, reply: answer.reply@ })
        }),
    ensures
        session.step(
            EventModel::Text {
                selection: None,
                request_id: Some(request_id),
                request: Ok(request),
            },
        ).1 == ActionModel::Request(request),
        awaited(
            request_id,
            request.op,
            Received::Frame(
                ControlFrame::Text(ReceivedControl { event: None, envelope: Ok(answer) }),
            ),
        ).0 == AwaitStep::Done(Ok::<(), ClientError>(())),
{
    law_granted_requests_are_acknowledged(request, answer.reply);
}

/// Requests are never numbered zero, and two in a row have different numbers.
pub proof fn law_request_numbers_differ(request_id: u64)
    ensures
        next_id(request_id) != 0,
        request_id != 0 ==> next_id(request_id) != request_id,
{
}

/// What is acquired and then released, each once acknowledged, is owned as before; where
/// every key occurs once, the server is asked for a key exactly if it is told of it again.
pub proof fn law_acquire_and_release_balance(
    counts: RefCounts,
    acquired: RefCounts,
    keys: Seq<KeyModel>,
    key: KeyModel,
)
    requires
        keys.no_duplicates(),
        forall|other: KeyModel| #[trigger]
            acquired.count(other) == held_after(
                counts.count(other),
                occurrences(keys, other),
                false,
            ),
    ensures
        held_after(acquired.count(key), occurrences(keys, key), true) == counts.count(key),
        counts.with_owners(keys, 0) == acquired.with_owners(keys, 1),
{
    assert(acquired.count(key) == held_after(counts.count(key), occurrences(keys, key), false));
    lemma_same_choice(counts, acquired, keys, keys.len() as int);
    assert(keys.take(keys.len() as int) =~= keys);
}

/// Keys without owners before are the keys with one owner after.
proof fn lemma_same_choice(
    counts: RefCounts,
    acquired: RefCounts,
    keys: Seq<KeyModel>,
    many: int,
)
    requires
        0 <= many <= keys.len(),
        keys.no_duplicates(),
        forall|other: KeyModel| #[trigger]
            acquired.count(other) == held_after(
                counts.count(other),
                occurrences(keys, other),
                false,
            ),
    ensures
        counts.with_owners(keys.take(many), 0) == acquired.with_owners(keys.take(many), 1),
    decreases many,
{
    if many > 0 {
        lemma_same_choice(counts, acquired, keys, many - 1);
        let some = keys.take(many);
        assert(some.drop_last() =~= keys.take(many - 1));
        let last = some.last();
        assert(last == keys[many - 1]);
        lemma_occurs_once(keys, many - 1);
        assert(acquired.count(last) == counts.count(last) + 1);
    }
}

/// A key of distinct keys occurs once.
proof fn lemma_occurs_once(keys: Seq<KeyModel>, at: int)
    requires
        keys.no_duplicates(),
        0 <= at < keys.len(),
    ensures
        occurrences(keys, keys[at]) == 1,
    decreases keys.len(),
{
    let fewer = keys.drop_last();
    if at == keys.len() - 1 {
        crate::ref_counts::lemma_occurs(fewer, keys[at]);
        if fewer.contains(keys[at]) {
            let i = choose|i: int| 0 <= i < fewer.len() && fewer[i] == keys[at];
            assert(keys[i] == keys[at]);
        }
    } else {
        assert(fewer.no_duplicates());
        lemma_occurs_once(fewer, at);
        assert(keys.last() != keys[at]);
    }
}

impl ClientError {
    /// What the error says. `shown` is the reply that the error carries, as it is shown.
    pub open spec fn text(self, shown: Seq<char>) -> Seq<char> {
        match self {
            ClientError::AeronDisabled =>
                "Aeron transport selected while [aeron].enabled is false"@,
            ClientError::NotReady => "data transport is not ready"@,
            ClientError::Protocol(error) => error.text(),
            ClientError::Ended => "control WebSocket closed"@,
            ClientError::Closed(reason) => "control WebSocket closed: "@ + reason@,
            ClientError::EndedWhileWaiting =>
                "control WebSocket closed while awaiting request acknowledgement"@,
            ClientError::ClosedWhileWaiting(reason) =>
                "control WebSocket closed while awaiting request acknowledgement: "@ + reason@,
            ClientError::BinaryFrame => "binary frames are not allowed on the control WebSocket"@,
            ClientError::InvalidMessage(_) => "invalid control WebSocket message"@,
            ClientError::Refused(message) => message@,
            ClientError::UnexpectedReply { operation, .. } => "unexpected control reply for "@
                + operation.shown() + ": "@ + shown,
        }
    }

    /// What the error says. `shown` is the reply that the error carries, as it is shown; it
    /// does not matter for other errors.
    pub fn message(&self, shown: &str) -> (message: String)
        ensures
            message@ == self.text(shown@),
    {
        match self {
            ClientError::AeronDisabled =>
                "Aeron transport selected while [aeron].enabled is false".to_owned(),
            ClientError::NotReady => "data transport is not ready".to_owned(),
            ClientError::Protocol(error) => error.message(),
            ClientError::Ended => "control WebSocket closed".to_owned(),
            ClientError::Closed(reason) => joined("control WebSocket closed: ", reason.as_str()),
            ClientError::EndedWhileWaiting =>
                "control WebSocket closed while awaiting request acknowledgement".to_owned(),
            ClientError::ClosedWhileWaiting(reason) => joined(
                "control WebSocket closed while awaiting request acknowledgement: ",
                reason.as_str(),
            ),
            ClientError::BinaryFrame =>
                "binary frames are not allowed on the control WebSocket".to_owned(),
            ClientError::InvalidMessage(_) => "invalid control WebSocket message".to_owned(),
            ClientError::Refused(message) => message.clone(),
            ClientError::UnexpectedReply { operation, .. } => {
                let mut text: String = joined("unexpected control reply for ", operation.show());
                text.append(": ");
                text.append(shown);
                text
            },
        }
    }
}

} // verus!
