//! The client side of the link over every transport.
//!
//! A client is driven from outside: whoever owns the connection hands over what was
//! received and sends the requests that come back.
use vstd::prelude::*;
use vstd::string::*;
use crate::float64::Float64;
use crate::frame_filter::FrameFilter;
use crate::negotiation::{
    check_aeron, negotiation_step, select_transport, selection_for, step_on_received,
    NegotiationError, NegotiationStep,
};
use crate::protocol::{
    arg_models, ArgModel, ClientTransportConfig, ControlOperation, ControlReply, ControlRequest,
    KeyModel, ProtocolError, RequestModel, SubscriptionArg, SubscriptionKey, TransportSelection,
};
use crate::collections::{has_key, index_of};
use crate::protocol::law_key_as_arg_names_that_key;
use crate::ref_counts::{
    arg_keys, held_after, key_args, key_models, law_listed_subscriptions_have_owners, occurrences,
    RefCounts,
};
use crate::routes::RouteModel;
use crate::transport::{ControlEndpoint, ControlFrame, InboundFrame, Received};

verus! {

/// The default idle time after which a ping is due, in nanoseconds.
pub const DEFAULT_KEEPALIVE_INTERVAL: u128 = 30_000_000_000;

/// How a client reaches its server and what it asks for.
#[derive(Debug, PartialEq, Eq)]
pub struct LinkClientConfig {
    pub endpoint: ControlEndpoint,
    pub transport: ClientTransportConfig,
    pub aeron_enabled: bool,
    pub keepalive_interval: u128,
}

impl Clone for LinkClientConfig {
    fn clone(&self) -> (copy: LinkClientConfig)
        ensures
            copy == *self,
    {
        LinkClientConfig {
            endpoint: self.endpoint.clone(),
            transport: self.transport.clone(),
            aeron_enabled: self.aeron_enabled,
            keepalive_interval: self.keepalive_interval,
        }
    }
}

impl LinkClientConfig {
    /// A configuration with Aeron disabled and the default keepalive interval.
    pub fn new(endpoint: ControlEndpoint, transport: ClientTransportConfig) -> (config:
        LinkClientConfig)
        ensures
            config == (LinkClientConfig {
                endpoint,
                transport,
                aeron_enabled: false,
                keepalive_interval: DEFAULT_KEEPALIVE_INTERVAL,
            }),
    {
        LinkClientConfig {
            endpoint,
            transport,
            aeron_enabled: false,
            keepalive_interval: DEFAULT_KEEPALIVE_INTERVAL,
        }
    }
}

/// What went wrong at a client.
#[derive(Debug, PartialEq, Eq)]
pub enum LinkError {
    /// Aeron transport selected while `[aeron].enabled` is false.
    AeronDisabled,
    /// Data transport is not ready.
    NotReady,
    Protocol(ProtocolError),
    /// The control connection has ended.
    Ended,
    /// The server has closed the control connection.
    Closed(String),
}

/// What a client has received.
#[derive(Debug, PartialEq, Eq)]
pub enum ClientEvent {
    Data(InboundFrame),
    Reply(ControlReply),
    Text(String),
    Keepalive,
}

/// A text of the control connection, and the reply that it is, if it is one.
#[derive(Debug, PartialEq, Eq)]
pub struct ReceivedText {
    pub text: String,
    pub reply: Option<ControlReply>,
}

/// What a client does with what it has received.
#[derive(Debug, PartialEq, Eq)]
pub enum ControlStep {
    /// Nothing is there.
    Nothing,
    /// Look again.
    Skip,
    Deliver(ClientEvent),
    /// Answer a ping, then deliver a keepalive.
    Pong(Vec<u8>),
    Fail(LinkError),
}

/// One client's subscriptions, filter and connection state.
pub struct LinkClient {
    pub config: LinkClientConfig,
    pub has_udp_socket: bool,
    pub ref_counts: RefCounts,
    pub frame_filter: FrameFilter,
    pub last_message_sent: u128,
    pub transport_ready: bool,
}

/// Subscribing or unsubscribing to these keys.
pub open spec fn request_for(op: ControlOperation, keys: Seq<KeyModel>) -> RequestModel {
    RequestModel { op, args: key_args(keys) }
}

impl LinkClient {
    pub open spec fn wf(self) -> bool {
        &&& self.ref_counts.wf()
        &&& self.frame_filter.wf()
    }

    /// Everything but the owners of subscriptions is as it was.
    pub open spec fn same_but_counts(self, other: LinkClient) -> bool {
        &&& self.config == other.config
        &&& self.has_udp_socket == other.has_udp_socket
        &&& self.frame_filter == other.frame_filter
        &&& self.last_message_sent == other.last_message_sent
        &&& self.transport_ready == other.transport_ready
    }

    /// Why a request cannot be sent.
    pub open spec fn refusal(self, request: RequestModel) -> Option<LinkError> {
        if !self.transport_ready {
            Some(LinkError::NotReady)
        } else {
            match request.error() {
                Some(error) => Some(LinkError::Protocol(error)),
                None => None,
            }
        }
    }

    /// A client without subscriptions whose transport is not ready yet.
    pub fn new(config: LinkClientConfig, has_udp_socket: bool, now: u128) -> (result: Result<
        LinkClient,
        LinkError,
    >)
        ensures
            match result {
                Ok(client) => {
                    &&& !(config.transport@.aeron_config() is Some && !config.aeron_enabled)
                    &&& client.wf()
                    &&& client.config == config
                    &&& client.has_udp_socket == has_udp_socket
                    &&& client.last_message_sent == now
                    &&& !client.transport_ready
                    &&& forall|key: KeyModel| #[trigger] client.ref_counts.count(key) == 0
                    &&& client.frame_filter.routes@ == Map::<
                        RouteModel,
                        Option<crate::frame_filter::NoiseFilter>,
                    >::empty()
                },
                Err(error) => {
                    &&& config.transport@.aeron_config() is Some && !config.aeron_enabled
                    &&& error == LinkError::AeronDisabled
                },
            },
    {
        if check_aeron(&config.transport, config.aeron_enabled).is_err() {
            return Err(LinkError::AeronDisabled);
        }
        Ok(
            LinkClient {
                config,
                has_udp_socket,
                ref_counts: RefCounts::new(),
                frame_filter: FrameFilter::new(),
                last_message_sent: now,
                transport_ready: false,
            },
        )
    }

    pub fn config(&self) -> (config: &LinkClientConfig)
        ensures
            *config == self.config,
    {
        &self.config
    }

    /// The owners of a subscription.
    pub fn subscription_count(&self, key: &SubscriptionKey) -> (count: usize)
        requires
            self.wf(),
        ensures
            count == self.ref_counts.count(key@),
    {
        self.ref_counts.get(key)
    }

    /// What to ask the server for.
    pub fn selection(&self, udp_port: Option<u16>) -> (result: Result<
        TransportSelection,
        NegotiationError,
    >)
        ensures
            match result {
                Ok(selection) => selection_for(self.config.transport@, udp_port) == Some(
                    selection@,
                ),
                Err(error) => selection_for(self.config.transport@, udp_port) is None && error
                    == NegotiationError::UdpNotInitialized,
            },
    {
        select_transport(&self.config.transport, udp_port)
    }

    /// Takes in what comes before the transport is ready.
    pub fn negotiate_transport(&mut self, received: Received<Result<ControlReply, String>>) -> (
    step: NegotiationStep)
        ensures
            step == step_on_received(old(self).has_udp_socket, received),
            *final(self) == (LinkClient {
                transport_ready: old(self).transport_ready || step is Ready,
                ..*old(self)
            }),
    {
        let step: NegotiationStep = negotiation_step(self.has_udp_socket, received);
        if matches!(step, NegotiationStep::Ready) {
            self.transport_ready = true;
        }
        step
    }

    /// The UDP socket receives from the server: the transport is ready.
    pub fn udp_connected(&mut self)
        ensures
            *final(self) == (LinkClient { transport_ready: true, ..*old(self) }),
    {
        self.transport_ready = true;
    }

    /// Checks that a request can be sent.
    pub fn send_request(&self, request: &ControlRequest) -> (result: Result<(), LinkError>)
        ensures
            result == match self.refusal(request@) {
                Some(error) => Err(error),
                None => Ok(()),
            },
    {
        if !self.transport_ready {
            return Err(LinkError::NotReady);
        }
        match request.validate() {
            Ok(()) => Ok(()),
            Err(error) => Err(LinkError::Protocol(error)),
        }
    }

    /// Adds owners to subscriptions, and gives the request for those that had none. The
    /// owners count even if the request cannot be sent.
    pub fn acquire(&mut self, arg: &SubscriptionArg) -> (result: Result<
        Option<ControlRequest>,
        LinkError,
    >)
        requires
            old(self).wf(),
            arg@.error() is None ==> old(self).ref_counts.has_room(arg_keys(arg@)),
        ensures
            final(self).wf(),
            final(self).same_but_counts(*old(self)),
            match arg@.error() {
                Some(error) => *final(self) == *old(self) && result == Err::<
                    Option<ControlRequest>,
                    _,
                >(LinkError::Protocol(error)),
                None => {
                    let first = old(self).ref_counts.newly_held(arg_keys(arg@));
                    let request = request_for(ControlOperation::Subscribe, first);
                    &&& forall|key: KeyModel| #[trigger]
                        final(self).ref_counts.count(key) == old(self).ref_counts.count(key)
                            + occurrences(arg_keys(arg@), key)
                    &&& match result {
                        Ok(None) => first.len() == 0,
                        Ok(Some(sent)) => first.len() > 0 && old(self).refusal(request) is None
                            && sent@ == request,
                        Err(error) => first.len() > 0 && old(self).refusal(request) == Some(error),
                    }
                },
            },
    {
        if let Err(error) = arg.validate() {
            return Err(LinkError::Protocol(error));
        }
        let keys: Vec<SubscriptionKey> = arg.keys();
        assert(key_models(keys@) =~= arg_keys(arg@));
        let first: Vec<SubscriptionArg> = self.ref_counts.acquire_all(&keys);
        assert(first@.len() == arg_models(first@).len());
        if first.len() == 0 {
            return Ok(None);
        }
        let request = ControlRequest::subscribe(first);
        match self.send_request(&request) {
            Ok(()) => Ok(Some(request)),
            Err(error) => Err(error),
        }
    }

    /// Takes owners from subscriptions, and gives the request for those that have none
    /// left. The owners are gone even if the request cannot be sent.
    pub fn release(&mut self, arg: &SubscriptionArg) -> (result: Result<
        Option<ControlRequest>,
        LinkError,
    >)
        requires
            old(self).wf(),
        ensures
            final(self).wf(),
            final(self).same_but_counts(*old(self)),
            match arg@.error() {
                Some(error) => *final(self) == *old(self) && result == Err::<
                    Option<ControlRequest>,
                    _,
                >(LinkError::Protocol(error)),
                None => {
                    let last = old(self).ref_counts.newly_free(arg_keys(arg@));
                    let request = request_for(ControlOperation::Unsubscribe, last);
                    &&& forall|key: KeyModel| #[trigger]
                        final(self).ref_counts.count(key) == held_after(
                            old(self).ref_counts.count(key),
                            occurrences(arg_keys(arg@), key),
                            true,
                        )
                    &&& match result {
                        Ok(None) => last.len() == 0,
                        Ok(Some(sent)) => last.len() > 0 && old(self).refusal(request) is None
                            && sent@ == request,
                        Err(error) => last.len() > 0 && old(self).refusal(request) == Some(error),
                    }
                },
            },
    {
        if let Err(error) = arg.validate() {
            return Err(LinkError::Protocol(error));
        }
        let keys: Vec<SubscriptionKey> = arg.keys();
        assert(key_models(keys@) =~= arg_keys(arg@));
        let last: Vec<SubscriptionArg> = self.ref_counts.release_all(&keys);
        assert(last@.len() == arg_models(last@).len());
        if last.len() == 0 {
            return Ok(None);
        }
        let request = ControlRequest::unsubscribe(last);
        match self.send_request(&request) {
            Ok(()) => Ok(Some(request)),
            Err(error) => Err(error),
        }
    }

    /// The request to fetch best bids and offers again.
    pub fn refetch_bbo(&self, ids: Vec<i32>) -> (result: Result<ControlRequest, LinkError>)
        ensures
            ({
                let request = RequestModel {
                    op: ControlOperation::RefetchBbo,
                    args: seq![ArgModel { id: ids@, stream: "bbo"@, noise_filter_bps: None }],
                };
                match result {
                    Ok(sent) => self.refusal(request) is None && sent@ == request,
                    Err(error) => self.refusal(request) == Some(error),
                }
            }),
    {
        let request = ControlRequest::refetch_bbo(ids);
        match self.send_request(&request) {
            Ok(()) => Ok(request),
            Err(error) => Err(error),
        }
    }

    /// The filter follows a request that was sent.
    pub fn request_sent(&mut self, request: &ControlRequest)
        requires
            old(self).wf(),
        ensures
            final(self).wf(),
            *final(self) == (LinkClient { frame_filter: final(self).frame_filter, ..*old(self) }),
            FrameFilter::applied(
                old(self).frame_filter.routes@,
                final(self).frame_filter.routes@,
                request@,
            ),
            request.op == ControlOperation::RefetchBbo ==> *final(self) == *old(self),
    {
        self.frame_filter.apply(request);
    }

    /// The one request that restores every subscription, if there is any.
    pub fn resubscribe(&self) -> (result: Result<Option<ControlRequest>, LinkError>)
        requires
            self.wf(),
        ensures
            ({
                let keys = key_models(self.ref_counts.counts.keys@);
                let request = request_for(ControlOperation::Subscribe, keys);
                match result {
                    Ok(None) => keys.len() == 0,
                    Ok(Some(sent)) => keys.len() > 0 && self.refusal(request) is None && sent@
                        == request,
                    Err(error) => keys.len() > 0 && self.refusal(request) == Some(error),
                }
            }),
    {
        let args: Vec<SubscriptionArg> = self.ref_counts.all_args();
        assert(args@.len() == arg_models(args@).len());
        if args.len() == 0 {
            return Ok(None);
        }
        let request = ControlRequest::subscribe(args);
        match self.send_request(&request) {
            Ok(()) => Ok(Some(request)),
            Err(error) => Err(error),
        }
    }

    /// Takes over the subscriptions of the client that this one replaces, and filters by
    /// them from the start.
    pub fn take_over(&mut self, ref_counts: RefCounts)
        requires
            old(self).wf(),
            ref_counts.wf(),
        ensures
            final(self).wf(),
            final(self).ref_counts == ref_counts,
            *final(self) == (LinkClient {
                ref_counts,
                frame_filter: final(self).frame_filter,
                ..*old(self)
            }),
            final(self).frame_filter.routes@ == FrameFilter::added(
                Map::empty(),
                ref_counts.counts.keys@,
                ref_counts.counts.keys@.len() as int,
            ),
    {
        let keys: Vec<SubscriptionKey> = ref_counts.all_keys();
        self.frame_filter.replace_subscriptions(&keys);
        self.ref_counts = ref_counts;
    }

    /// Enters that something was sent.
    pub fn message_sent(&mut self, now: u128)
        ensures
            *final(self) == (LinkClient { last_message_sent: now, ..*old(self) }),
    {
        self.last_message_sent = now;
    }

    /// Whether nothing was sent for so long that a ping is due.
    pub fn ping_due(&self, now: u128) -> (due: bool)
        ensures
            due == (crate::link_client::elapsed(self.last_message_sent, now)
                >= self.config.keepalive_interval),
    {
        let idle: u128 = if now >= self.last_message_sent {
            now - self.last_message_sent
        } else {
            0
        };
        idle >= self.config.keepalive_interval
    }

    /// Takes in what a look at the control connection has given.
    pub fn poll_control<R: Fn(Float64, Float64, Float64) -> bool>(
        &mut self,
        received: Received<ReceivedText>,
        now: u128,
        reaches: &R,
    ) -> (step: ControlStep)
        requires
            old(self).wf(),
            forall|a: Float64, b: Float64, c: Float64| call_requires(*reaches, (a, b, c)),
        ensures
            final(self).wf(),
            *final(self) == (LinkClient { frame_filter: final(self).frame_filter, ..*old(self) }),
            !(received matches Received::Frame(ControlFrame::Binary(_))) ==> *final(self) == *old(self),
            match received {
                Received::NotReady => step == ControlStep::Nothing,
                Received::Ended => step == ControlStep::Fail(LinkError::Ended),
                Received::Frame(ControlFrame::Text(text)) => step == ControlStep::Deliver(
                    match text.reply {
                        Some(reply) => ClientEvent::Reply(reply),
                        None => ClientEvent::Text(text.text),
                    },
                ),
                Received::Frame(ControlFrame::Binary(bytes)) => {
                    let accepted = step is Deliver;
                    &&& old(self).frame_filter.may_accept(*reaches, bytes@, now, accepted)
                    &&& final(self).frame_filter.routes@ == old(self).frame_filter.after_frame(
                        bytes@,
                        now,
                        accepted,
                    )
                    &&& step == (if accepted {
                        ControlStep::Deliver(
                            ClientEvent::Data(InboundFrame { bytes, received_at: now }),
                        )
                    } else {
                        ControlStep::Skip
                    })
                },
                Received::Frame(ControlFrame::Ping(payload)) => step == ControlStep::Pong(payload),
                Received::Frame(ControlFrame::Pong) => step == ControlStep::Deliver(
                    ClientEvent::Keepalive,
                ),
                Received::Frame(ControlFrame::Close(reason)) => step == ControlStep::Fail(
                    LinkError::Closed(reason),
                ),
                Received::Frame(ControlFrame::Other) => step == ControlStep::Nothing,
            },
    {
        match received {
            Received::NotReady => ControlStep::Nothing,
            Received::Ended => ControlStep::Fail(LinkError::Ended),
            Received::Frame(frame) => match frame {
                ControlFrame::Text(text) => match text.reply {
                    Some(reply) => ControlStep::Deliver(ClientEvent::Reply(reply)),
                    None => ControlStep::Deliver(ClientEvent::Text(text.text)),
                },
                ControlFrame::Binary(bytes) => match self.receive(bytes, now, reaches) {
                    Some(frame) => ControlStep::Deliver(ClientEvent::Data(frame)),
                    None => ControlStep::Skip,
                },
                ControlFrame::Ping(payload) => ControlStep::Pong(payload),
                ControlFrame::Pong => ControlStep::Deliver(ClientEvent::Keepalive),
                ControlFrame::Close(reason) => ControlStep::Fail(LinkError::Closed(reason)),
                ControlFrame::Other => ControlStep::Nothing,
            },
        }
    }

    /// Takes in a payload from any transport, and gives it back if the client has asked for
    /// it and it is not noise.
    pub fn receive<R: Fn(Float64, Float64, Float64) -> bool>(
        &mut self,
        bytes: Vec<u8>,
        now: u128,
        reaches: &R,
    ) -> (frame: Option<InboundFrame>)
        requires
            old(self).wf(),
            forall|a: Float64, b: Float64, c: Float64| call_requires(*reaches, (a, b, c)),
        ensures
            final(self).wf(),
            *final(self) == (LinkClient { frame_filter: final(self).frame_filter, ..*old(self) }),
            old(self).frame_filter.may_accept(*reaches, bytes@, now, frame is Some),
            final(self).frame_filter.routes@ == old(self).frame_filter.after_frame(
                bytes@,
                now,
                frame is Some,
            ),
            frame is Some ==> frame->0 == (InboundFrame { bytes, received_at: now }),
    {
        if self.frame_filter.accepts(bytes.as_slice(), now, reaches) {
            Some(InboundFrame { bytes, received_at: now })
        } else {
            None
        }
    }
}

/// The time from one moment to another; none if the other is earlier.
pub open spec fn elapsed(from: u128, to: u128) -> int {
    if to >= from {
        to - from
    } else {
        0
    }
}

/// No request leaves a client before its transport is ready, and none that breaks a rule.
pub proof fn law_requests_wait_for_the_transport(client: LinkClient, request: RequestModel)
    requires
        client.refusal(request) is None,
    ensures
        client.transport_ready,
        request.error() is None,
{
}

impl LinkError {
    pub open spec fn text(self) -> Seq<char> {
        match self {
            LinkError::AeronDisabled =>
                "Aeron transport selected while [aeron].enabled is false"@,
            LinkError::NotReady => "data transport is not ready"@,
            LinkError::Protocol(error) => error.text(),
            LinkError::Ended => "control WebSocket closed"@,
            LinkError::Closed(reason) => "control WebSocket closed: "@ + reason@,
        }
    }

    pub fn message(&self) -> (message: String)
        ensures
            message@ == self.text(),
    {
        match self {
            LinkError::AeronDisabled =>
                "Aeron transport selected while [aeron].enabled is false".to_owned(),
            LinkError::NotReady => "data transport is not ready".to_owned(),
            LinkError::Protocol(error) => error.message(),
            LinkError::Ended => "control WebSocket closed".to_owned(),
            LinkError::Closed(reason) => {
                let mut text: String = "control WebSocket closed: ".to_owned();
                text.append(reason.as_str());
                text
            },
        }
    }
}

/// The request that restores subscriptions names every subscription that has owners, and
/// nothing else; each has one argument.
pub proof fn law_resubscribing_restores_every_subscription(counts: RefCounts, key: KeyModel)
    requires
        counts.wf(),
    ensures
        ({
            let keys = key_models(counts.counts.keys@);
            let request = request_for(ControlOperation::Subscribe, keys);
            &&& request.names(key) <==> counts.count(key) > 0
            &&& keys.no_duplicates()
            &&& request.args.len() == keys.len()
        }),
{
    let listed = counts.counts.keys@;
    let keys = key_models(listed);
    let request = request_for(ControlOperation::Subscribe, keys);
    law_listed_subscriptions_have_owners(counts, key);
    if request.names(key) {
        let i = choose|i: int|
            0 <= i < request.args.len() && (#[trigger] request.args[i]).names(key);
        law_key_as_arg_names_that_key(keys[i]);
        assert(listed[i]@ == key);
    }
    if has_key(listed, key) {
        let i = index_of(listed, key);
        law_key_as_arg_names_that_key(keys[i]);
        assert(request.args[i].names(key));
    }
    assert forall|i: int, j: int|
        0 <= i < keys.len() && 0 <= j < keys.len() && i != j implies keys[i] != keys[j] by {
        assert(listed[i]@ != listed[j]@);
    }
}

} // verus!
