//! The client that never waits: it sends numbered requests and looks for what has come.
use vstd::prelude::*;
use vstd::string::*;
use crate::client::{
    following_id, next_id, preparations_for, prepare, ClientError, ClientTransportConfig,
    Preparations, ReceivedControl,
};
use crate::client_messages::TransportSelection;
use crate::collections::VecSet;
use crate::negotiation::{control_uri, control_uri_text, NegotiationError, NegotiationStep};
use crate::protocol::{
    ControlReply, ControlReplyEnvelope, ControlRequest, ControlRequestEnvelope, ProtocolError,
    TransportReady,
};
use crate::server_messages::{ControlEvent, StreamError};
use crate::session::{addressed_selection, AwaitingModel, SessionModel};
use crate::transport::{ControlFrame, InboundFrame, Received};

verus! {

/// What a look has given.
#[derive(Debug, PartialEq, Eq)]
pub enum PollEvent {
    Data(InboundFrame),
    Reply(ControlReplyEnvelope),
    StreamError(StreamError),
    Keepalive,
}

/// What a client that polls has done so far.
#[derive(Debug, PartialEq, Eq)]
pub enum PollLook {
    /// Nothing.
    Start,
    /// It has looked for a datagram.
    Datagram(Option<InboundFrame>),
    /// It has looked at the control connection.
    Control(Received<ReceivedControl>),
}

/// What a client that polls does next.
#[derive(Debug, PartialEq, Eq)]
pub enum PollStep {
    /// Look for a datagram, without waiting.
    ReadDatagram,
    /// Look at the control connection, without waiting.
    ReadControl,
    /// Nothing is there.
    Nothing,
    Deliver(PollEvent),
    /// Answer a ping, then deliver a keepalive.
    Pong(Vec<u8>),
    Fail(ClientError),
}

/// What it takes to connect to a server.
#[derive(Debug, PartialEq, Eq)]
pub struct PollingPlan {
    /// The WebSocket URI to ask for.
    pub uri: String,
    /// What has to be there before the transport is asked for.
    pub preparations: Preparations,
}

/// What it takes to connect to a server.
pub fn plan_connection(
    address: &str,
    transport: ClientTransportConfig,
    aeron_enabled: bool,
) -> (result: Result<PollingPlan, NegotiationError>)
    ensures
        match result {
            Err(error) => transport.aeron() && !aeron_enabled && error
                == NegotiationError::AeronDisabled,
            Ok(plan) => {
                &&& !(transport.aeron() && !aeron_enabled)
                &&& plan.uri@ == control_uri_text(address@)
                &&& plan.preparations == preparations_for(transport)
            },
        },
{
    match prepare(transport, aeron_enabled) {
        Err(error) => Err(error),
        Ok(preparations) => Ok(PollingPlan { uri: control_uri(address), preparations }),
    }
}

/// What a client that polls asks for if it receives at these ports.
pub open spec fn selection_for(
    transport: ClientTransportConfig,
    udp_port: Option<u16>,
    aeron_udp_port: Option<u16>,
) -> Result<TransportSelection, NegotiationError> {
    match (transport, udp_port) {
        (ClientTransportConfig::Udp, None) => Err(NegotiationError::UdpNotPrepared),
        _ => crate::client::selection_for(transport, udp_port, aeron_udp_port),
    }
}

/// What a client that polls asks for if it receives at these ports.
pub fn select_transport(
    transport: ClientTransportConfig,
    udp_port: Option<u16>,
    aeron_udp_port: Option<u16>,
) -> (result: Result<TransportSelection, NegotiationError>)
    ensures
        result == selection_for(transport, udp_port, aeron_udp_port),
{
    match (transport, udp_port) {
        (ClientTransportConfig::Udp, None) => Err(NegotiationError::UdpNotPrepared),
        _ => crate::client::select_transport(transport, udp_port, aeron_udp_port),
    }
}

/// What a client that receives Aeron at this port does with the transport that the server
/// has prepared: it takes what it has asked for, and nothing else.
pub open spec fn step_on_ready(
    transport: ClientTransportConfig,
    aeron_udp_port: Option<u16>,
    ready: TransportReady,
) -> NegotiationStep {
    match (transport, ready) {
        (ClientTransportConfig::Udp, TransportReady::Udp { server_address }) =>
            NegotiationStep::ConnectUdp(server_address),
        (
            ClientTransportConfig::AeronIpc { stream_id: requested },
            TransportReady::AeronIpc { stream_id },
        ) => if requested == stream_id {
            NegotiationStep::Ready
        } else {
            NegotiationStep::Fail(
                NegotiationError::Incompatible { requested: transport, returned: ready },
            )
        },
        (
            ClientTransportConfig::AeronUdp { stream_id: requested },
            TransportReady::AeronUdp { endpoint, stream_id },
        ) => if requested == stream_id && aeron_udp_port == Some(endpoint.port) {
            NegotiationStep::Ready
        } else {
            NegotiationStep::Fail(
                NegotiationError::Incompatible { requested: transport, returned: ready },
            )
        },
        _ => NegotiationStep::Fail(
            NegotiationError::Incompatible { requested: transport, returned: ready },
        ),
    }
}

/// What a client that polls does with what it receives before its transport is ready.
pub open spec fn step_on_frame(
    transport: ClientTransportConfig,
    aeron_udp_port: Option<u16>,
    frame: ControlFrame<Result<ControlReply, String>>,
) -> NegotiationStep {
    match frame {
        ControlFrame::Text(Err(reason)) => NegotiationStep::Fail(
            NegotiationError::InvalidReply(reason),
        ),
        ControlFrame::Text(Ok(ControlReply::TransportReady { transport: ready })) => step_on_ready(
            transport,
            aeron_udp_port,
            ready,
        ),
        ControlFrame::Text(Ok(ControlReply::Error { message })) => NegotiationStep::Fail(
            NegotiationError::Refused(message),
        ),
        ControlFrame::Text(Ok(reply)) => NegotiationStep::Fail(
            NegotiationError::UnexpectedReply(reply),
        ),
        ControlFrame::Ping(payload) => NegotiationStep::Pong(payload),
        ControlFrame::Close(reason) => NegotiationStep::Fail(NegotiationError::Closed(reason)),
        _ => NegotiationStep::Continue,
    }
}

fn accept_ready(
    transport: ClientTransportConfig,
    aeron_udp_port: Option<u16>,
    ready: TransportReady,
) -> (step: NegotiationStep)
    ensures
        step == step_on_ready(transport, aeron_udp_port, ready),
{
    let fits: bool = match (&transport, &ready) {
        (
            ClientTransportConfig::AeronIpc { stream_id: requested },
            TransportReady::AeronIpc { stream_id },
        ) => *requested == *stream_id,
        (
            ClientTransportConfig::AeronUdp { stream_id: requested },
            TransportReady::AeronUdp { endpoint, stream_id },
        ) => *requested == *stream_id && match aeron_udp_port {
            Some(port) => port == endpoint.port,
            None => false,
        },
        _ => false,
    };
    if fits {
        return NegotiationStep::Ready;
    }
    match (transport, ready) {
        (ClientTransportConfig::Udp, TransportReady::Udp { server_address }) =>
            NegotiationStep::ConnectUdp(server_address),
        (requested, returned) => NegotiationStep::Fail(
            NegotiationError::Incompatible { requested, returned },
        ),
    }
}

/// What a client that polls does with what it receives before its transport is ready.
pub fn negotiation_step(
    transport: ClientTransportConfig,
    aeron_udp_port: Option<u16>,
    frame: ControlFrame<Result<ControlReply, String>>,
) -> (step: NegotiationStep)
    ensures
        step == step_on_frame(transport, aeron_udp_port, frame),
{
    match frame {
        ControlFrame::Text(Err(reason)) => NegotiationStep::Fail(
            NegotiationError::InvalidReply(reason),
        ),
        ControlFrame::Text(Ok(reply)) => match reply {
            ControlReply::TransportReady { transport: ready } => accept_ready(
                transport,
                aeron_udp_port,
                ready,
            ),
            ControlReply::Error { message } => NegotiationStep::Fail(
                NegotiationError::Refused(message),
            ),
            other => NegotiationStep::Fail(NegotiationError::UnexpectedReply(other)),
        },
        ControlFrame::Ping(payload) => NegotiationStep::Pong(payload),
        ControlFrame::Close(reason) => NegotiationStep::Fail(NegotiationError::Closed(reason)),
        ControlFrame::Binary(_) => NegotiationStep::Continue,
        ControlFrame::Pong => NegotiationStep::Continue,
        ControlFrame::Other => NegotiationStep::Continue,
    }
}

/// A client's request numbers and the requests that have no reply yet.
pub struct PollingClient {
    pub has_udp: bool,
    pub next_request_id: u64,
    pub pending_requests: VecSet<u64>,
}

impl PollingClient {
    pub open spec fn wf(self) -> bool {
        &&& self.pending_requests.wf()
        &&& self.next_request_id > 0
    }

    /// A client whose transport is ready.
    pub fn new(has_udp: bool) -> (client: PollingClient)
        ensures
            client.wf(),
            client.has_udp == has_udp,
            client.next_request_id == 1,
            client.pending_requests@ == Set::<u64>::empty(),
    {
        PollingClient { has_udp, next_request_id: 1, pending_requests: VecSet::new() }
    }

    pub fn has_udp(&self) -> (held: bool)
        ensures
            held == self.has_udp,
    {
        self.has_udp
    }

    /// Numbers a request that keeps every rule. Its number is used up even if it is not
    /// sent.
    pub fn send_request(&mut self, request: ControlRequest) -> (result: Result<
        ControlRequestEnvelope,
        ProtocolError,
    >)
        requires
            old(self).wf(),
        ensures
            final(self).wf(),
            match request@.error() {
                Some(error) => *final(self) == *old(self) && result == Err::<
                    ControlRequestEnvelope,
                    _,
                >(error),
                None => {
                    &&& result == Ok::<_, ProtocolError>(
                        ControlRequestEnvelope { request_id: old(self).next_request_id, request },
                    )
                    &&& *final(self) == (PollingClient {
                        next_request_id: next_id(old(self).next_request_id),
                        ..*old(self)
                    })
                },
            },
    {
        if let Err(error) = request.validate() {
            return Err(error);
        }
        let request_id: u64 = self.next_request_id;
        self.next_request_id = following_id(request_id);
        Ok(ControlRequestEnvelope::new(request_id, request))
    }

    /// The request was sent: its reply is due.
    pub fn request_sent(&mut self, request_id: u64)
        requires
            old(self).wf(),
        ensures
            final(self).wf(),
            final(self).has_udp == old(self).has_udp,
            final(self).next_request_id == old(self).next_request_id,
            final(self).pending_requests@ == old(self).pending_requests@.insert(request_id),
    {
        self.pending_requests.insert(request_id);
    }

    /// Looks for an event: a datagram first, then what the control connection has brought.
    /// A reply ends the wait for its request.
    pub fn poll(&mut self, look: PollLook) -> (step: PollStep)
        requires
            old(self).wf(),
        ensures
            final(self).wf(),
            final(self).has_udp == old(self).has_udp,
            final(self).next_request_id == old(self).next_request_id,
            step == looked(old(self).has_udp, look),
            !(look is Control) ==> *final(self) == *old(self),
            look matches PollLook::Control(received) ==> final(self).pending_requests@
                == match answered(received) {
                Some(request_id) => old(self).pending_requests@.remove(request_id),
                None => old(self).pending_requests@,
            },
    {
        match look {
            PollLook::Start => {
                if self.has_udp {
                    PollStep::ReadDatagram
                } else {
                    PollStep::ReadControl
                }
            },
            PollLook::Datagram(datagram) => match datagram {
                Some(frame) => PollStep::Deliver(PollEvent::Data(frame)),
                None => PollStep::ReadControl,
            },
            PollLook::Control(received) => self.take_in(received),
        }
    }

    fn take_in(&mut self, received: Received<ReceivedControl>) -> (step: PollStep)
        requires
            old(self).wf(),
        ensures
            final(self).wf(),
            final(self).has_udp == old(self).has_udp,
            final(self).next_request_id == old(self).next_request_id,
            step == polled(received),
            final(self).pending_requests@ == match answered(received) {
                Some(request_id) => old(self).pending_requests@.remove(request_id),
                None => old(self).pending_requests@,
            },
    {
        match received {
            Received::NotReady => PollStep::Nothing,
            Received::Ended => PollStep::Fail(ClientError::Ended),
            Received::Frame(frame) => match frame {
                ControlFrame::Binary(_) => PollStep::Fail(ClientError::BinaryFrame),
                ControlFrame::Text(text) => match text.event {
                    Some(event) => PollStep::Deliver(
                        PollEvent::StreamError(event.into_stream_error()),
                    ),
                    None => match text.envelope {
                        Err(reason) => PollStep::Fail(ClientError::InvalidMessage(reason)),
                        Ok(envelope) => {
                            if let Some(request_id) = envelope.request_id {
                                self.pending_requests.remove(&request_id);
                            }
                            PollStep::Deliver(PollEvent::Reply(envelope))
                        },
                    },
                },
                ControlFrame::Ping(payload) => PollStep::Pong(payload),
                ControlFrame::Pong => PollStep::Deliver(PollEvent::Keepalive),
                ControlFrame::Close(reason) => PollStep::Fail(ClientError::Closed(reason)),
                ControlFrame::Other => PollStep::ReadControl,
            },
        }
    }
}

/// What a client that polls does next.
pub open spec fn looked(has_udp: bool, look: PollLook) -> PollStep {
    match look {
        PollLook::Start => if has_udp {
            PollStep::ReadDatagram
        } else {
            PollStep::ReadControl
        },
        PollLook::Datagram(Some(frame)) => PollStep::Deliver(PollEvent::Data(frame)),
        PollLook::Datagram(None) => PollStep::ReadControl,
        PollLook::Control(received) => polled(received),
    }
}

/// What a look at the control connection gives.
pub open spec fn polled(received: Received<ReceivedControl>) -> PollStep {
    match received {
        Received::NotReady => PollStep::Nothing,
        Received::Ended => PollStep::Fail(ClientError::Ended),
        Received::Frame(ControlFrame::Binary(_)) => PollStep::Fail(ClientError::BinaryFrame),
        Received::Frame(ControlFrame::Text(text)) => match (text.event, text.envelope) {
            (Some(ControlEvent::StreamError { error }), _) => PollStep::Deliver(
                PollEvent::StreamError(error),
            ),
            (None, Ok(envelope)) => PollStep::Deliver(PollEvent::Reply(envelope)),
            (None, Err(reason)) => PollStep::Fail(ClientError::InvalidMessage(reason)),
        },
        Received::Frame(ControlFrame::Ping(payload)) => PollStep::Pong(payload),
        Received::Frame(ControlFrame::Pong) => PollStep::Deliver(PollEvent::Keepalive),
        Received::Frame(ControlFrame::Close(reason)) => PollStep::Fail(ClientError::Closed(reason)),
        Received::Frame(ControlFrame::Other) => PollStep::ReadControl,
    }
}

/// How a poll ends whose looks at the control connection give these one after the other,
/// and how many of them it takes in.
pub open spec fn control_outcome(controls: Seq<Received<ReceivedControl>>) -> (PollStep, nat)
    decreases controls.len(),
{
    if controls.len() == 0 {
        (PollStep::ReadControl, 0)
    } else {
        let step = polled(controls[0]);
        if step is ReadControl {
            let rest = control_outcome(controls.drop_first());
            (rest.0, rest.1 + 1)
        } else {
            (step, 1)
        }
    }
}

/// How a poll ends that finds this datagram, if it looks for one, and these at the control
/// connection, and how many of them it takes in.
pub open spec fn poll_outcome(
    has_udp: bool,
    datagram: Option<InboundFrame>,
    controls: Seq<Received<ReceivedControl>>,
) -> (PollStep, nat) {
    match looked(has_udp, PollLook::Start) {
        PollStep::ReadDatagram => match looked(has_udp, PollLook::Datagram(datagram)) {
            PollStep::ReadControl => control_outcome(controls),
            step => (step, 0),
        },
        PollStep::ReadControl => control_outcome(controls),
        step => (step, 0),
    }
}

/// These begin with `first` frames that mean nothing to a client, and then comes something
/// that does.
pub open spec fn means_something_at(
    controls: Seq<Received<ReceivedControl>>,
    first: int,
) -> bool {
    &&& 0 <= first < controls.len()
    &&& forall|i: int|
        0 <= i < first ==> #[trigger] controls[i] == Received::<ReceivedControl>::Frame(
            ControlFrame::Other,
        )
    &&& controls[first] != Received::<ReceivedControl>::Frame(ControlFrame::Other)
}

/// A datagram comes before everything else: where there is one, nothing is taken from the
/// control connection. Otherwise the poll ends with the first thing there that means
/// something to the client.
pub proof fn law_datagrams_come_first(
    has_udp: bool,
    datagram: Option<InboundFrame>,
    controls: Seq<Received<ReceivedControl>>,
    first: int,
)
    ensures
        has_udp && datagram is Some ==> poll_outcome(has_udp, datagram, controls) == (
            PollStep::Deliver(PollEvent::Data(datagram->0)),
            0nat,
        ),
        !(has_udp && datagram is Some) && means_something_at(controls, first) ==> poll_outcome(
            has_udp,
            datagram,
            controls,
        ) == (polled(controls[first]), (first + 1) as nat),
{
    if means_something_at(controls, first) {
        lemma_first_control(controls, first);
    }
}

/// The first thing that means something ends a poll.
proof fn lemma_first_control(controls: Seq<Received<ReceivedControl>>, first: int)
    requires
        means_something_at(controls, first),
    ensures
        control_outcome(controls) == (polled(controls[first]), (first + 1) as nat),
    decreases first,
{
    if first > 0 {
        assert(controls[0] == Received::<ReceivedControl>::Frame(ControlFrame::Other));
        lemma_first_control(controls.drop_first(), first - 1);
    }
}

/// The request that a frame replies to.
pub open spec fn answered(received: Received<ReceivedControl>) -> Option<u64> {
    match received {
        Received::Frame(ControlFrame::Text(text)) => match (text.event, text.envelope) {
            (None, Ok(envelope)) => envelope.request_id,
            _ => None,
        },
        _ => None,
    }
}

/// A request is pending from when it was sent until its reply is delivered.
pub proof fn law_requests_are_pending_until_their_reply(
    pending: Set<u64>,
    request_id: u64,
    received: Received<ReceivedControl>,
)
    requires
        pending.contains(request_id),
    ensures
        ({
            let after = match answered(received) {
                Some(answered_id) => pending.remove(answered_id),
                None => pending,
            };
            &&& !after.contains(request_id) <==> answered(received) == Some(request_id)
            &&& !after.contains(request_id) ==> match polled(received) {
                PollStep::Deliver(PollEvent::Reply(envelope)) => envelope.request_id == Some(
                    request_id,
                ),
                _ => false,
            }
        }),
{
}

/// A client takes the Aeron stream that a server opens for it as it has asked.
pub proof fn law_requested_streams_are_taken(
    session: SessionModel,
    transport: ClientTransportConfig,
    aeron_udp_port: Option<u16>,
    ready: TransportReady,
)
    requires
        session.awaiting is Nothing,
        !session.transport_ready,
        session.aeron_enabled,
        transport.aeron(),
        selection_for(transport, None, aeron_udp_port) is Ok,
        session.selected(
            addressed_selection(
                session.peer_host,
                selection_for(transport, None, aeron_udp_port)->Ok_0,
            ),
        ).0.awaiting == (AwaitingModel::Aeron { ready: ready@ }),
    ensures
        step_on_ready(transport, aeron_udp_port, ready) is Ready,
{
}

/// A client takes only the kind of transport that it has asked for.
pub proof fn law_only_the_requested_transport_is_taken(
    transport: ClientTransportConfig,
    aeron_udp_port: Option<u16>,
    ready: TransportReady,
)
    requires
        !(step_on_ready(transport, aeron_udp_port, ready) is Fail),
    ensures
        match transport {
            ClientTransportConfig::Udp => ready is Udp,
            ClientTransportConfig::AeronIpc { stream_id } => ready == (TransportReady::AeronIpc {
                stream_id,
            }),
            ClientTransportConfig::AeronUdp { stream_id } => ready is AeronUdp
                && ready->AeronUdp_stream_id == stream_id && Some(ready->AeronUdp_endpoint.port)
                == aeron_udp_port,
        },
{
}

} // verus!
