//! How a server session answers its client and where it sends the client's data.
//!
//! A session is driven from outside: whoever owns the connection hands over what has
//! happened and performs the action that comes back.
use vstd::prelude::*;
use vstd::string::*;
use crate::client_messages;
use crate::protocol::{
    AddressModel, AeronConfig, AeronConfigModel, ControlReply, ControlReplyEnvelope,
    ControlRequest, ReadyModel, ReplyModel, RequestModel, SelectTransport, SelectionModel,
    SocketAddress, TransportReady, TransportSelection,
};
use crate::server::SessionControl;
use crate::server_messages::StreamError;

verus! {

/// What a session waits for before it can go on.
#[derive(Debug, PartialEq, Eq)]
pub enum Awaiting {
    Nothing,
    /// The port of the UDP socket that data is sent from.
    Udp { client_port: u16 },
    /// The backend's word on an Aeron stream.
    Aeron { ready: TransportReady },
    /// The backend's answer to a request.
    Backend { request_id: Option<u64> },
}

/// The contents of an [`Awaiting`].
#[verifier::ext_equal]
pub enum AwaitingModel {
    Nothing,
    Udp { client_port: u16 },
    Aeron { ready: ReadyModel },
    Backend { request_id: Option<u64> },
}

impl View for Awaiting {
    type V = AwaitingModel;

    open spec fn view(&self) -> AwaitingModel {
        match self {
            Awaiting::Nothing => AwaitingModel::Nothing,
            Awaiting::Udp { client_port } => AwaitingModel::Udp { client_port: *client_port },
            Awaiting::Aeron { ready } => AwaitingModel::Aeron { ready: ready@ },
            Awaiting::Backend { request_id } => AwaitingModel::Backend { request_id: *request_id },
        }
    }
}

/// What has happened to a session.
#[derive(Debug, PartialEq, Eq)]
pub enum SessionEvent {
    /// A text has come from the client: the choice of a transport, if it can be read as
    /// one, and else a request, with its number if it has one, or the reason why it is none.
    Text {
        selection: Option<SelectTransport>,
        request_id: Option<u64>,
        request: Result<ControlRequest, String>,
    },
    Binary,
    Ping(Vec<u8>),
    Pong,
    Close,
    OtherFrame,
    /// The connection has ended.
    Ended,
    /// Data for the client has come, or its source is gone.
    Outbound(Option<Vec<u8>>),
    /// The backend has something to say, or is gone.
    Control(Option<SessionControl>),
    /// The UDP socket that data is sent from has this port.
    UdpBound { port: u16 },
    /// The backend has opened the Aeron stream, or says why not.
    AeronConfigured { result: Result<(), String> },
    /// The backend has answered the request, or says why it cannot.
    BackendReplied { result: Result<ControlReply, String> },
}

/// The contents of a [`SessionEvent`].
#[verifier::ext_equal]
pub enum EventModel {
    Text {
        selection: Option<SelectionModel>,
        request_id: Option<u64>,
        request: Result<RequestModel, Seq<char>>,
    },
    Binary,
    Ping(Seq<u8>),
    Pong,
    Close,
    OtherFrame,
    Ended,
    Outbound(Option<Seq<u8>>),
    Control(Option<SessionControl>),
    UdpBound { port: u16 },
    AeronConfigured { result: Result<(), Seq<char>> },
    BackendReplied { result: Result<ReplyModel, Seq<char>> },
}

impl View for SessionEvent {
    type V = EventModel;

    open spec fn view(&self) -> EventModel {
        match self {
            SessionEvent::Text { selection, request_id, request } => EventModel::Text {
                selection: match selection {
                    Some(message) => Some(message.transport@),
                    None => None,
                },
                request_id: *request_id,
                request: match request {
                    Ok(request) => Ok(request@),
                    Err(reason) => Err(reason@),
                },
            },
            SessionEvent::Binary => EventModel::Binary,
            SessionEvent::Ping(payload) => EventModel::Ping(payload@),
            SessionEvent::Pong => EventModel::Pong,
            SessionEvent::Close => EventModel::Close,
            SessionEvent::OtherFrame => EventModel::OtherFrame,
            SessionEvent::Ended => EventModel::Ended,
            SessionEvent::Outbound(data) => EventModel::Outbound(
                match data {
                    Some(data) => Some(data@),
                    None => None,
                },
            ),
            SessionEvent::Control(control) => EventModel::Control(*control),
            SessionEvent::UdpBound { port } => EventModel::UdpBound { port: *port },
            SessionEvent::AeronConfigured { result } => EventModel::AeronConfigured {
                result: match result {
                    Ok(()) => Ok(()),
                    Err(reason) => Err(reason@),
                },
            },
            SessionEvent::BackendReplied { result } => EventModel::BackendReplied {
                result: match result {
                    Ok(reply) => Ok(reply@),
                    Err(reason) => Err(reason@),
                },
            },
        }
    }
}

/// What is to be done for a session.
#[derive(Debug, PartialEq, Eq)]
pub enum SessionAction {
    /// Nothing.
    Ignore,
    /// Send a reply to the client, with the number of the request that it answers.
    Reply(ControlReplyEnvelope),
    /// Send the fault of a stream to the client.
    Fault(StreamError),
    /// Answer a ping.
    Pong(Vec<u8>),
    /// Have a UDP socket that data is sent from, and come back with its port.
    BindUdp,
    /// Have the backend open an Aeron stream, and come back with its word.
    ConfigureAeron(AeronConfig),
    /// Hand a request to the backend, and come back with its answer.
    Request(ControlRequest),
    /// Send data by UDP.
    SendDatagram { target: SocketAddress, data: Vec<u8> },
    /// Send data over the control connection.
    SendBinary(Vec<u8>),
    /// End the session.
    Stop,
}

/// The contents of a [`SessionAction`].
#[verifier::ext_equal]
pub enum ActionModel {
    Ignore,
    Reply { request_id: Option<u64>, reply: ReplyModel },
    Fault(StreamError),
    Pong(Seq<u8>),
    BindUdp,
    ConfigureAeron(AeronConfigModel),
    Request(RequestModel),
    SendDatagram { target: AddressModel, data: Seq<u8> },
    SendBinary(Seq<u8>),
    Stop,
}

impl View for SessionAction {
    type V = ActionModel;

    open spec fn view(&self) -> ActionModel {
        match self {
            SessionAction::Ignore => ActionModel::Ignore,
            SessionAction::Reply(envelope) => ActionModel::Reply {
                request_id: envelope.request_id,
                reply: envelope.reply@,
            },
            SessionAction::Fault(error) => ActionModel::Fault(*error),
            SessionAction::Pong(payload) => ActionModel::Pong(payload@),
            SessionAction::BindUdp => ActionModel::BindUdp,
            SessionAction::ConfigureAeron(config) => ActionModel::ConfigureAeron(config@),
            SessionAction::Request(request) => ActionModel::Request(request@),
            SessionAction::SendDatagram { target, data } => ActionModel::SendDatagram {
                target: target@,
                data: data@,
            },
            SessionAction::SendBinary(data) => ActionModel::SendBinary(data@),
            SessionAction::Stop => ActionModel::Stop,
        }
    }
}

/// One client's session.
#[derive(Debug, PartialEq, Eq)]
pub struct Session {
    pub peer_host: String,
    pub local_host: String,
    pub aeron_enabled: bool,
    pub udp_target: Option<SocketAddress>,
    pub external_data_plane: bool,
    pub transport_ready: bool,
    pub awaiting: Awaiting,
}

/// The contents of a [`Session`].
#[verifier::ext_equal]
pub struct SessionModel {
    pub peer_host: Seq<char>,
    pub local_host: Seq<char>,
    pub aeron_enabled: bool,
    pub udp_target: Option<AddressModel>,
    pub external_data_plane: bool,
    pub transport_ready: bool,
    pub awaiting: AwaitingModel,
}

impl View for Session {
    type V = SessionModel;

    open spec fn view(&self) -> SessionModel {
        SessionModel {
            peer_host: self.peer_host@,
            local_host: self.local_host@,
            aeron_enabled: self.aeron_enabled,
            udp_target: match self.udp_target {
                Some(target) => Some(target@),
                None => None,
            },
            external_data_plane: self.external_data_plane,
            transport_ready: self.transport_ready,
            awaiting: self.awaiting@,
        }
    }
}

/// The refusal with this text of the request with this number, if it has one.
pub open spec fn refusal(request_id: Option<u64>, message: Seq<char>) -> ActionModel {
    ActionModel::Reply { request_id, reply: ReplyModel::Error { message } }
}

/// What a client at this host has chosen that has named a port only.
pub open spec fn addressed_selection(
    peer_host: Seq<char>,
    selection: client_messages::TransportSelection,
) -> SelectionModel {
    match selection {
        client_messages::TransportSelection::Udp { client_port } => SelectionModel::Udp {
            client_port,
        },
        client_messages::TransportSelection::AeronIpc { stream_id } => SelectionModel::AeronIpc {
            stream_id,
        },
        client_messages::TransportSelection::AeronUdp { client_port, stream_id } =>
            SelectionModel::AeronUdp {
            endpoint: AddressModel { host: peer_host, port: client_port },
            stream_id,
        },
    }
}

/// The announcement of a transport.
pub open spec fn announced(ready: ReadyModel) -> ActionModel {
    ActionModel::Reply {
        request_id: None,
        reply: ReplyModel::TransportReady { transport: ready },
    }
}

impl SessionModel {
    /// A session that has just begun.
    pub open spec fn begun(
        peer_host: Seq<char>,
        local_host: Seq<char>,
        aeron_enabled: bool,
    ) -> SessionModel {
        SessionModel {
            peer_host,
            local_host,
            aeron_enabled,
            udp_target: None,
            external_data_plane: false,
            transport_ready: false,
            awaiting: AwaitingModel::Nothing,
        }
    }

    /// Whether this can happen now: a session that waits for something hears of nothing
    /// else before it.
    pub open spec fn expects(self, event: EventModel) -> bool {
        match self.awaiting {
            AwaitingModel::Nothing => !(event is UdpBound) && !(event is AeronConfigured) && !(
            event is BackendReplied),
            AwaitingModel::Udp { .. } => event is UdpBound,
            AwaitingModel::Aeron { .. } => event is AeronConfigured,
            AwaitingModel::Backend { .. } => event is BackendReplied,
        }
    }

    /// The session's state and action after the client has chosen a transport.
    pub open spec fn selected(self, selection: SelectionModel) -> (SessionModel, ActionModel) {
        if self.transport_ready {
            (self, refusal(None, "transport has already been selected"@))
        } else {
            match selection {
                SelectionModel::WebSocket => (
                    SessionModel { external_data_plane: false, transport_ready: true, ..self },
                    announced(ReadyModel::WebSocket),
                ),
                SelectionModel::Udp { client_port } => if client_port == 0 {
                    (self, refusal(None, "UDP client port must be non-zero"@))
                } else {
                    (
                        SessionModel { awaiting: AwaitingModel::Udp { client_port }, ..self },
                        ActionModel::BindUdp,
                    )
                },
                SelectionModel::AeronIpc { stream_id } => self.selected_aeron(
                    selection,
                    ReadyModel::AeronIpc { stream_id },
                ),
                SelectionModel::AeronUdp { endpoint, stream_id } => self.selected_aeron(
                    selection,
                    ReadyModel::AeronUdp { endpoint, stream_id },
                ),
            }
        }
    }

    /// The session's state and action after the client has chosen an Aeron stream.
    pub open spec fn selected_aeron(self, selection: SelectionModel, ready: ReadyModel) -> (
        SessionModel,
        ActionModel,
    ) {
        if !self.aeron_enabled {
            (self, refusal(None, "Aeron transport selected while [aeron].enabled is false"@))
        } else {
            (
                SessionModel { awaiting: AwaitingModel::Aeron { ready }, ..self },
                ActionModel::ConfigureAeron(selection.aeron_config()->0),
            )
        }
    }

    /// The session's state and action after the client has sent a request.
    pub open spec fn requested(
        self,
        request_id: Option<u64>,
        request: Result<RequestModel, Seq<char>>,
    ) -> (SessionModel, ActionModel) {
        match request {
            Err(reason) => (self, refusal(request_id, "invalid control request: "@ + reason)),
            Ok(request) => if request.error() is Some {
                (self, refusal(request_id, request.error()->0.text()))
            } else if !self.transport_ready {
                (self, refusal(request_id, "select_transport must succeed before subscriptions"@))
            } else {
                (
                    SessionModel { awaiting: AwaitingModel::Backend { request_id }, ..self },
                    ActionModel::Request(request),
                )
            },
        }
    }

    /// What is to be done with data for the client.
    pub open spec fn route_data(self, data: Seq<u8>) -> ActionModel {
        if self.external_data_plane {
            ActionModel::Ignore
        } else if self.udp_target is Some {
            ActionModel::SendDatagram { target: self.udp_target->0, data }
        } else {
            ActionModel::SendBinary(data)
        }
    }

    /// The session's state after an event, and what is to be done.
    pub open spec fn step(self, event: EventModel) -> (SessionModel, ActionModel) {
        match event {
            EventModel::Text { selection: Some(selection), .. } => self.selected(selection),
            EventModel::Text { selection: None, request_id, request } => self.requested(
                request_id,
                request,
            ),
            EventModel::Binary => (self, refusal(None, "binary client messages are unsupported"@)),
            EventModel::Ping(payload) => (self, ActionModel::Pong(payload)),
            EventModel::Pong => (self, ActionModel::Ignore),
            EventModel::OtherFrame => (self, ActionModel::Ignore),
            EventModel::Close => (self, ActionModel::Stop),
            EventModel::Ended => (self, ActionModel::Stop),
            EventModel::Outbound(Some(data)) => (self, self.route_data(data)),
            EventModel::Outbound(None) => (self, ActionModel::Stop),
            EventModel::Control(Some(SessionControl::Error(message))) => (
                self,
                refusal(None, message@),
            ),
            EventModel::Control(Some(SessionControl::StreamError(error))) => (
                self,
                ActionModel::Fault(error),
            ),
            EventModel::Control(Some(SessionControl::Close)) => (self, ActionModel::Stop),
            EventModel::Control(None) => (self, ActionModel::Stop),
            EventModel::UdpBound { port } => match self.awaiting {
                AwaitingModel::Udp { client_port } => (
                    SessionModel {
                        udp_target: Some(AddressModel { host: self.peer_host, port: client_port }),
                        external_data_plane: false,
                        transport_ready: true,
                        awaiting: AwaitingModel::Nothing,
                        ..self
                    },
                    announced(
                        ReadyModel::Udp {
                            server_address: AddressModel { host: self.local_host, port },
                        },
                    ),
                ),
                _ => (self, ActionModel::Ignore),
            },
            EventModel::AeronConfigured { result } => match (self.awaiting, result) {
                (AwaitingModel::Aeron { ready }, Ok(())) => (
                    SessionModel {
                        external_data_plane: true,
                        transport_ready: true,
                        awaiting: AwaitingModel::Nothing,
                        ..self
                    },
                    announced(ready),
                ),
                (AwaitingModel::Aeron { ready }, Err(reason)) => (
                    SessionModel { awaiting: AwaitingModel::Nothing, ..self },
                    refusal(None, reason),
                ),
                _ => (self, ActionModel::Ignore),
            },
            EventModel::BackendReplied { result } => match self.awaiting {
                AwaitingModel::Backend { request_id } => (
                    SessionModel { awaiting: AwaitingModel::Nothing, ..self },
                    match result {
                        Ok(reply) => ActionModel::Reply { request_id, reply },
                        Err(reason) => refusal(request_id, reason),
                    },
                ),
                _ => (self, ActionModel::Ignore),
            },
        }
    }
}

fn refuse(request_id: Option<u64>, message: &str) -> (action: SessionAction)
    ensures
        action@ == refusal(request_id, message@),
{
    SessionAction::Reply(ControlReplyEnvelope::new(request_id, ControlReply::error(message)))
}

fn announce(ready: TransportReady) -> (action: SessionAction)
    ensures
        action@ == announced(ready@),
{
    SessionAction::Reply(
        ControlReplyEnvelope::new(None, ControlReply::TransportReady { transport: ready }),
    )
}

impl Session {
    /// A session with the client at `peer_host`, which reached the server at `local_host`.
    pub fn new(peer_host: &str, local_host: &str, aeron_enabled: bool) -> (session: Session)
        ensures
            session@ == SessionModel::begun(peer_host@, local_host@, aeron_enabled),
    {
        Session {
            peer_host: peer_host.to_owned(),
            local_host: local_host.to_owned(),
            aeron_enabled,
            udp_target: None,
            external_data_plane: false,
            transport_ready: false,
            awaiting: Awaiting::Nothing,
        }
    }

    /// Whether the session still takes data for the client: not once an Aeron stream
    /// carries it.
    pub fn takes_data(&self) -> (takes: bool)
        ensures
            takes == !self@.external_data_plane,
    {
        !self.external_data_plane
    }

    /// What the client has chosen, where it has named a port and the server adds the
    /// address that it sees the client at.
    pub fn addressed(&self, selection: client_messages::TransportSelection) -> (addressed:
        TransportSelection)
        ensures
            addressed@ == addressed_selection(self@.peer_host, selection),
    {
        match selection {
            client_messages::TransportSelection::Udp { client_port } => TransportSelection::Udp {
                client_port,
            },
            client_messages::TransportSelection::AeronIpc { stream_id } =>
                TransportSelection::AeronIpc { stream_id },
            client_messages::TransportSelection::AeronUdp { client_port, stream_id } =>
                TransportSelection::AeronUdp {
                endpoint: SocketAddress { host: self.peer_host.clone(), port: client_port },
                stream_id,
            },
        }
    }

    fn select(&mut self, selection: TransportSelection) -> (action: SessionAction)
        requires
            old(self)@.awaiting is Nothing,
        ensures
            (final(self)@, action@) == old(self)@.selected(selection@),
    {
        if self.transport_ready {
            return refuse(None, "transport has already been selected");
        }
        let config: Option<AeronConfig> = selection.aeron_config();
        let ready: TransportReady = match selection {
            TransportSelection::WebSocket => {
                self.external_data_plane = false;
                self.transport_ready = true;
                return announce(TransportReady::WebSocket);
            },
            TransportSelection::Udp { client_port } => {
                if client_port == 0 {
                    return refuse(None, "UDP client port must be non-zero");
                }
                self.awaiting = Awaiting::Udp { client_port };
                return SessionAction::BindUdp;
            },
            TransportSelection::AeronIpc { stream_id } => TransportReady::AeronIpc { stream_id },
            TransportSelection::AeronUdp { endpoint, stream_id } => TransportReady::AeronUdp {
                endpoint,
                stream_id,
            },
        };
        if !self.aeron_enabled {
            return refuse(None, "Aeron transport selected while [aeron].enabled is false");
        }
        match config {
            Some(config) => {
                self.awaiting = Awaiting::Aeron { ready };
                SessionAction::ConfigureAeron(config)
            },
            None => SessionAction::Ignore,
        }
    }

    fn request(
        &mut self,
        request_id: Option<u64>,
        request: Result<ControlRequest, String>,
    ) -> (action: SessionAction)
        requires
            old(self)@.awaiting is Nothing,
        ensures
            (final(self)@, action@) == old(self)@.requested(
                request_id,
                match request {
                    Ok(request) => Ok(request@),
                    Err(reason) => Err(reason@),
                },
            ),
    {
        let request: ControlRequest = match request {
            Ok(request) => request,
            Err(reason) => {
                let mut text: String = "invalid control request: ".to_owned();
                text.append(reason.as_str());
                return refuse(request_id, text.as_str());
            },
        };
        if let Err(error) = request.validate() {
            let text: String = error.message();
            return refuse(request_id, text.as_str());
        }
        if !self.transport_ready {
            return refuse(request_id, "select_transport must succeed before subscriptions");
        }
        self.awaiting = Awaiting::Backend { request_id };
        SessionAction::Request(request)
    }

    /// Takes in what has happened and says what is to be done.
    pub fn step(&mut self, event: SessionEvent) -> (action: SessionAction)
        requires
            old(self)@.expects(event@),
        ensures
            (final(self)@, action@) == old(self)@.step(event@),
    {
        match event {
            SessionEvent::Text { selection, request_id, request } => match selection {
                Some(message) => self.select(message.transport),
                None => self.request(request_id, request),
            },
            SessionEvent::Binary => refuse(None, "binary client messages are unsupported"),
            SessionEvent::Ping(payload) => SessionAction::Pong(payload),
            SessionEvent::Pong => SessionAction::Ignore,
            SessionEvent::OtherFrame => SessionAction::Ignore,
            SessionEvent::Close => SessionAction::Stop,
            SessionEvent::Ended => SessionAction::Stop,
            SessionEvent::Outbound(data) => match data {
                None => SessionAction::Stop,
                Some(data) => {
                    if self.external_data_plane {
                        SessionAction::Ignore
                    } else {
                        match &self.udp_target {
                            Some(target) => SessionAction::SendDatagram {
                                target: target.clone(),
                                data,
                            },
                            None => SessionAction::SendBinary(data),
                        }
                    }
                },
            },
            SessionEvent::Control(control) => match control {
                Some(SessionControl::Error(message)) => refuse(None, message.as_str()),
                Some(SessionControl::StreamError(error)) => SessionAction::Fault(error),
                Some(SessionControl::Close) => SessionAction::Stop,
                None => SessionAction::Stop,
            },
            SessionEvent::UdpBound { port } => {
                let client_port: u16 = match &self.awaiting {
                    Awaiting::Udp { client_port } => *client_port,
                    _ => {
                        return SessionAction::Ignore;
                    },
                };
                self.udp_target =
                Some(SocketAddress { host: self.peer_host.clone(), port: client_port });
                self.external_data_plane = false;
                self.transport_ready = true;
                self.awaiting = Awaiting::Nothing;
                announce(
                    TransportReady::Udp {
                        server_address: SocketAddress { host: self.local_host.clone(), port },
                    },
                )
            },
            SessionEvent::AeronConfigured { result } => {
                let ready: TransportReady = match &self.awaiting {
                    Awaiting::Aeron { ready } => ready.clone(),
                    _ => {
                        return SessionAction::Ignore;
                    },
                };
                self.awaiting = Awaiting::Nothing;
                match result {
                    Ok(()) => {
                        self.external_data_plane = true;
                        self.transport_ready = true;
                        announce(ready)
                    },
                    Err(reason) => refuse(None, reason.as_str()),
                }
            },
            SessionEvent::BackendReplied { result } => {
                let request_id: Option<u64> = match &self.awaiting {
                    Awaiting::Backend { request_id } => *request_id,
                    _ => {
                        return SessionAction::Ignore;
                    },
                };
                self.awaiting = Awaiting::Nothing;
                match result {
                    Ok(reply) => SessionAction::Reply(ControlReplyEnvelope::new(request_id, reply)),
                    Err(reason) => refuse(request_id, reason.as_str()),
                }
            },
        }
    }
}

/// What the client has chosen is chosen for good: a ready transport stays ready and is not
/// changed, and whoever chooses again is refused.
pub proof fn law_transport_is_selected_once(session: SessionModel, event: EventModel)
    requires
        session.transport_ready,
        session.expects(event),
        session.awaiting is Nothing || session.awaiting is Backend,
    ensures
        session.step(event).0.transport_ready,
        session.step(event).0.udp_target == session.udp_target,
        session.step(event).0.external_data_plane == session.external_data_plane,
        session.step(event).0.awaiting is Nothing || session.step(event).0.awaiting is Backend,
        event matches EventModel::Text { selection: Some(_), .. } ==> session.step(event) == (
            session,
            refusal(None, "transport has already been selected"@),
        ),
{
}

/// A request reaches the backend only if it keeps every rule and a transport is ready.
pub proof fn law_only_valid_requests_reach_the_backend(session: SessionModel, event: EventModel)
    requires
        session.step(event).1 is Request,
    ensures
        session.transport_ready,
        session.step(event).1->Request_0.error() is None,
        event matches EventModel::Text { selection: None, request_id, request } && request == Ok::<
            RequestModel,
            Seq<char>,
        >(session.step(event).1->Request_0),
{
}

/// Before a transport is ready every request is refused.
pub proof fn law_requests_need_a_transport(
    session: SessionModel,
    request_id: Option<u64>,
    request: RequestModel,
)
    requires
        !session.transport_ready,
        session.awaiting is Nothing,
        request.error() is None,
    ensures
        session.step(EventModel::Text { selection: None, request_id, request: Ok(request) }) == (
            session,
            refusal(request_id, "select_transport must succeed before subscriptions"@),
        ),
{
}

/// A session where Aeron is not enabled never opens an Aeron stream and sends all data
/// itself.
pub proof fn law_aeron_needs_to_be_enabled(session: SessionModel, event: EventModel)
    requires
        !session.aeron_enabled,
        !session.external_data_plane,
        !(session.awaiting is Aeron),
    ensures
        !(session.step(event).1 is ConfigureAeron),
        !session.step(event).0.aeron_enabled,
        !session.step(event).0.external_data_plane,
        !(session.step(event).0.awaiting is Aeron),
{
}

/// Data goes one way only: by UDP to the port that the client has named, over the control
/// connection, or not at all where an Aeron stream carries it.
pub proof fn law_data_takes_the_selected_way(
    session: SessionModel,
    server_port: u16,
    data: Seq<u8>,
)
    ensures
        session.step(EventModel::Outbound(Some(data))) == (
            session,
            if session.external_data_plane {
                ActionModel::Ignore
            } else if session.udp_target is Some {
                ActionModel::SendDatagram { target: session.udp_target->0, data }
            } else {
                ActionModel::SendBinary(data)
            },
        ),
        session.awaiting matches AwaitingModel::Udp { client_port } ==> session.step(
            EventModel::UdpBound { port: server_port },
        ).0.route_data(data) == (ActionModel::SendDatagram {
            target: AddressModel { host: session.peer_host, port: client_port },
            data,
        }),
        session.awaiting is Aeron ==> session.step(
            EventModel::AeronConfigured { result: Ok(()) },
        ).0.route_data(data) == ActionModel::Ignore,
{
}

/// Every text is answered with exactly one reply, at once or once what it takes has been
/// done, and the reply to a request carries the number of that request.
pub proof fn law_every_text_is_answered(
    session: SessionModel,
    event: EventModel,
    outcome: EventModel,
)
    requires
        session.awaiting is Nothing,
        event is Text,
        session.step(event).0.expects(outcome),
    ensures
        session.step(event).0.awaiting is Nothing ==> session.step(event).1 is Reply,
        !(session.step(event).0.awaiting is Nothing) ==> session.step(event).0.step(
            outcome,
        ).1 is Reply && session.step(event).0.step(outcome).0.awaiting is Nothing,
        event matches EventModel::Text { selection: None, request_id, request } ==> {
            let answer = if session.step(event).0.awaiting is Nothing {
                session.step(event).1
            } else {
                session.step(event).0.step(outcome).1
            };
            answer->request_id == request_id
        },
{
}

} // verus!
