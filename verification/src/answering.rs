//! What a session answers, and what follows for the client's data.
use vstd::prelude::*;
use crate::protocol::{
    AddressModel, ChannelModel, ControlReply, ControlRequest, ReadyModel, ReplyModel, RequestModel,
    SelectTransport, SelectionModel,
};
use crate::server::SessionControl;
use crate::session::{
    ActionModel, AwaitingModel, EventModel, Session, SessionAction, SessionEvent, SessionModel,
};

verus! {

/// No event changes where the client is, where the server is, or whether Aeron is enabled.
pub proof fn law_sessions_keep_their_ends(session: SessionModel, event: EventModel)
    ensures
        session.step(event).0.peer_host == session.peer_host,
        session.step(event).0.local_host == session.local_host,
        session.step(event).0.aeron_enabled == session.aeron_enabled,
        session.transport_ready ==> session.step(event).0.transport_ready,
        session.udp_target is Some && session.step(event).0.udp_target != session.udp_target
            ==> session.awaiting is Udp,
{
}

/// A session begins without a transport and without anything that it waits for.
pub proof fn law_sessions_begin_without_a_transport(
    peer_host: Seq<char>,
    local_host: Seq<char>,
    aeron_enabled: bool,
)
    ensures
        ({
            let session = SessionModel::begun(peer_host, local_host, aeron_enabled);
            &&& session.peer_host == peer_host
            &&& session.local_host == local_host
            &&& session.aeron_enabled == aeron_enabled
            &&& !session.transport_ready
            &&& !session.external_data_plane
            &&& session.udp_target is None
            &&& session.awaiting is Nothing
        }),
{
}

/// The control connection carries the data of whoever chooses it, at once.
pub proof fn law_websocket_is_ready_at_once(
    session: SessionModel,
    request_id: Option<u64>,
    request: Result<RequestModel, Seq<char>>,
    data: Seq<u8>,
)
    requires
        !session.transport_ready,
        session.awaiting is Nothing,
        session.udp_target is None,
    ensures
        ({
            let event = EventModel::Text {
                selection: Some(SelectionModel::WebSocket),
                request_id,
                request,
            };
            let (next, action) = session.step(event);
            &&& action == (ActionModel::Reply {
                request_id: None,
                reply: ReplyModel::TransportReady { transport: ReadyModel::WebSocket },
            })
            &&& next.transport_ready
            &&& next.awaiting is Nothing
            &&& next.step(EventModel::Outbound(Some(data))).1 == ActionModel::SendBinary(data)
        }),
{
}

/// A client that chooses UDP at a port is told the server's own address once there is a
/// socket, and then gets its data at that port of its own host. Port 0 is refused.
pub proof fn law_udp_is_ready_once_bound(
    session: SessionModel,
    client_port: u16,
    server_port: u16,
    request_id: Option<u64>,
    request: Result<RequestModel, Seq<char>>,
    data: Seq<u8>,
)
    requires
        !session.transport_ready,
        session.awaiting is Nothing,
    ensures
        ({
            let event = EventModel::Text {
                selection: Some(SelectionModel::Udp { client_port }),
                request_id,
                request,
            };
            let (next, action) = session.step(event);
            let (bound, answer) = next.step(EventModel::UdpBound { port: server_port });
            &&& client_port == 0 ==> next == session && action == (ActionModel::Reply {
                request_id: None,
                reply: ReplyModel::Error { message: "UDP client port must be non-zero"@ },
            })
            &&& client_port != 0 ==> {
                &&& action is BindUdp
                &&& !next.transport_ready
                &&& next.expects(EventModel::UdpBound { port: server_port })
                &&& bound.transport_ready
                &&& bound.awaiting is Nothing
                &&& answer == (ActionModel::Reply {
                    request_id: None,
                    reply: ReplyModel::TransportReady {
                        transport: ReadyModel::Udp {
                            server_address: AddressModel {
                                host: session.local_host,
                                port: server_port,
                            },
                        },
                    },
                })
                &&& bound.step(EventModel::Outbound(Some(data))).1 == (ActionModel::SendDatagram {
                    target: AddressModel { host: session.peer_host, port: client_port },
                    data,
                })
            }
        }),
{
}

/// An Aeron stream that a client chooses is opened by the backend as it was chosen, where
/// Aeron is enabled. Once it is open the client is told so with the same settings and the
/// session sends no data; where it cannot be opened the client is told why and may choose
/// again.
pub proof fn law_aeron_is_ready_once_configured(
    session: SessionModel,
    selection: SelectionModel,
    request_id: Option<u64>,
    request: Result<RequestModel, Seq<char>>,
    reason: Seq<char>,
    data: Seq<u8>,
)
    requires
        !session.transport_ready,
        session.awaiting is Nothing,
        selection is AeronIpc || selection is AeronUdp,
    ensures
        ({
            let event = EventModel::Text { selection: Some(selection), request_id, request };
            let (next, action) = session.step(event);
            let (open, answer) = next.step(EventModel::AeronConfigured { result: Ok(()) });
            let (closed, refused) = next.step(EventModel::AeronConfigured { result: Err(reason) });
            &&& !session.aeron_enabled ==> next == session && action == (ActionModel::Reply {
                request_id: None,
                reply: ReplyModel::Error {
                    message: "Aeron transport selected while [aeron].enabled is false"@,
                },
            })
            &&& session.aeron_enabled ==> {
                &&& action is ConfigureAeron
                &&& !next.transport_ready
                &&& open.transport_ready
                &&& open.awaiting is Nothing
                &&& open.step(EventModel::Outbound(Some(data))).1 is Ignore
                &&& closed == session
                &&& refused == (ActionModel::Reply {
                    request_id: None,
                    reply: ReplyModel::Error { message: reason },
                })
                &&& selection matches SelectionModel::AeronIpc { stream_id } ==> {
                    &&& action->ConfigureAeron_0.stream_id == stream_id
                    &&& action->ConfigureAeron_0.aeron_channel is Ipc
                    &&& answer == (ActionModel::Reply {
                        request_id: None,
                        reply: ReplyModel::TransportReady {
                            transport: ReadyModel::AeronIpc { stream_id },
                        },
                    })
                }
                &&& selection matches SelectionModel::AeronUdp { endpoint, stream_id } ==> {
                    &&& action->ConfigureAeron_0.stream_id == stream_id
                    &&& action->ConfigureAeron_0.aeron_channel == (ChannelModel::Udp {
                        host: endpoint.host,
                        port: endpoint.port,
                    })
                    &&& answer == (ActionModel::Reply {
                        request_id: None,
                        reply: ReplyModel::TransportReady {
                            transport: ReadyModel::AeronUdp { endpoint, stream_id },
                        },
                    })
                }
            }
        }),
{
}

/// A request that is valid is handed to the backend unchanged once a transport is ready,
/// and the backend's word goes to the client under the number of the request. Any other
/// request is refused under its number, and nothing changes.
pub proof fn law_requests_are_answered_under_their_number(
    session: SessionModel,
    request_id: Option<u64>,
    request: RequestModel,
    reply: ReplyModel,
    reason: Seq<char>,
)
    requires
        session.awaiting is Nothing,
    ensures
        ({
            let event = EventModel::Text { selection: None, request_id, request: Ok(request) };
            let (next, action) = session.step(event);
            &&& request.error() is Some ==> next == session && action == (ActionModel::Reply {
                request_id,
                reply: ReplyModel::Error { message: request.error()->0.text() },
            })
            &&& request.error() is None && !session.transport_ready ==> next == session && action
                == (ActionModel::Reply {
                request_id,
                reply: ReplyModel::Error {
                    message: "select_transport must succeed before subscriptions"@,
                },
            })
            &&& request.error() is None && session.transport_ready ==> {
                &&& action == ActionModel::Request(request)
                &&& next.expects(EventModel::BackendReplied { result: Ok(reply) })
                &&& next.step(EventModel::BackendReplied { result: Ok(reply) }) == (
                    session,
                    ActionModel::Reply { request_id, reply },
                )
                &&& next.step(EventModel::BackendReplied { result: Err(reason) }) == (
                    session,
                    ActionModel::Reply { request_id, reply: ReplyModel::Error { message: reason } },
                )
            }
            &&& session.step(
                EventModel::Text { selection: None, request_id, request: Err(reason) },
            ) == (
                session,
                ActionModel::Reply {
                    request_id,
                    reply: ReplyModel::Error { message: "invalid control request: "@ + reason },
                },
            )
        }),
{
}

/// What needs no state: pings are answered with what they carry, other frames are passed
/// over, binary frames are refused, and a session ends with its connection, its data or its
/// backend.
pub proof fn law_other_events_leave_a_session_alone(
    session: SessionModel,
    payload: Seq<u8>,
    control: SessionControl,
)
    ensures
        session.step(EventModel::Ping(payload)) == (session, ActionModel::Pong(payload)),
        session.step(EventModel::Pong) == (session, ActionModel::Ignore),
        session.step(EventModel::OtherFrame) == (session, ActionModel::Ignore),
        session.step(EventModel::Binary) == (
            session,
            ActionModel::Reply {
                request_id: None,
                reply: ReplyModel::Error { message: "binary client messages are unsupported"@ },
            },
        ),
        session.step(EventModel::Close).1 is Stop,
        session.step(EventModel::Ended).1 is Stop,
        session.step(EventModel::Outbound(None)).1 is Stop,
        session.step(EventModel::Control(None)).1 is Stop,
        session.step(EventModel::Control(Some(control))).0 == session,
        control matches SessionControl::Error(message) ==> session.step(
            EventModel::Control(Some(control)),
        ).1 == (ActionModel::Reply {
            request_id: None,
            reply: ReplyModel::Error { message: message@ },
        }),
        control matches SessionControl::StreamError(error) ==> session.step(
            EventModel::Control(Some(control)),
        ).1 == ActionModel::Fault(error),
        control is Close ==> session.step(EventModel::Control(Some(control))).1 is Stop,
{
}

/// A session that waits for one thing hears of nothing else before it, and one that waits
/// for nothing hears of no outcome.
pub proof fn law_sessions_wait_for_one_thing(session: SessionModel, event: EventModel)
    ensures
        session.expects(event) ==> (session.awaiting is Udp <==> event is UdpBound),
        session.expects(event) ==> (session.awaiting is Aeron <==> event is AeronConfigured),
        session.expects(event) ==> (session.awaiting is Backend <==> event is BackendReplied),
        session.awaiting is Nothing && (event is Text || event is Ping || event is Outbound
            || event is Control || event is Close || event is Ended || event is Binary) ==>
            session.expects(event),
{
}

/// Data for the client, as a session takes it in: it goes nowhere where an Aeron stream
/// carries it, else by UDP to the client's own address where there is one, and else over the
/// control connection, unchanged.
pub proof fn law_step_sends_data_one_way(
    session: &mut Session,
    data: Vec<u8>,
    action: SessionAction,
)
    requires
        old(session)@.awaiting is Nothing,
        call_ensures(Session::step, (session, SessionEvent::Outbound(Some(data))), action),
    ensures
        old(session).external_data_plane ==> action is Ignore,
        !old(session).external_data_plane && old(session).udp_target is None ==> (action
            matches SessionAction::SendBinary(sent) && sent@ == data@),
        !old(session).external_data_plane && old(session).udp_target is Some ==> (action
            matches SessionAction::SendDatagram { target, data: sent } && sent@ == data@ && target@
            == old(session).udp_target->0@),
        final(session)@ == old(session)@,
{
}

/// A request, as a session takes it in: a valid one goes to the backend unchanged once a
/// transport is ready, any other is refused under its own number.
pub proof fn law_step_hands_requests_on(
    session: &mut Session,
    request_id: Option<u64>,
    request: ControlRequest,
    action: SessionAction,
)
    requires
        old(session)@.awaiting is Nothing,
        call_ensures(
            Session::step,
            (
                session,
                SessionEvent::Text { selection: None, request_id, request: Ok(request) },
            ),
            action,
        ),
    ensures
        request@.error() is None && old(session).transport_ready ==> (action
            matches SessionAction::Request(handed) && handed@ == request@),
        request@.error() is Some || !old(session).transport_ready ==> (action
            matches SessionAction::Reply(envelope) && envelope.request_id == request_id
            && envelope.reply@ is Error && final(session)@ == old(session)@),
        request@.error() is Some ==> (action matches SessionAction::Reply(envelope)
            && envelope.reply@ == (ReplyModel::Error { message: request@.error()->0.text() })),
{
    law_requests_are_answered_under_their_number(
        old(session)@,
        request_id,
        request@,
        ReplyModel::Error { message: Seq::empty() },
        Seq::empty(),
    );
}

/// A backend's word on a request, as a session takes it in: it goes to the client under the
/// number of the request, and the session is free again.
pub proof fn law_step_passes_replies_on(
    session: &mut Session,
    request_id: Option<u64>,
    result: Result<ControlReply, String>,
    action: SessionAction,
)
    requires
        old(session)@.awaiting == (AwaitingModel::Backend { request_id }),
        call_ensures(Session::step, (session, SessionEvent::BackendReplied { result }), action),
    ensures
        action matches SessionAction::Reply(envelope) && envelope.request_id == request_id
            && envelope.reply@ == match result {
            Ok(reply) => reply@,
            Err(reason) => ReplyModel::Error { message: reason@ },
        },
        final(session)@.awaiting is Nothing,
        final(session).transport_ready == old(session).transport_ready,
{
}

/// A client's choice, as a session takes it in: it is refused where a choice was made
/// before; the control connection is ready at once, and anything else only once it is set up.
pub proof fn law_step_takes_one_choice(
    session: &mut Session,
    selection: SelectTransport,
    request_id: Option<u64>,
    request: Result<ControlRequest, String>,
    action: SessionAction,
)
    requires
        old(session)@.awaiting is Nothing,
        call_ensures(
            Session::step,
            (session, SessionEvent::Text { selection: Some(selection), request_id, request }),
            action,
        ),
    ensures
        old(session).transport_ready ==> final(session)@ == old(session)@ && (action
            matches SessionAction::Reply(envelope) && envelope.request_id is None
            && envelope.reply@ == (ReplyModel::Error {
            message: "transport has already been selected"@,
        })),
        !old(session).transport_ready && selection.transport@ is WebSocket
            ==> final(session).transport_ready
            && (action matches SessionAction::Reply(envelope) && envelope.reply@ == (
        ReplyModel::TransportReady { transport: ReadyModel::WebSocket })),
        !old(session).transport_ready && !(selection.transport@ is WebSocket)
            ==> !final(session).transport_ready,
        !old(session).transport_ready && (selection.transport@ is AeronIpc || selection.transport@
            is AeronUdp) ==> (action is ConfigureAeron <==> old(session).aeron_enabled),
        action matches SessionAction::ConfigureAeron(config) ==> Some(config@)
            == selection.transport@.aeron_config(),
        !old(session).transport_ready && selection.transport@ is Udp ==> (action is BindUdp
            <==> selection.transport@->client_port != 0),
{
}

/// Once there is a UDP socket the client is told the server's host and that port, and gets
/// its data at the port that it has named.
pub proof fn law_step_announces_udp(
    session: &mut Session,
    client_port: u16,
    port: u16,
    action: SessionAction,
)
    requires
        old(session)@.awaiting == (AwaitingModel::Udp { client_port }),
        call_ensures(Session::step, (session, SessionEvent::UdpBound { port }), action),
    ensures
        action matches SessionAction::Reply(envelope) && envelope.request_id is None
            && envelope.reply@ == (ReplyModel::TransportReady {
            transport: ReadyModel::Udp {
                server_address: AddressModel { host: old(session).local_host@, port },
            },
        }),
        final(session).transport_ready,
        final(session).udp_target is Some,
        final(session).udp_target->0@ == (AddressModel {
            host: old(session).peer_host@,
            port: client_port,
        }),
{
    assert(final(session)@.udp_target == Some(
        AddressModel { host: old(session).peer_host@, port: client_port },
    ));
}

} // verus!
