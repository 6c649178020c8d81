//! The life of a connection to a server, from its handshake to its end.
//!
//! A connection is driven from outside, like the session that it serves: whoever owns the
//! socket performs an action and hands over what came of it.
use vstd::prelude::*;
use crate::collections::VecMap;

verus! {

/// How far a connection is.
#[derive(Debug, PartialEq, Eq)]
pub enum Phase<E> {
    /// The handshake is not over.
    Handshake,
    /// The backend was asked for a session.
    Connecting,
    /// The session is served.
    Serving { client_id: u64 },
    /// The backend was told that the session has ended, with this result.
    Leaving { client_id: u64, result: Result<(), E> },
    /// There is nothing left to do.
    Over,
}

/// What has happened to a connection.
#[derive(Debug, PartialEq, Eq)]
pub enum ConnectionEvent<E> {
    /// The handshake has succeeded or failed.
    Accepted(Result<(), E>),
    /// The backend has opened a session, or cannot.
    Opened(Result<u64, E>),
    /// The session has ended, with success or not.
    Served(Result<(), E>),
    /// The backend has let the session go.
    Disconnected,
}

/// What is to be done for a connection.
#[derive(Debug, PartialEq, Eq)]
pub enum ConnectionAction<E> {
    /// Ask the backend for a session, and suggest a number for it.
    Open { suggested_id: u64 },
    /// Serve the session until it ends.
    Serve { client_id: u64 },
    /// Tell the backend that the session has ended.
    Disconnect { client_id: u64 },
    /// The connection is over, with this result.
    Return(Result<(), E>),
}

/// A connection.
#[derive(Debug, PartialEq, Eq)]
pub struct Connection<E> {
    /// The client's address.
    pub peer: String,
    /// The number that is suggested to the backend.
    pub suggested_id: u64,
    pub phase: Phase<E>,
}

/// Whether this can happen now.
pub open spec fn expects<E>(phase: Phase<E>, event: ConnectionEvent<E>) -> bool {
    match phase {
        Phase::Handshake => event is Accepted,
        Phase::Connecting => event is Opened,
        Phase::Serving { .. } => event is Served,
        Phase::Leaving { .. } => event is Disconnected,
        Phase::Over => false,
    }
}

/// The phase after an event, and what is to be done.
pub open spec fn moved<E>(suggested_id: u64, phase: Phase<E>, event: ConnectionEvent<E>) -> (
    Phase<E>,
    ConnectionAction<E>,
) {
    match (phase, event) {
        (Phase::Handshake, ConnectionEvent::Accepted(Ok(()))) => (
            Phase::Connecting,
            ConnectionAction::Open { suggested_id },
        ),
        (Phase::Handshake, ConnectionEvent::Accepted(Err(error))) => (
            Phase::Over,
            ConnectionAction::Return(Err(error)),
        ),
        (Phase::Connecting, ConnectionEvent::Opened(Ok(client_id))) => (
            Phase::Serving { client_id },
            ConnectionAction::Serve { client_id },
        ),
        (Phase::Connecting, ConnectionEvent::Opened(Err(error))) => (
            Phase::Over,
            ConnectionAction::Return(Err(error)),
        ),
        (Phase::Serving { client_id }, ConnectionEvent::Served(result)) => (
            Phase::Leaving { client_id, result },
            ConnectionAction::Disconnect { client_id },
        ),
        (Phase::Leaving { result, .. }, ConnectionEvent::Disconnected) => (
            Phase::Over,
            ConnectionAction::Return(result),
        ),
        _ => (Phase::Over, ConnectionAction::Return(Ok(()))),
    }
}

/// The addresses of the clients that are connected, after an event of one connection: a
/// client is entered when its session is opened and struck off when it has ended.
pub open spec fn listed<E>(
    active: Map<u64, Seq<char>>,
    peer: Seq<char>,
    phase: Phase<E>,
    event: ConnectionEvent<E>,
) -> Map<u64, Seq<char>> {
    match (phase, event) {
        (Phase::Connecting, ConnectionEvent::Opened(Ok(client_id))) => active.insert(
            client_id,
            peer,
        ),
        (Phase::Serving { client_id }, ConnectionEvent::Served(_)) => active.remove(client_id),
        _ => active,
    }
}

/// The addresses of the clients that are connected.
pub struct ActiveClients {
    pub peers: VecMap<u64, String>,
}

impl View for ActiveClients {
    type V = Map<u64, Seq<char>>;

    open spec fn view(&self) -> Map<u64, Seq<char>> {
        self.peers@.map_values(|peer: String| peer@)
    }
}

impl ActiveClients {
    pub open spec fn wf(self) -> bool {
        self.peers.wf()
    }

    /// Nobody is connected.
    pub fn new() -> (active: ActiveClients)
        ensures
            active.wf(),
            active@ == Map::<u64, Seq<char>>::empty(),
    {
        let active = ActiveClients { peers: VecMap::new() };
        assert(active@ =~= Map::<u64, Seq<char>>::empty());
        active
    }

    pub fn len(&self) -> (len: usize)
        requires
            self.wf(),
        ensures
            len == self@.dom().len(),
    {
        assert(self@.dom() =~= self.peers@.dom());
        self.peers.len()
    }

    /// The address of a client that is connected.
    pub fn get(&self, client_id: u64) -> (peer: Option<&String>)
        requires
            self.wf(),
        ensures
            match peer {
                Some(peer) => self@.contains_key(client_id) && peer@ == self@[client_id],
                None => !self@.contains_key(client_id),
            },
    {
        self.peers.get(&client_id)
    }
}

impl<E> Connection<E> {
    /// A connection that was accepted from this address.
    pub fn new(peer: &str, suggested_id: u64) -> (connection: Connection<E>)
        ensures
            connection.peer@ == peer@,
            connection.suggested_id == suggested_id,
            connection.phase is Handshake,
    {
        Connection { peer: peer.to_owned(), suggested_id, phase: Phase::Handshake }
    }

    /// Takes in what has happened, keeps the list of those who are connected, and says what
    /// is to be done.
    pub fn step(&mut self, event: ConnectionEvent<E>, active: &mut ActiveClients) -> (action:
        ConnectionAction<E>)
        requires
            expects(old(self).phase, event),
            old(active).wf(),
        ensures
            final(self).peer == old(self).peer,
            final(self).suggested_id == old(self).suggested_id,
            (final(self).phase, action) == moved(old(self).suggested_id, old(self).phase, event),
            final(active).wf(),
            final(active)@ == listed(old(active)@, old(self).peer@, old(self).phase, event),
    {
        let mut phase: Phase<E> = Phase::Over;
        std::mem::swap(&mut phase, &mut self.phase);
        match event {
            ConnectionEvent::Accepted(accepted) => match accepted {
                Ok(()) => {
                    self.phase = Phase::Connecting;
                    ConnectionAction::Open { suggested_id: self.suggested_id }
                },
                Err(error) => ConnectionAction::Return(Err(error)),
            },
            ConnectionEvent::Opened(opened) => match opened {
                Ok(client_id) => {
                    self.phase = Phase::Serving { client_id };
                    active.peers.insert(client_id, self.peer.clone());
                    assert(active@ =~= old(active)@.insert(client_id, self.peer@));
                    ConnectionAction::Serve { client_id }
                },
                Err(error) => ConnectionAction::Return(Err(error)),
            },
            ConnectionEvent::Served(result) => match phase {
                Phase::Serving { client_id } => {
                    self.phase = Phase::Leaving { client_id, result };
                    active.peers.remove(&client_id);
                    assert(active@ =~= old(active)@.remove(client_id));
                    ConnectionAction::Disconnect { client_id }
                },
                _ => ConnectionAction::Return(Ok(())),
            },
            ConnectionEvent::Disconnected => match phase {
                Phase::Leaving { client_id: _, result } => ConnectionAction::Return(result),
                _ => ConnectionAction::Return(Ok(())),
            },
        }
    }
}

/// All that becomes of a connection: its phase, what was done for it in order, and who is
/// listed as connected.
pub struct Course<E> {
    pub phase: Phase<E>,
    pub actions: Seq<ConnectionAction<E>>,
    pub active: Map<u64, Seq<char>>,
}

/// What has become of a connection after these events.
pub open spec fn course<E>(
    peer: Seq<char>,
    suggested_id: u64,
    active: Map<u64, Seq<char>>,
    events: Seq<ConnectionEvent<E>>,
) -> Course<E>
    decreases events.len(),
{
    if events.len() == 0 {
        Course { phase: Phase::Handshake, actions: Seq::empty(), active }
    } else {
        let before = course(peer, suggested_id, active, events.drop_last());
        let (phase, action) = moved(suggested_id, before.phase, events.last());
        Course {
            phase,
            actions: before.actions.push(action),
            active: listed(before.active, peer, before.phase, events.last()),
        }
    }
}

/// The events could happen one after the other.
pub open spec fn happens<E>(
    peer: Seq<char>,
    suggested_id: u64,
    active: Map<u64, Seq<char>>,
    events: Seq<ConnectionEvent<E>>,
) -> bool
    decreases events.len(),
{
    events.len() == 0 || {
        &&& happens(peer, suggested_id, active, events.drop_last())
        &&& expects(
            course(peer, suggested_id, active, events.drop_last()).phase,
            events.last(),
        )
    }
}

/// The session that the backend has opened for the connection.
pub open spec fn opened<E>(events: Seq<ConnectionEvent<E>>) -> Option<u64>
    decreases events.len(),
{
    if events.len() == 0 {
        None
    } else {
        match events.last() {
            ConnectionEvent::Opened(Ok(client_id)) => Some(client_id),
            _ => opened(events.drop_last()),
        }
    }
}

/// The sessions that the backend was told the end of, in order.
pub open spec fn let_go<E>(actions: Seq<ConnectionAction<E>>) -> Seq<u64>
    decreases actions.len(),
{
    if actions.len() == 0 {
        Seq::empty()
    } else {
        let before = let_go(actions.drop_last());
        match actions.last() {
            ConnectionAction::Disconnect { client_id } => before.push(client_id),
            _ => before,
        }
    }
}

/// What was done for a connection that is so far.
proof fn lemma_course<E>(
    peer: Seq<char>,
    suggested_id: u64,
    active: Map<u64, Seq<char>>,
    events: Seq<ConnectionEvent<E>>,
)
    requires
        happens(peer, suggested_id, active, events),
    ensures
        ({
            let now = course(peer, suggested_id, active, events);
            match now.phase {
                Phase::Handshake | Phase::Connecting => opened(events) is None && let_go(
                    now.actions,
                ) == Seq::<u64>::empty() && now.active == active,
                Phase::Serving { client_id } => opened(events) == Some(client_id) && let_go(
                    now.actions,
                ) == Seq::<u64>::empty() && now.active == active.insert(client_id, peer),
                Phase::Leaving { client_id, .. } => opened(events) == Some(client_id) && let_go(
                    now.actions,
                ) == seq![client_id] && now.active == active.remove(client_id),
                Phase::Over => match opened(events) {
                    Some(client_id) => let_go(now.actions) == seq![client_id] && now.active
                        == active.remove(client_id),
                    None => let_go(now.actions) == Seq::<u64>::empty() && now.active == active,
                },
            }
        }),
    decreases events.len(),
{
    if events.len() > 0 {
        let fewer = events.drop_last();
        lemma_course(peer, suggested_id, active, fewer);
        let before = course(peer, suggested_id, active, fewer);
        let now = course(peer, suggested_id, active, events);
        assert(now.actions.drop_last() =~= before.actions);
        match before.phase {
            Phase::Serving { client_id } => {
                assert(now.active =~= active.remove(client_id));
                assert(let_go(now.actions) =~= seq![client_id]);
            },
            _ => {},
        }
    }
}

/// The backend is told the end of every session that it has opened exactly once, whatever
/// ended it, and of no other; and once the connection is over, the session is listed no
/// longer and everybody else is listed as before.
pub proof fn law_opened_sessions_are_disconnected_once<E>(
    peer: Seq<char>,
    suggested_id: u64,
    active: Map<u64, Seq<char>>,
    events: Seq<ConnectionEvent<E>>,
)
    requires
        happens(peer, suggested_id, active, events),
        course(peer, suggested_id, active, events).phase is Over,
    ensures
        ({
            let now = course(peer, suggested_id, active, events);
            match opened(events) {
                Some(client_id) => let_go(now.actions) == seq![client_id] && now.active
                    == active.remove(client_id),
                None => let_go(now.actions) == Seq::<u64>::empty() && now.active == active,
            }
        }),
{
    lemma_course(peer, suggested_id, active, events);
}

} // verus!
