//! The server side of the link: who is subscribed to what, and how a session answers.
use vstd::prelude::*;
use vstd::slice::*;
use vstd::string::*;
use crate::collections::{has_key, index_of, lemma_update_value, position, VecMap, VecSet};
use crate::outbox::{channel_capacity_max, may_deliver, may_deliver_bytes, may_open, Outbox};
use crate::protocol::{ControlOperation, ControlRequest, KeyModel, RequestModel, SubscriptionKey};
use crate::routes::{lemma_take_next, subscribed, RouteModel};
use crate::server_messages::StreamError;
use crate::text::{decimal, decimal_text};

pub use crate::outbox::Delivery;

verus! {

/// How often the active clients are logged by default, in nanoseconds.
pub const ACTIVE_CLIENT_LOG_INTERVAL: u128 = 30_000_000_000;

/// Where a server listens and what it offers.
#[derive(Debug, PartialEq, Eq)]
pub struct LinkServerConfig {
    pub tcp_bind_addr: String,
    pub aeron_enabled: bool,
    pub active_client_log_interval: u128,
}

impl Clone for LinkServerConfig {
    fn clone(&self) -> (copy: LinkServerConfig)
        ensures
            copy == *self,
    {
        LinkServerConfig {
            tcp_bind_addr: self.tcp_bind_addr.clone(),
            aeron_enabled: self.aeron_enabled,
            active_client_log_interval: self.active_client_log_interval,
        }
    }
}

impl LinkServerConfig {
    /// A server without Aeron that logs its clients at the default interval.
    pub fn tcp(tcp_bind_addr: &str) -> (config: LinkServerConfig)
        ensures
            config.tcp_bind_addr@ == tcp_bind_addr@,
            !config.aeron_enabled,
            config.active_client_log_interval == ACTIVE_CLIENT_LOG_INTERVAL,
    {
        LinkServerConfig {
            tcp_bind_addr: tcp_bind_addr.to_owned(),
            aeron_enabled: false,
            active_client_log_interval: ACTIVE_CLIENT_LOG_INTERVAL,
        }
    }
}

/// A server and what it serves from.
pub struct LinkServer<B> {
    pub config: LinkServerConfig,
    pub backend: B,
}

impl<B> LinkServer<B> {
    pub fn new(config: LinkServerConfig, backend: B) -> (server: LinkServer<B>)
        ensures
            server == (LinkServer { config, backend }),
    {
        LinkServer { config, backend }
    }
}

/// What a backend tells a session.
#[derive(Debug, PartialEq, Eq)]
pub enum SessionControl {
    Error(String),
    StreamError(StreamError),
    Close,
}

impl View for SessionControl {
    type V = SessionControl;

    open spec fn view(&self) -> SessionControl {
        *self
    }
}

/// A backend's end of a session.
pub struct BackendSession {
    pub client_id: u64,
    pub outbound: Option<tokio::sync::mpsc::Receiver<Vec<u8>>>,
    pub control: Option<tokio::sync::mpsc::Receiver<SessionControl>>,
}

impl BackendSession {
    /// A session whose data takes another way.
    pub fn control_only(client_id: u64) -> (session: BackendSession)
        ensures
            session.client_id == client_id,
            session.outbound is None,
            session.control is None,
    {
        BackendSession { client_id, outbound: None, control: None }
    }
}

/// What became of a frame at the sessions that want it.
#[derive(Debug, Clone, Copy, PartialEq, Eq, Structural)]
pub struct PublishReport {
    pub delivered: usize,
    pub full: usize,
    pub closed: usize,
}

impl PublishReport {
    /// The report on a frame that nobody wants.
    pub open spec fn empty() -> PublishReport {
        PublishReport { delivered: 0, full: 0, closed: 0 }
    }
}

impl Default for PublishReport {
    fn default() -> (report: PublishReport)
        ensures
            report == PublishReport::empty(),
    {
        PublishReport { delivered: 0, full: 0, closed: 0 }
    }
}

/// The sessions where a message came to this end.
pub open spec fn with_delivery(
    clients: Set<u64>,
    deliveries: Map<u64, Delivery>,
    delivery: Delivery,
) -> Set<u64> {
    clients.filter(|client: u64| deliveries[client] == delivery)
}

/// The report counts every session once.
pub open spec fn reports(
    report: PublishReport,
    clients: Set<u64>,
    deliveries: Map<u64, Delivery>,
) -> bool {
    &&& report.delivered == with_delivery(clients, deliveries, Delivery::Delivered).len()
    &&& report.full == with_delivery(clients, deliveries, Delivery::Full).len()
    &&& report.closed == with_delivery(clients, deliveries, Delivery::Closed).len()
    &&& report.delivered + report.full + report.closed == clients.len()
}

/// Counting one more session.
pub proof fn lemma_deliveries_next(
    clients: Set<u64>,
    deliveries: Map<u64, Delivery>,
    client: u64,
    delivery: Delivery,
)
    requires
        clients.finite(),
        !clients.contains(client),
    ensures
        clients.insert(client).len() == clients.len() + 1,
        forall|other: Delivery| #[trigger]
            with_delivery(
                clients.insert(client),
                deliveries.insert(client, delivery),
                other,
            ).len() == with_delivery(clients, deliveries, other).len() + if other == delivery {
                1nat
            } else {
                0nat
            },
{
    assert forall|other: Delivery| #[trigger]
        with_delivery(clients.insert(client), deliveries.insert(client, delivery), other).len()
            == with_delivery(clients, deliveries, other).len() + if other == delivery {
            1nat
        } else {
            0nat
        } by {
        let fewer = with_delivery(clients, deliveries, other);
        let more = with_delivery(
            clients.insert(client),
            deliveries.insert(client, delivery),
            other,
        );
        vstd::set_lib::lemma_len_subset(fewer, clients);
        if other == delivery {
            assert(more =~= fewer.insert(client));
        } else {
            assert(more =~= fewer);
        }
    }
}

/// Nobody has been counted yet.
pub proof fn lemma_no_deliveries(deliveries: Map<u64, Delivery>)
    ensures
        reports(PublishReport::empty(), Set::empty(), deliveries),
{
    assert forall|other: Delivery| #[trigger]
        with_delivery(Set::empty(), deliveries, other).len() == 0 by {
        assert(with_delivery(Set::empty(), deliveries, other) =~= Set::empty());
    }
}

/// Enters what became of a message at one more session.
pub fn note_delivery(report: &mut PublishReport, delivery: Delivery)
    requires
        old(report).delivered + old(report).full + old(report).closed < usize::MAX,
    ensures
        final(report).delivered == old(report).delivered + (if delivery is Delivered {
            1int
        } else {
            0
        }),
        final(report).full == old(report).full + (if delivery is Full {
            1int
        } else {
            0
        }),
        final(report).closed == old(report).closed + (if delivery is Closed {
            1int
        } else {
            0
        }),
{
    match delivery {
        Delivery::Delivered => {
            report.delivered += 1;
        },
        Delivery::Full => {
            report.full += 1;
        },
        Delivery::Closed => {
            report.closed += 1;
        },
    }
}

/// A client that nobody knows.
#[derive(Debug, Clone, Copy, PartialEq, Eq, Structural)]
pub struct UnknownClient {
    pub client_id: u64,
}

impl UnknownClient {
    pub open spec fn text(self) -> Seq<char> {
        "unknown link client "@ + decimal(self.client_id as nat)
    }

    pub fn message(&self) -> (message: String)
        ensures
            message@ == self.text(),
    {
        let mut text: String = "unknown link client ".to_owned();
        let digits: String = decimal_text(self.client_id);
        text.append(digits.as_str());
        text
    }
}

/// What a session has subscribed to and where its data goes.
pub struct RoutedSession {
    pub subscriptions: VecSet<SubscriptionKey>,
    pub outbox: Outbox<Vec<u8>>,
}

/// A session after a frame was put into its queue once.
pub open spec fn served(
    before: RoutedSession,
    after: RoutedSession,
    bytes: Seq<u8>,
    delivery: Delivery,
) -> bool {
    &&& after.subscriptions == before.subscriptions
    &&& after.outbox.end() == before.outbox.end()
    &&& after.outbox.sent() == before.outbox.sent().push((bytes, delivery))
    &&& may_deliver_bytes(before.outbox.end(), bytes, delivery)
}

/// A subscription table and bounded output for every session.
///
/// Backends check what a request means. Once a request is granted they apply it here, and
/// publish frames by identifier and stream.
pub struct SubscriptionRouter {
    pub sessions: VecMap<u64, RoutedSession>,
}

/// The subscriptions after a request that names keys with their thresholds.
pub open spec fn exactly_changed(
    subscriptions: Set<KeyModel>,
    request: RequestModel,
) -> Set<KeyModel> {
    match request.op {
        ControlOperation::Subscribe => Set::new(
            |key: KeyModel| subscriptions.contains(key) || request.names(key),
        ),
        ControlOperation::Unsubscribe => Set::new(
            |key: KeyModel| subscriptions.contains(key) && !request.names(key),
        ),
        ControlOperation::RefetchBbo => subscriptions,
    }
}

fn change_exactly(subscriptions: &mut VecSet<SubscriptionKey>, request: &ControlRequest)
    requires
        old(subscriptions).wf(),
    ensures
        final(subscriptions).wf(),
        final(subscriptions)@ == exactly_changed(old(subscriptions)@, request@),
        request.op == ControlOperation::Subscribe ==> old(subscriptions)@.subset_of(
            final(subscriptions)@,
        ),
        request.op != ControlOperation::Subscribe ==> final(subscriptions)@.subset_of(
            old(subscriptions)@,
        ),
{
    let ghost before = subscriptions@;
    if matches!(request.op, ControlOperation::RefetchBbo) {
        return;
    }
    let subscribe: bool = matches!(request.op, ControlOperation::Subscribe);
    let keys: Vec<SubscriptionKey> = request.keys();
    let mut i: usize = 0;
    while i < keys.len()
        invariant
            i <= keys@.len(),
            subscriptions.wf(),
            forall|key: KeyModel| #[trigger]
                subscriptions@.contains(key) <==> if subscribe {
                    before.contains(key) || has_key(keys@.take(i as int), key)
                } else {
                    before.contains(key) && !has_key(keys@.take(i as int), key)
                },
        decreases keys@.len() - i,
    {
        let ghost earlier = subscriptions@;
        if subscribe {
            subscriptions.insert(keys[i].clone());
        } else {
            subscriptions.remove(&keys[i]);
        }
        proof {
            assert forall|key: KeyModel| #[trigger]
                subscriptions@.contains(key) <==> if subscribe {
                    before.contains(key) || has_key(keys@.take(i + 1), key)
                } else {
                    before.contains(key) && !has_key(keys@.take(i + 1), key)
                } by {
                lemma_take_next(keys@, i as int, key);
                assert(earlier.contains(key) <==> if subscribe {
                    before.contains(key) || has_key(keys@.take(i as int), key)
                } else {
                    before.contains(key) && !has_key(keys@.take(i as int), key)
                });
            }
        }
        i += 1;
    }
    proof {
        assert(keys@.take(i as int) =~= keys@);
        assert(subscriptions@ =~= exactly_changed(before, request@));
    }
}

/// Whether some subscription is to the route of the key.
pub(crate) fn is_subscribed(subscriptions: &VecSet<SubscriptionKey>, key: &SubscriptionKey) -> (
held: bool)
    ensures
        held == subscribed(subscriptions@, RouteModel { id: key.id, stream: key.stream@ }),
{
    let items: &Vec<SubscriptionKey> = &subscriptions.items;
    let mut i: usize = 0;
    while i < items.len()
        invariant
            items == &subscriptions.items,
            i <= items@.len(),
            forall|j: int|
                0 <= j < i ==> !(#[trigger] items@[j])@.routes(key.id, key.stream@),
        decreases items@.len() - i,
    {
        if items[i].is_route_of(key.id, &key.stream) {
            proof {
                let found = items@[i as int]@;
                assert(has_key(items@, found));
                assert(subscriptions@.contains(found));
            }
            return true;
        }
        i += 1;
    }
    proof {
        let route = RouteModel { id: key.id, stream: key.stream@ };
        if subscribed(subscriptions@, route) {
            let found = choose|found: KeyModel| #[trigger]
                subscriptions@.contains(found) && found.routes(route.id, route.stream);
            assert(items@[index_of(items@, found)]@ == found);
        }
    }
    false
}

impl SubscriptionRouter {
    pub open spec fn wf(self) -> bool {
        &&& self.sessions.wf()
        &&& forall|client: u64| #[trigger]
            self.sessions@.contains_key(client) ==> self.sessions@[client].subscriptions.wf()
    }

    /// The sessions that a frame goes to. Thresholds play no part in it.
    pub open spec fn subscribers(self, key: KeyModel) -> Set<u64> {
        Set::new(
            |client: u64|
                self.sessions@.contains_key(client) && subscribed(
                    self.sessions@[client].subscriptions@,
                    RouteModel { id: key.id, stream: key.stream },
                ),
        )
    }

    pub fn new() -> (router: SubscriptionRouter)
        ensures
            router.wf(),
            router.sessions@ == Map::<u64, RoutedSession>::empty(),
    {
        SubscriptionRouter { sessions: VecMap::new() }
    }

    /// Opens a session without subscriptions, in place of any that the client had.
    pub fn connect(&mut self, client_id: u64, capacity: usize) -> (session: BackendSession)
        requires
            old(self).wf(),
            0 < capacity <= channel_capacity_max(),
        ensures
            final(self).wf(),
            session.client_id == client_id,
            session.outbound is Some,
            session.control is None,
            may_open(
                capacity,
                final(self).sessions@[client_id].outbox.end(),
                session.outbound->0,
            ),
            final(self).sessions@[client_id].outbox.sent() == Seq::<
                (Seq<u8>, Delivery),
            >::empty(),
            final(self).sessions@.contains_key(client_id),
            final(self).sessions@[client_id].subscriptions@ == Set::<KeyModel>::empty(),
            final(self).sessions@.remove(client_id) == old(self).sessions@.remove(client_id),
    {
        let (outbox, outbound) = Outbox::open(capacity);
        self.sessions.insert(client_id, RoutedSession { subscriptions: VecSet::new(), outbox });
        assert(self.sessions@.remove(client_id) =~= old(self).sessions@.remove(client_id));
        BackendSession { client_id, outbound: Some(outbound), control: None }
    }

    /// Changes the subscriptions of a session as a request asks, key by key.
    pub fn apply(&mut self, client_id: u64, request: &ControlRequest) -> (result: Result<
        (),
        UnknownClient,
    >)
        requires
            old(self).wf(),
        ensures
            final(self).wf(),
            !old(self).sessions@.contains_key(client_id) ==> *final(self) == *old(self) && result
                == Err::<(), _>(UnknownClient { client_id }),
            old(self).sessions@.contains_key(client_id) ==> {
                &&& result is Ok
                &&& final(self).sessions@ == old(self).sessions@.insert(
                    client_id,
                    final(self).sessions@[client_id],
                )
                &&& final(self).sessions@[client_id].outbox == old(self).sessions@[client_id].outbox
                &&& final(self).sessions@[client_id].subscriptions@ == exactly_changed(
                    old(self).sessions@[client_id].subscriptions@,
                    request@,
                )
                &&& request.op == ControlOperation::Subscribe ==> forall|key: KeyModel| #[trigger]
                    final(self).sessions@[client_id].subscriptions@.contains(key) <==> old(
                        self,
                    ).sessions@[client_id].subscriptions@.contains(key) || request@.names(key)
                &&& request.op == ControlOperation::Unsubscribe ==> forall|key: KeyModel| #[trigger]
                    final(self).sessions@[client_id].subscriptions@.contains(key) <==> old(
                        self,
                    ).sessions@[client_id].subscriptions@.contains(key) && !request@.names(key)
            },
    {
        let ghost before = self.sessions;
        match position(&self.sessions.keys, &client_id) {
            None => Err(UnknownClient { client_id }),
            Some(at) => {
                proof {
                    before.lemma_entry(at as int);
                    lemma_update_value(before, at as int);
                }
                change_exactly(&mut self.sessions.values[at].subscriptions, request);
                proof {
                    let now = self.sessions.values@[at as int];
                    assert(self.sessions.values@ =~= before.values@.update(at as int, now));
                    assert(self.sessions@ == before@.insert(client_id, now));
                }
                Ok(())
            },
        }
    }

    /// Closes a session.
    pub fn disconnect(&mut self, client_id: u64)
        requires
            old(self).wf(),
        ensures
            final(self).wf(),
            final(self).sessions@ == old(self).sessions@.remove(client_id),
    {
        self.sessions.remove(&client_id);
    }

    /// A frame was put once into the queue of every session that wants it and into no
    /// other; the sessions whose receiver is gone were closed, and nothing else has changed.
    pub open spec fn published(
        self,
        after: SubscriptionRouter,
        key: KeyModel,
        bytes: Seq<u8>,
        deliveries: Map<u64, Delivery>,
    ) -> bool {
        &&& forall|client: u64| #[trigger]
            after.sessions@.contains_key(client) <==> self.sessions@.contains_key(client) && !(
            self.subscribers(key).contains(client) && deliveries[client] is Closed)
        &&& forall|client: u64| #[trigger]
            after.sessions@.contains_key(client) ==> if self.subscribers(key).contains(client) {
                served(self.sessions@[client], after.sessions@[client], bytes, deliveries[client])
            } else {
                after.sessions@[client] == self.sessions@[client]
            }
        &&& forall|client: u64| #[trigger]
            self.subscribers(key).contains(client) ==> may_deliver_bytes(
                self.sessions@[client].outbox.end(),
                bytes,
                deliveries[client],
            )
    }

    /// Puts a frame into the queue of every session that wants it, once, and into no other.
    /// A full queue loses the frame; a session that is gone is closed.
    pub fn publish(&mut self, key: &SubscriptionKey, bytes: &[u8]) -> (report: PublishReport)
        requires
            old(self).wf(),
        ensures
            final(self).wf(),
            exists|deliveries: Map<u64, Delivery>|
                #[trigger] old(self).published(*final(self), key@, bytes@, deliveries) && reports(
                    report,
                    old(self).subscribers(key@),
                    deliveries,
                ),
    {
        let ghost start = *self;
        let ghost keys = self.sessions.keys@;
        let ghost wanted = self.subscribers(key@);
        let ghost mut deliveries: Map<u64, Delivery> = Map::empty();
        let ghost mut done: Set<u64> = Set::empty();
        let ghost mut seen: int = 0;
        let mut report: PublishReport = PublishReport::default();
        let total: usize = self.sessions.keys.len();
        let mut i: usize = 0;
        proof {
            lemma_no_deliveries(deliveries);
            assert(self.sessions.keys@.skip(0) =~= keys.skip(0));
        }
        while i < self.sessions.keys.len()
            invariant
                start == *old(self),
                start.wf(),
                keys == start.sessions.keys@,
                keys.len() == total,
                wanted == start.subscribers(key@),
                self.sessions.wf(),
                i <= self.sessions.keys@.len(),
                0 <= seen <= keys.len(),
                self.sessions.keys@.len() - i == keys.len() - seen,
                i <= seen,
                self.sessions.keys@.skip(i as int) == keys.skip(seen),
                self.sessions.values@.skip(i as int) == start.sessions.values@.skip(seen),
                done.finite(),
                done.len() <= seen,
                reports(report, done, deliveries),
                forall|client: u64| #[trigger]
                    done.contains(client) ==> may_deliver_bytes(
                        start.sessions@[client].outbox.end(),
                        bytes@,
                        deliveries[client],
                    ),
                forall|client: u64| #[trigger]
                    done.contains(client) <==> wanted.contains(client) && has_key(
                        keys.take(seen),
                        client,
                    ),
                forall|client: u64| #[trigger]
                    self.sessions@.contains_key(client) <==> start.sessions@.contains_key(client)
                        && !(done.contains(client) && deliveries[client] is Closed),
                forall|client: u64| #[trigger]
                    self.sessions@.contains_key(client) ==> if done.contains(client) {
                        served(
                            start.sessions@[client],
                            self.sessions@[client],
                            bytes@,
                            deliveries[client],
                        )
                    } else {
                        self.sessions@[client] == start.sessions@[client]
                    },
            decreases self.sessions.keys@.len() - i,
        {
            let ghost client = keys[seen];
            let ghost before = self.sessions;
            let ghost fewer = done;
            let ghost known = deliveries;
            proof {
                assert(self.sessions.keys@.skip(i as int)[0] == keys.skip(seen)[0]);
                assert(self.sessions.values@.skip(i as int)[0] == start.sessions.values@.skip(
                    seen,
                )[0]);
                assert(self.sessions.keys@[i as int] == client);
                assert(self.sessions.values@[i as int] == start.sessions.values@[seen]);
                start.sessions.lemma_entry(seen);
                before.lemma_entry(i as int);
                lemma_update_value(before, i as int);
                lemma_fresh_client(keys, seen);
                assert forall|other: u64| #[trigger]
                    has_key(keys.take(seen + 1), other) == (has_key(keys.take(seen), other)
                        || other == client) by {
                    lemma_take_next(keys, seen, other);
                }
                lemma_skip_twice(before.keys@, i as int);
                lemma_skip_twice(keys, seen);
                lemma_skip_twice(before.values@, i as int);
                lemma_skip_twice(start.sessions.values@, seen);
            }
            if is_subscribed(&self.sessions.values[i].subscriptions, key) {
                let copy: Vec<u8> = slice_to_vec(bytes);
                let ghost sent = copy;
                let delivery: Delivery = self.sessions.values[i].outbox.put(copy);
                note_delivery(&mut report, delivery);
                let ghost session = self.sessions.values@[i as int];
                let ghost updated = self.sessions;
                proof {
                    assert(may_deliver(start.sessions@[client].outbox.end(), sent, delivery));
                    assert(may_deliver_bytes(
                        start.sessions@[client].outbox.end(),
                        bytes@,
                        delivery,
                    ));
                    assert(served(start.sessions@[client], session, bytes@, delivery));
                    assert(updated.values@ =~= before.values@.update(i as int, session));
                    assert(updated@ == before@.insert(client, session));
                    assert(updated.values@.skip(i + 1) =~= before.values@.skip(i + 1));
                    lemma_deliveries_next(fewer, known, client, delivery);
                    done = fewer.insert(client);
                    deliveries = known.insert(client, delivery);
                    assert(reports(report, done, deliveries));
                }
                if matches!(delivery, Delivery::Closed) {
                    self.sessions.remove_at(i);
                    proof {
                        lemma_skip_removed(updated.keys@, i as int);
                        lemma_skip_removed(updated.values@, i as int);
                    }
                } else {
                    i += 1;
                }
            } else {
                i += 1;
            }
            proof {
                seen = seen + 1;
            }
        }
        proof {
            assert(keys.take(seen) =~= keys);
            assert forall|client: u64| #[trigger] done.contains(client) == wanted.contains(
                client,
            ) by {
                assert(start.sessions@.contains_key(client) == has_key(keys, client));
            }
            assert(done =~= wanted);
            assert forall|client: u64| #[trigger]
                self.sessions@.contains_key(
                    client,
                ) implies self.sessions@[client].subscriptions.wf() by {
                assert(start.sessions@.contains_key(client));
            }
            assert(start.published(*self, key@, bytes@, deliveries));
        }
        report
    }

    pub fn session_count(&self) -> (count: usize)
        requires
            self.wf(),
        ensures
            count == self.sessions@.len(),
    {
        self.sessions.len()
    }
}

/// Frames are routed by identifier and stream: thresholds play no part in it.
pub proof fn law_thresholds_do_not_route(
    router: SubscriptionRouter,
    left: KeyModel,
    right: KeyModel,
)
    requires
        left.id == right.id,
        left.stream == right.stream,
    ensures
        router.subscribers(left) == router.subscribers(right),
{
}

/// Whoever subscribes to a key gets the frames of its route, and whoever gives up every
/// threshold of a route gets them no longer.
pub proof fn law_granted_subscriptions_are_routed(
    subscriptions: Set<KeyModel>,
    request: RequestModel,
    key: KeyModel,
)
    ensures
        request.op == ControlOperation::Subscribe && request.names(key) ==> subscribed(
            exactly_changed(subscriptions, request),
            RouteModel { id: key.id, stream: key.stream },
        ),
        request.op == ControlOperation::Unsubscribe && (forall|other: KeyModel| #[trigger]
            subscriptions.contains(other) && other.routes(key.id, key.stream) ==> request.names(
                other,
            )) ==> !subscribed(
            exactly_changed(subscriptions, request),
            RouteModel { id: key.id, stream: key.stream },
        ),
{
    let after = exactly_changed(subscriptions, request);
    let route = RouteModel { id: key.id, stream: key.stream };
    if request.op == ControlOperation::Subscribe && request.names(key) {
        assert(after.contains(key));
        assert(key.routes(route.id, route.stream));
    }
    if request.op == ControlOperation::Unsubscribe && subscribed(after, route) {
        let other = choose|other: KeyModel| #[trigger]
            after.contains(other) && other.routes(route.id, route.stream);
        assert(subscriptions.contains(other));
    }
}

pub(crate) proof fn lemma_skip_removed<T>(items: Seq<T>, at: int)
    requires
        0 <= at < items.len(),
    ensures
        items.remove(at).skip(at) == items.skip(at + 1),
{
    assert(items.remove(at).skip(at) =~= items.skip(at + 1));
}

pub(crate) proof fn lemma_skip_twice<T>(items: Seq<T>, at: int)
    requires
        0 <= at < items.len(),
    ensures
        items.skip(at).skip(1) == items.skip(at + 1),
{
    assert(items.skip(at).skip(1) =~= items.skip(at + 1));
}

pub(crate) proof fn lemma_fresh_client(keys: Seq<u64>, at: int)
    requires
        crate::collections::distinct(keys),
        0 <= at < keys.len(),
    ensures
        !has_key(keys.take(at), keys[at]),
{
    if has_key(keys.take(at), keys[at]) {
        let j = index_of(keys.take(at), keys[at]);
        assert(keys[j]@ == keys[at]@);
    }
}

} // verus!
