//! Sessions with a data queue and a control queue each.
use vstd::prelude::*;
use vstd::slice::*;
use vstd::string::*;
use crate::collections::{
    distinct, has_key, index_of, lemma_update_value, models, position, VecMap, VecSet,
};
use crate::outbox::{
    channel_capacity_max, may_deliver, may_deliver_bytes, may_open, Delivery, Outbox,
};
use crate::protocol::{ControlRequest, KeyModel, SubscriptionKey};
use crate::routes::{change_subscriptions, changed, lemma_take_next, subscribed, RouteModel};
use crate::server::{
    is_subscribed, lemma_deliveries_next, lemma_no_deliveries, note_delivery, reports,
    PublishReport, SessionControl, UnknownClient,
};
use crate::server_messages::StreamError;

verus! {

/// The receiving end of a session.
pub struct SessionChannels {
    pub client_id: u64,
    pub udp_outbound: Option<tokio::sync::mpsc::Receiver<Vec<u8>>>,
    pub control: Option<tokio::sync::mpsc::Receiver<SessionControl>>,
}

/// What a session has subscribed to and its two queues.
pub struct RegisteredClient {
    pub subscriptions: VecSet<SubscriptionKey>,
    pub data: Outbox<Vec<u8>>,
    pub control: Outbox<SessionControl>,
}

/// A client after data was put into its data queue once.
pub open spec fn got_data(
    before: RegisteredClient,
    after: RegisteredClient,
    bytes: Seq<u8>,
    delivery: Delivery,
) -> bool {
    &&& after.subscriptions == before.subscriptions
    &&& after.control == before.control
    &&& after.data.end() == before.data.end()
    &&& after.data.sent() == before.data.sent().push((bytes, delivery))
    &&& may_deliver_bytes(before.data.end(), bytes, delivery)
}

/// A client after a fault was put into its control queue once.
pub open spec fn got_fault(
    before: RegisteredClient,
    after: RegisteredClient,
    error: StreamError,
    delivery: Delivery,
) -> bool {
    &&& after.subscriptions == before.subscriptions
    &&& after.data == before.data
    &&& after.control.end() == before.control.end()
    &&& after.control.sent() == before.control.sent().push(
        (SessionControl::StreamError(error), delivery),
    )
    &&& may_deliver(before.control.end(), SessionControl::StreamError(error), delivery)
}

/// Routes data by subscription, and faults to those whom they concern.
pub struct ClientRouter {
    pub clients: VecMap<u64, RegisteredClient>,
}

/// A fault concerns whoever has subscribed to something it names. One that names nothing
/// concerns everyone.
pub open spec fn concerns(error: StreamError, subscriptions: Set<KeyModel>) -> bool {
    ||| error.id is None && error.stream is None
    ||| exists|key: KeyModel| #[trigger]
        subscriptions.contains(key) && named_by(error, key)
}

/// A fault names the key's identifier and stream, as far as it names any.
pub open spec fn named_by(error: StreamError, key: KeyModel) -> bool {
    &&& error.id is Some ==> error.id->0 == key.id
    &&& error.stream is Some ==> error.stream->0@ == key.stream
}

/// Whom a message is for.
#[derive(Clone, Copy)]
enum Audience<'a> {
    /// Those who have subscribed to the key.
    Subscribers(&'a SubscriptionKey),
    /// Those whom the fault concerns.
    Concerned(&'a StreamError),
}

/// A message for a session.
enum Outgoing {
    Data(Vec<u8>),
    Fault(StreamError),
}

/// A client after the message was put into the queue that it belongs to, once.
spec fn handed_over(
    before: RegisteredClient,
    after: RegisteredClient,
    message: Outgoing,
    delivery: Delivery,
) -> bool {
    match message {
        Outgoing::Data(bytes) => got_data(before, after, bytes@, delivery),
        Outgoing::Fault(error) => got_fault(before, after, error, delivery),
    }
}

/// Putting the message into the client's queue may end this way.
spec fn may_hand_over(client: RegisteredClient, message: Outgoing, delivery: Delivery) -> bool {
    match message {
        Outgoing::Data(bytes) => may_deliver_bytes(client.data.end(), bytes@, delivery),
        Outgoing::Fault(error) => may_deliver(
            client.control.end(),
            SessionControl::StreamError(error),
            delivery,
        ),
    }
}

/// Where a session is given up: always when its receiver is gone, and also when it does not
/// keep up with its faults.
pub open spec fn given_up(
    clients: Set<u64>,
    deliveries: Map<u64, Delivery>,
    full_too: bool,
) -> Set<u64> {
    clients.filter(
        |client: u64| deliveries[client] is Closed || (full_too && deliveries[client] is Full),
    )
}

fn is_concerned(error: &StreamError, subscriptions: &VecSet<SubscriptionKey>) -> (concerned: bool)
    ensures
        concerned == concerns(*error, subscriptions@),
{
    if error.id.is_none() && error.stream.is_none() {
        return true;
    }
    let items: &Vec<SubscriptionKey> = &subscriptions.items;
    let mut i: usize = 0;
    while i < items.len()
        invariant
            items == &subscriptions.items,
            i <= items@.len(),
            forall|j: int| 0 <= j < i ==> !named_by(*error, (#[trigger] items@[j])@),
        decreases items@.len() - i,
    {
        let same_id: bool = match error.id {
            Some(id) => id == items[i].id,
            None => true,
        };
        let same_stream: bool = match &error.stream {
            Some(stream) => *stream == items[i].stream,
            None => true,
        };
        if same_id && same_stream {
            proof {
                let found = items@[i as int]@;
                assert(has_key(items@, found));
                assert(subscriptions@.contains(found));
            }
            return true;
        }
        i += 1;
    }
    proof {
        if exists|key: KeyModel| #[trigger]
            subscriptions@.contains(key) && named_by(*error, key) {
            let key = choose|key: KeyModel| #[trigger]
                subscriptions@.contains(key) && named_by(*error, key);
            assert(items@[index_of(items@, key)]@ == key);
        }
    }
    false
}

impl ClientRouter {
    pub open spec fn wf(self) -> bool {
        &&& self.clients.wf()
        &&& forall|client: u64| #[trigger]
            self.clients@.contains_key(client) ==> self.clients@[client].subscriptions.wf()
    }

    /// The clients that data goes to.
    pub open spec fn subscribers(self, key: KeyModel) -> Set<u64> {
        Set::new(
            |client: u64|
                self.clients@.contains_key(client) && subscribed(
                    self.clients@[client].subscriptions@,
                    RouteModel { id: key.id, stream: key.stream },
                ),
        )
    }

    /// The clients that a fault goes to.
    pub open spec fn concerned(self, error: StreamError) -> Set<u64> {
        Set::new(
            |client: u64|
                self.clients@.contains_key(client) && concerns(
                    error,
                    self.clients@[client].subscriptions@,
                ),
        )
    }

    /// Data was put once into the queue of every client that wants it and into no other;
    /// the clients whose receiver is gone were forgotten, and nothing else has changed.
    pub open spec fn data_sent(
        self,
        after: ClientRouter,
        key: KeyModel,
        bytes: Seq<u8>,
        deliveries: Map<u64, Delivery>,
    ) -> bool {
        &&& self.dropped(after, given_up(self.subscribers(key), deliveries, false))
        &&& forall|client: u64| #[trigger]
            after.clients@.contains_key(client) ==> if self.subscribers(key).contains(client) {
                got_data(self.clients@[client], after.clients@[client], bytes, deliveries[client])
            } else {
                after.clients@[client] == self.clients@[client]
            }
        &&& forall|client: u64| #[trigger]
            self.subscribers(key).contains(client) ==> may_deliver_bytes(
                self.clients@[client].data.end(),
                bytes,
                deliveries[client],
            )
    }

    /// A fault was put once into the control queue of every client whom it concerns and
    /// into no other; the clients that are gone or do not keep up were forgotten, and
    /// nothing else has changed.
    pub open spec fn fault_sent(
        self,
        after: ClientRouter,
        error: StreamError,
        deliveries: Map<u64, Delivery>,
    ) -> bool {
        &&& self.dropped(after, given_up(self.concerned(error), deliveries, true))
        &&& forall|client: u64| #[trigger]
            after.clients@.contains_key(client) ==> if self.concerned(error).contains(client) {
                got_fault(self.clients@[client], after.clients@[client], error, deliveries[client])
            } else {
                after.clients@[client] == self.clients@[client]
            }
        &&& forall|client: u64| #[trigger]
            self.concerned(error).contains(client) ==> may_deliver(
                self.clients@[client].control.end(),
                SessionControl::StreamError(error),
                deliveries[client],
            )
    }

    /// These clients were forgotten, and no others.
    pub open spec fn dropped(self, after: ClientRouter, gone: Set<u64>) -> bool {
        forall|client: u64| #[trigger]
            after.clients@.contains_key(client) <==> self.clients@.contains_key(client)
                && !gone.contains(client)
    }

    pub fn new() -> (router: ClientRouter)
        ensures
            router.wf(),
            router.clients@ == Map::<u64, RegisteredClient>::empty(),
    {
        ClientRouter { clients: VecMap::new() }
    }

    /// Opens a session without subscriptions, in place of any that the client had.
    pub fn register_client(&mut self, client_id: u64, capacity: usize) -> (session: SessionChannels)
        requires
            old(self).wf(),
            0 < capacity <= channel_capacity_max(),
        ensures
            final(self).wf(),
            session.client_id == client_id,
            session.udp_outbound is Some,
            session.control is Some,
            may_open(
                capacity,
                final(self).clients@[client_id].data.end(),
                session.udp_outbound->0,
            ),
            may_open(capacity, final(self).clients@[client_id].control.end(), session.control->0),
            final(self).clients@[client_id].data.sent() == Seq::<(Seq<u8>, Delivery)>::empty(),
            final(self).clients@[client_id].control.sent() == Seq::<
                (SessionControl, Delivery),
            >::empty(),
            final(self).clients@.contains_key(client_id),
            final(self).clients@[client_id].subscriptions@ == Set::<KeyModel>::empty(),
            final(self).clients@.remove(client_id) == old(self).clients@.remove(client_id),
    {
        let (data, udp_outbound) = Outbox::open(capacity);
        let (control, control_end) = Outbox::open(capacity);
        self.clients.insert(
            client_id,
            RegisteredClient { subscriptions: VecSet::new(), data, control },
        );
        assert(self.clients@.remove(client_id) =~= old(self).clients@.remove(client_id));
        SessionChannels {
            client_id,
            udp_outbound: Some(udp_outbound),
            control: Some(control_end),
        }
    }

    /// Changes the subscriptions of a client as a request asks.
    pub fn update_subscriptions(&mut self, client_id: u64, request: &ControlRequest) -> (result:
        Result<(), UnknownClient>)
        requires
            old(self).wf(),
        ensures
            final(self).wf(),
            !old(self).clients@.contains_key(client_id) ==> *final(self) == *old(self) && result
                == Err::<(), _>(UnknownClient { client_id }),
            old(self).clients@.contains_key(client_id) ==> {
                &&& result is Ok
                &&& final(self).clients@ == old(self).clients@.insert(
                    client_id,
                    final(self).clients@[client_id],
                )
                &&& final(self).clients@[client_id].data == old(self).clients@[client_id].data
                &&& final(self).clients@[client_id].control == old(self).clients@[client_id].control
                &&& final(self).clients@[client_id].subscriptions@ == changed(
                    old(self).clients@[client_id].subscriptions@,
                    request@,
                )
            },
    {
        let ghost before = self.clients;
        match position(&self.clients.keys, &client_id) {
            None => Err(UnknownClient { client_id }),
            Some(at) => {
                proof {
                    before.lemma_entry(at as int);
                    lemma_update_value(before, at as int);
                }
                change_subscriptions(&mut self.clients.values[at].subscriptions, request);
                proof {
                    let now = self.clients.values@[at as int];
                    assert(self.clients.values@ =~= before.values@.update(at as int, now));
                    assert(self.clients@ == before@.insert(client_id, now));
                }
                Ok(())
            },
        }
    }

    /// Closes a session. It does not matter whether there is one.
    pub fn remove_client(&mut self, client_id: u64)
        requires
            old(self).wf(),
        ensures
            final(self).wf(),
            final(self).clients@ == old(self).clients@.remove(client_id),
    {
        self.clients.remove(&client_id);
    }

    pub fn session_count(&self) -> (count: usize)
        requires
            self.wf(),
        ensures
            count == self.clients@.len(),
    {
        self.clients.len()
    }

    /// The clients of an audience.
    spec fn reached(self, audience: Audience) -> Set<u64> {
        match audience {
            Audience::Subscribers(key) => self.subscribers(key@),
            Audience::Concerned(error) => self.concerned(*error),
        }
    }

    /// Lists the clients of an audience, each once.
    fn list(&self, audience: Audience) -> (listed: Vec<u64>)
        requires
            self.wf(),
        ensures
            distinct(listed@),
            models(listed@) == self.reached(audience),
            forall|i: int|
                0 <= i < listed@.len() ==> self.clients@.contains_key(#[trigger] listed@[i]),
    {
        let mut listed: Vec<u64> = Vec::new();
        let mut i: usize = 0;
        while i < self.clients.keys.len()
            invariant
                self.wf(),
                i <= self.clients.keys@.len(),
                distinct(listed@),
                forall|client: u64| #[trigger]
                    has_key(listed@, client) <==> self.reached(audience).contains(client)
                        && has_key(self.clients.keys@.take(i as int), client),
            decreases self.clients.keys@.len() - i,
        {
            let ghost earlier = listed@;
            let client: u64 = self.clients.keys[i];
            proof {
                self.clients.lemma_entry(i as int);
            }
            let subscriptions: &VecSet<SubscriptionKey> = &self.clients.values[i].subscriptions;
            let chosen: bool = match audience {
                Audience::Subscribers(key) => is_subscribed(subscriptions, key),
                Audience::Concerned(error) => is_concerned(error, subscriptions),
            };
            if chosen {
                listed.push(client);
            }
            proof {
                assert(chosen == self.reached(audience).contains(client));
                lemma_listed_next(
                    self.clients.keys@,
                    i as int,
                    self.reached(audience),
                    earlier,
                    listed@,
                );
            }
            i += 1;
        }
        proof {
            lemma_all_listed(self.clients, self.reached(audience), listed@);
        }
        listed
    }

    /// Puts data into the queue of every client that wants it. A full queue loses it; a
    /// client that is gone is forgotten.
    pub fn send_data(&mut self, key: &SubscriptionKey, bytes: &[u8]) -> (report: PublishReport)
        requires
            old(self).wf(),
        ensures
            final(self).wf(),
            exists|deliveries: Map<u64, Delivery>|
                #[trigger] old(self).data_sent(*final(self), key@, bytes@, deliveries) && reports(
                    report,
                    old(self).subscribers(key@),
                    deliveries,
                ),
    {
        let wanted: Vec<u64> = self.list(Audience::Subscribers(key));
        let message = Outgoing::Data(slice_to_vec(bytes));
        let (report, Ghost(deliveries)) = self.deliver_each(&wanted, &message, false);
        assert(old(self).data_sent(*self, key@, bytes@, deliveries));
        report
    }

    /// Puts a fault into the control queue of every client whom it concerns. A client that
    /// does not keep up with its faults is forgotten, like one that is gone.
    pub fn send_error(&mut self, error: &StreamError) -> (report: PublishReport)
        requires
            old(self).wf(),
        ensures
            final(self).wf(),
            exists|deliveries: Map<u64, Delivery>|
                #[trigger] old(self).fault_sent(*final(self), *error, deliveries) && reports(
                    report,
                    old(self).concerned(*error),
                    deliveries,
                ),
    {
        let wanted: Vec<u64> = self.list(Audience::Concerned(error));
        let message = Outgoing::Fault(error.clone());
        let (report, Ghost(deliveries)) = self.deliver_each(&wanted, &message, true);
        assert(old(self).fault_sent(*self, *error, deliveries));
        report
    }

    /// Hands a message to each of the clients, and forgets those that are given up.
    fn deliver_each(&mut self, wanted: &Vec<u64>, message: &Outgoing, full_too: bool) -> (done: (
        PublishReport,
        Ghost<Map<u64, Delivery>>,
    ))
        requires
            old(self).wf(),
            distinct(wanted@),
            forall|i: int|
                0 <= i < wanted@.len() ==> old(self).clients@.contains_key(#[trigger] wanted@[i]),
        ensures
            final(self).wf(),
            reports(done.0, models(wanted@), done.1@),
            old(self).handed_to(*final(self), models(wanted@), *message, full_too, done.1@),
    {
        let ghost start = *self;
        let ghost mut deliveries: Map<u64, Delivery> = Map::empty();
        let mut report: PublishReport = PublishReport::default();
        let mut i: usize = 0;
        proof {
            assert(models(wanted@.take(0)) =~= Set::<u64>::empty());
            lemma_no_deliveries(deliveries);
        }
        while i < wanted.len()
            invariant
                start == *old(self),
                self.wf(),
                distinct(wanted@),
                forall|j: int|
                    0 <= j < wanted@.len() ==> start.clients@.contains_key(#[trigger] wanted@[j]),
                i <= wanted@.len(),
                models(wanted@.take(i as int)).finite(),
                models(wanted@.take(i as int)).len() == i,
                reports(report, models(wanted@.take(i as int)), deliveries),
                start.handed_to(
                    *self,
                    models(wanted@.take(i as int)),
                    *message,
                    full_too,
                    deliveries,
                ),
            decreases wanted@.len() - i,
        {
            let client: u64 = wanted[i];
            let ghost fewer = models(wanted@.take(i as int));
            let ghost known = deliveries;
            let ghost before = self.clients;
            proof {
                crate::server::lemma_fresh_client(wanted@, i as int);
                assert forall|other: u64| #[trigger]
                    models(wanted@.take(i + 1)).contains(other) == fewer.insert(client).contains(
                        other,
                    ) by {
                    lemma_take_next(wanted@, i as int, other);
                }
                assert(models(wanted@.take(i + 1)) =~= fewer.insert(client));
                assert(self.clients@.contains_key(client));
                assert(self.clients@[client] == start.clients@[client]);
            }
            match position(&self.clients.keys, &client) {
                None => {
                    assert(false);
                },
                Some(at) => {
                    proof {
                        before.lemma_entry(at as int);
                        lemma_update_value(before, at as int);
                    }
                    let delivery: Delivery = match message {
                        Outgoing::Data(bytes) => {
                            let copy: Vec<u8> = slice_to_vec(bytes.as_slice());
                            let ghost sent = copy;
                            let delivery: Delivery = self.clients.values[at].data.put(copy);
                            assert(may_deliver(start.clients@[client].data.end(), sent, delivery));
                            delivery
                        },
                        Outgoing::Fault(error) => {
                            let fault = SessionControl::StreamError(error.clone());
                            self.clients.values[at].control.put(fault)
                        },
                    };
                    let ghost handed = self.clients.values@[at as int];
                    let ghost updated = self.clients;
                    proof {
                        assert(handed_over(start.clients@[client], handed, *message, delivery));
                        assert(updated.values@ =~= before.values@.update(at as int, handed));
                        assert(updated@ == before@.insert(client, handed));
                    }
                    note_delivery(&mut report, delivery);
                    let dropped: bool = match delivery {
                        Delivery::Delivered => false,
                        Delivery::Full => full_too,
                        Delivery::Closed => true,
                    };
                    if dropped {
                        self.clients.remove_at(at);
                    }
                    proof {
                        lemma_deliveries_next(fewer, known, client, delivery);
                        deliveries = known.insert(client, delivery);
                        assert(reports(report, fewer.insert(client), deliveries));
                        assert forall|other: u64| #[trigger]
                            given_up(fewer.insert(client), deliveries, full_too).contains(other)
                                == (given_up(fewer, known, full_too).contains(other) || (dropped
                                && other == client)) by {}
                        assert forall|other: u64| #[trigger]
                            self.clients@.contains_key(
                                other,
                            ) implies self.clients@[other].subscriptions.wf() by {
                            assert(before@.contains_key(other));
                        }
                        assert(start.handed_to(
                            *self,
                            fewer.insert(client),
                            *message,
                            full_too,
                            deliveries,
                        ));
                    }
                },
            }
            i += 1;
        }
        assert(wanted@.take(i as int) =~= wanted@);
        (report, Ghost(deliveries))
    }

    /// The message was handed once to each of these clients and to no other.
    spec fn handed_to(
        self,
        after: ClientRouter,
        wanted: Set<u64>,
        message: Outgoing,
        full_too: bool,
        deliveries: Map<u64, Delivery>,
    ) -> bool {
        &&& self.dropped(after, given_up(wanted, deliveries, full_too))
        &&& forall|client: u64| #[trigger]
            after.clients@.contains_key(client) ==> if wanted.contains(client) {
                handed_over(
                    self.clients@[client],
                    after.clients@[client],
                    message,
                    deliveries[client],
                )
            } else {
                after.clients@[client] == self.clients@[client]
            }
        &&& forall|client: u64| #[trigger]
            wanted.contains(client) ==> may_hand_over(
                self.clients@[client],
                message,
                deliveries[client],
            )
    }
}

/// Listing one more client if it is chosen.
proof fn lemma_listed_next(
    keys: Seq<u64>,
    at: int,
    chosen: Set<u64>,
    before: Seq<u64>,
    after: Seq<u64>,
)
    requires
        distinct(keys),
        0 <= at < keys.len(),
        distinct(before),
        forall|client: u64| #[trigger]
            has_key(before, client) <==> chosen.contains(client) && has_key(keys.take(at), client),
        after == (if chosen.contains(keys[at]) {
            before.push(keys[at])
        } else {
            before
        }),
    ensures
        distinct(after),
        forall|client: u64| #[trigger]
            has_key(after, client) <==> chosen.contains(client) && has_key(
                keys.take(at + 1),
                client,
            ),
{
    crate::server::lemma_fresh_client(keys, at);
    assert forall|client: u64| #[trigger]
        has_key(after, client) <==> chosen.contains(client) && has_key(
            keys.take(at + 1),
            client,
        ) by {
        lemma_take_next(keys, at, client);
        assert(has_key(before, client) <==> chosen.contains(client) && has_key(
            keys.take(at),
            client,
        ));
        if chosen.contains(keys[at]) {
            assert(after.take(before.len() as int) =~= before);
            assert(after.take(before.len() as int + 1) =~= after);
            lemma_take_next(after, before.len() as int, client);
        }
    }
    assert forall|m: int, n: int| 0 <= m < n < after.len() implies (#[trigger] after[m])@ != (
    #[trigger] after[n])@ by {
        assert(after[m] == before[m]);
        assert(has_key(before, before[m]));
        if n < before.len() {
            assert(after[n] == before[n]);
        } else {
            assert(!has_key(before, keys[at]));
        }
    }
}

/// Every chosen client is listed, and no other.
proof fn lemma_all_listed(
    clients: VecMap<u64, RegisteredClient>,
    chosen: Set<u64>,
    listed: Seq<u64>,
)
    requires
        clients.wf(),
        forall|client: u64| chosen.contains(client) ==> #[trigger] clients@.contains_key(client),
        forall|client: u64| #[trigger]
            has_key(listed, client) <==> chosen.contains(client) && has_key(
                clients.keys@.take(clients.keys@.len() as int),
                client,
            ),
    ensures
        models(listed) == chosen,
        forall|i: int|
            0 <= i < listed.len() ==> clients@.contains_key(#[trigger] listed[i]),
{
    assert(clients.keys@.take(clients.keys@.len() as int) =~= clients.keys@);
    assert forall|client: u64| #[trigger] models(listed).contains(client) == chosen.contains(
        client,
    ) by {
        assert(clients@.contains_key(client) == has_key(clients.keys@, client));
        assert(has_key(listed, client) <==> chosen.contains(client) && has_key(
            clients.keys@,
            client,
        ));
    }
    assert(models(listed) =~= chosen);
    assert forall|i: int| 0 <= i < listed.len() implies clients@.contains_key(
        #[trigger] listed[i],
    ) by {
        assert(has_key(listed, listed[i]));
        assert(models(listed).contains(listed[i]));
    }
}

/// Data reaches exactly the clients that have subscribed to it, and a fault that names
/// something exactly those that have subscribed to what it names; one that names nothing
/// reaches everyone.
pub proof fn law_faults_reach_whom_they_concern(
    router: ClientRouter,
    error: StreamError,
    client: u64,
    key: KeyModel,
)
    ensures
        router.subscribers(key).contains(client) <==> router.clients@.contains_key(client) && exists|
            held: KeyModel,
        |
            #[trigger] router.clients@[client].subscriptions@.contains(held) && held.id == key.id
                && held.stream == key.stream,
        router.concerned(error).contains(client) <==> router.clients@.contains_key(client) && ((
        error.id is None && error.stream is None) || exists|held: KeyModel|
            #[trigger] router.clients@[client].subscriptions@.contains(held) && named_by(
                error,
                held,
            )),
{
    let held = router.clients@[client].subscriptions@;
    if router.subscribers(key).contains(client) {
        let found = choose|found: KeyModel| #[trigger]
            held.contains(found) && found.routes(key.id, key.stream);
        assert(held.contains(found));
    }
    if exists|found: KeyModel| #[trigger]
        held.contains(found) && found.id == key.id && found.stream == key.stream {
        let found = choose|found: KeyModel| #[trigger]
            held.contains(found) && found.id == key.id && found.stream == key.stream;
        assert(found.routes(key.id, key.stream));
    }
}

} // verus!
