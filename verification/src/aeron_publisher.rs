//! One publication per Aeron stream, shared by every client that has chosen the stream.
//!
//! The publisher is owned by one thread. Its owner calls `publish` from the data loop and
//! `progress_registration` once per iteration, which advances publications that are not
//! ready yet without waiting for them.
use vstd::prelude::*;
use vstd::string::*;
use crate::collections::{
    distinct, has_key, index_of, lemma_models_len, lemma_update_value, models, position, SameKey,
    VecMap, VecSet,
};
use crate::protocol::{
    AeronChannel, AeronConfig, AeronConfigModel, ControlRequest, KeyModel, SubscriptionKey,
};
use crate::publication::{found, is_polled, may_find, tells, Progress, Starter, StreamPublication};
use crate::routes::{
    add_members, change_subscriptions, changed, lemma_take_next, members_want, members_want_market,
    route_position, subscribed, subscribed_market, table_wf, targets, Route, RouteModel, StreamKey,
};
use crate::text::{decimal, decimal_text};

pub use crate::publication::{PublicationState, Settlement};

verus! {

/// How long a publication may take to become ready, in nanoseconds.
pub const PUBLICATION_REGISTRATION_TIMEOUT: u128 = 5_000_000_000;

/// A publication that frames can be offered to.
pub trait PublicationOffer {
    /// The position after the frame, or a negative number that says why it was not taken.
    fn offer(&self, bytes: &[u8]) -> i64;
}

/// A publication that is being set up.
pub trait PublicationRegistration {
    type Publication: PublicationOffer;

    /// The publication, once it is ready.
    fn poll(&self) -> Result<Option<Self::Publication>, String>;
}

/// What publications are made by.
pub trait PublicationFactory {
    type Publication: PublicationOffer;

    type Registration: PublicationRegistration<Publication = Self::Publication>;

    /// `begin` may come to this outcome for this stream. A factory that says nothing about
    /// itself may come to any.
    open spec fn may_begin(
        config: AeronConfigModel,
        outcome: Result<Self::Registration, String>,
    ) -> bool {
        true
    }

    /// Starts to set up a publication.
    fn begin(&mut self, channel: &AeronChannel, stream_id: i32) -> (outcome: Result<
        Self::Registration,
        String,
    >)
        ensures
            Self::may_begin(AeronConfigModel { aeron_channel: channel@, stream_id }, outcome),
    ;
}

/// Whether a client can receive its stream yet.
#[derive(Debug, Clone, Copy, PartialEq, Eq, Structural)]
pub enum JoinStatus {
    Ready,
    Pending,
}

/// Why a client cannot join.
#[derive(Debug, PartialEq, Eq)]
pub enum JoinError {
    Disabled,
    AnotherStream { client_id: u64 },
    Registration { message: String },
}

impl JoinError {
    /// The text that a client is shown.
    pub open spec fn text(self) -> Seq<char> {
        match self {
            JoinError::Disabled => "Aeron support is disabled"@,
            JoinError::AnotherStream { client_id } => "client "@ + decimal(client_id as nat)
                + " has already selected another Aeron stream"@,
            JoinError::Registration { message } => message@,
        }
    }

    /// The text that a client is shown.
    pub fn message(&self) -> (message: String)
        ensures
            message@ == self.text(),
    {
        match self {
            JoinError::Disabled => "Aeron support is disabled".to_owned(),
            JoinError::AnotherStream { client_id } => {
                let mut text: String = "client ".to_owned();
                let digits: String = decimal_text(*client_id);
                text.append(digits.as_str());
                text.append(" has already selected another Aeron stream");
                text
            },
            JoinError::Registration { message } => message.clone(),
        }
    }
}

/// The outcome of a client's wait for its stream.
#[derive(Debug, PartialEq, Eq)]
pub struct JoinCompletion {
    pub client_id: u64,
    pub result: Result<(), String>,
}

/// What a frame is about.
#[derive(Debug, Clone, Copy, PartialEq, Eq)]
pub enum AeronRoute<'a> {
    Stream { id: i32, stream: &'a str },
    MarketStatus { market_id: i32 },
}

/// A frame to publish.
#[derive(Debug, Clone, Copy)]
pub struct AeronFrame<'a> {
    pub route: AeronRoute<'a>,
    pub bytes: &'a [u8],
}

impl<'a> AeronFrame<'a> {
    /// A frame of a stream of one market.
    pub fn new(id: i32, stream: &'a str, bytes: &'a [u8]) -> (frame: AeronFrame<'a>)
        ensures
            frame == (AeronFrame { route: AeronRoute::Stream { id, stream }, bytes }),
    {
        AeronFrame { route: AeronRoute::Stream { id, stream }, bytes }
    }

    /// A frame for everyone who follows the market.
    pub fn market_status(market_id: i32, bytes: &'a [u8]) -> (frame: AeronFrame<'a>)
        ensures
            frame == (AeronFrame { route: AeronRoute::MarketStatus { market_id }, bytes }),
    {
        AeronFrame { route: AeronRoute::MarketStatus { market_id }, bytes }
    }
}

/// What became of one frame.
#[derive(Debug, Clone, Copy, PartialEq, Eq, Structural)]
pub struct AeronPublishReport {
    pub matched: usize,
    pub offered: usize,
    pub unavailable: usize,
    pub failed: usize,
}

impl AeronPublishReport {
    /// The report on a frame that nobody wants.
    pub open spec fn empty() -> AeronPublishReport {
        AeronPublishReport { matched: 0, offered: 0, unavailable: 0, failed: 0 }
    }
}

impl Default for AeronPublishReport {
    fn default() -> (report: AeronPublishReport)
        ensures
            report == AeronPublishReport::empty(),
    {
        AeronPublishReport { matched: 0, offered: 0, unavailable: 0, failed: 0 }
    }
}

/// What a publisher has done so far.
#[derive(Debug, Clone, Copy, PartialEq, Eq, Structural)]
pub struct AeronPublisherStats {
    pub attempted: u64,
    pub offered: u64,
    pub not_connected: u64,
    pub backpressured: u64,
    pub admin_action: u64,
    pub fatal: u64,
    pub registrations: u64,
    pub registration_failures: u64,
}

impl AeronPublisherStats {
    /// Nothing was done.
    pub open spec fn zero() -> AeronPublisherStats {
        AeronPublisherStats {
            attempted: 0,
            offered: 0,
            not_connected: 0,
            backpressured: 0,
            admin_action: 0,
            fatal: 0,
            registrations: 0,
            registration_failures: 0,
        }
    }

    /// Every attempt came to exactly one outcome.
    pub open spec fn wf(self) -> bool {
        self.attempted == self.offered + self.not_connected + self.backpressured
            + self.admin_action + self.fatal
    }
}

impl Default for AeronPublisherStats {
    fn default() -> (stats: AeronPublisherStats)
        ensures
            stats == AeronPublisherStats::zero(),
    {
        AeronPublisherStats {
            attempted: 0,
            offered: 0,
            not_connected: 0,
            backpressured: 0,
            admin_action: 0,
            fatal: 0,
            registrations: 0,
            registration_failures: 0,
        }
    }
}

/// What became of a frame at one publication.
#[derive(Debug, Clone, Copy, PartialEq, Eq, Structural)]
pub enum OfferOutcome {
    Unavailable,
    Offered,
    NotConnected,
    Backpressured,
    AdminAction,
    Fatal,
}

impl OfferOutcome {
    /// What the result of an offer means.
    pub open spec fn meaning(position: i64) -> OfferOutcome {
        if position >= 0 {
            OfferOutcome::Offered
        } else if position == -1 {
            OfferOutcome::NotConnected
        } else if position == -2 {
            OfferOutcome::Backpressured
        } else if position == -3 {
            OfferOutcome::AdminAction
        } else {
            OfferOutcome::Fatal
        }
    }

    /// The frame was offered and not taken.
    pub open spec fn failed(self) -> bool {
        !(self is Unavailable) && !(self is Offered)
    }

    /// What the result of an offer means.
    pub fn of_position(position: i64) -> (outcome: OfferOutcome)
        ensures
            outcome == OfferOutcome::meaning(position),
    {
        if position >= 0 {
            OfferOutcome::Offered
        } else if position == -1 {
            OfferOutcome::NotConnected
        } else if position == -2 {
            OfferOutcome::Backpressured
        } else if position == -3 {
            OfferOutcome::AdminAction
        } else {
            OfferOutcome::Fatal
        }
    }
}

/// The clients of one stream and their common publication.
#[verifier::reject_recursive_types(F)]
pub struct StreamGroup<F: PublicationFactory> {
    pub members: VecSet<u64>,
    pub waiters: VecSet<u64>,
    pub publication: StreamPublication<F>,
}

impl<F: PublicationFactory> StreamGroup<F> {
    /// A group has members, those who wait are among them, and nobody waits for a
    /// publication that is ready.
    pub open spec fn wf(self) -> bool {
        &&& self.members.wf()
        &&& self.waiters.wf()
        &&& self.members.items@.len() > 0
        &&& self.waiters@.subset_of(self.members@)
        &&& self.publication@ is Ready ==> self.waiters@ == Set::<u64>::empty()
    }

    pub fn is_ready(&self) -> (ready: bool)
        ensures
            ready == (self.publication@ is Ready),
    {
        self.publication.is_ready()
    }
}

/// Publishes frames to the streams whose clients want them.
#[verifier::reject_recursive_types(F)]
pub struct AeronPublisher<F: PublicationFactory> {
    pub enabled: bool,
    pub factory: Option<Starter<F>>,
    pub groups: VecMap<StreamKey, StreamGroup<F>>,
    pub client_groups: VecMap<u64, StreamKey>,
    pub subscriptions: VecMap<u64, VecSet<SubscriptionKey>>,
    pub routes: VecMap<Route, Vec<StreamKey>>,
    pub market_groups: VecMap<i32, Vec<StreamKey>>,
    pub stats: AeronPublisherStats,
    pub work_pending: bool,
}

/// Every client belongs to the one group that lists it, and has its subscriptions.
pub open spec fn membership<F: PublicationFactory>(
    groups: Map<AeronConfigModel, StreamGroup<F>>,
    client_groups: Map<u64, StreamKey>,
    subscriptions: Map<u64, VecSet<SubscriptionKey>>,
) -> bool {
    &&& forall|key: AeronConfigModel| #[trigger] groups.contains_key(key) ==> groups[key].wf()
    &&& forall|client: u64| #[trigger]
        client_groups.contains_key(client) ==> groups.contains_key(client_groups[client]@)
            && groups[client_groups[client]@].members@.contains(client)
    &&& forall|key: AeronConfigModel, client: u64|
        groups.contains_key(key) && #[trigger] groups[key].members@.contains(client)
            ==> client_groups.contains_key(client) && client_groups[client]@ == key
    &&& forall|client: u64| #[trigger]
        subscriptions.contains_key(client) <==> client_groups.contains_key(client)
    &&& forall|client: u64| #[trigger]
        subscriptions.contains_key(client) ==> subscriptions[client].wf()
}

/// Some group waits for its publication.
pub open spec fn some_unready<F: PublicationFactory>(
    groups: Map<AeronConfigModel, StreamGroup<F>>,
) -> bool {
    exists|key: AeronConfigModel| #[trigger]
        groups.contains_key(key) && !(groups[key].publication@ is Ready)
}

impl<F: PublicationFactory> AeronPublisher<F> {
    /// The tables name each stream once for exactly what its members want.
    pub open spec fn routed(self) -> bool {
        &&& table_wf(self.routes)
        &&& table_wf(self.market_groups)
        &&& forall|route: RouteModel, key: AeronConfigModel| #[trigger]
            targets(self.routes, route, key) <==> self.wants(key, route)
        &&& forall|market: i32, key: AeronConfigModel| #[trigger]
            targets(self.market_groups, market, key) <==> self.wants_market(key, market)
    }

    /// A member of the stream's group has subscribed to the route.
    pub open spec fn wants(self, key: AeronConfigModel, route: RouteModel) -> bool {
        self.groups@.contains_key(key) && members_want(
            self.groups@[key].members@,
            self.subscriptions@,
            route,
        )
    }

    /// A member of the stream's group has subscribed to something of the market.
    pub open spec fn wants_market(self, key: AeronConfigModel, market: i32) -> bool {
        self.groups@.contains_key(key) && members_want_market(
            self.groups@[key].members@,
            self.subscriptions@,
            market,
        )
    }

    /// Some stream wants frames of the route.
    pub open spec fn is_wanted(self, route: RouteModel) -> bool {
        exists|key: AeronConfigModel| #[trigger] self.wants(key, route)
    }

    /// Some stream wants the status of the market.
    pub open spec fn is_market_wanted(self, market: i32) -> bool {
        exists|key: AeronConfigModel| #[trigger] self.wants_market(key, market)
    }

    /// The clients, their groups and the counters agree with each other.
    pub open spec fn consistent(self) -> bool {
        &&& self.groups.wf()
        &&& self.client_groups.wf()
        &&& self.subscriptions.wf()
        &&& membership(self.groups@, self.client_groups@, self.subscriptions@)
        &&& self.enabled ==> self.factory is Some
        &&& !self.enabled ==> self.groups.keys@.len() == 0
        &&& self.stats.wf()
    }

    /// What holds of a publisher between calls.
    pub open spec fn wf(self) -> bool {
        &&& self.consistent()
        &&& self.routed()
        &&& self.work_pending == some_unready(self.groups@)
    }

    /// Every stream that the factory was asked to start, in order.
    pub open spec fn started(self) -> Seq<AeronConfigModel> {
        match self.factory {
            Some(factory) => factory.started(),
            None => Seq::empty(),
        }
    }

    /// The streams that a frame goes to.
    pub open spec fn destinations(self, route: AeronRoute) -> Set<AeronConfigModel> {
        match route {
            AeronRoute::Stream { id, stream } => Set::new(
                |key: AeronConfigModel| self.wants(key, RouteModel { id, stream: stream@ }),
            ),
            AeronRoute::MarketStatus { market_id } => Set::new(
                |key: AeronConfigModel| self.wants_market(key, market_id),
            ),
        }
    }

    /// A publisher without clients.
    pub fn from_factory(enabled: bool, factory: Option<F>) -> (publisher: AeronPublisher<F>)
        requires
            enabled ==> factory is Some,
        ensures
            publisher.wf(),
            publisher.enabled == enabled,
            publisher.factory is Some <==> factory is Some,
            factory is Some ==> publisher.factory->0.end() == factory->0,
            publisher.started() == Seq::<AeronConfigModel>::empty(),
            publisher.groups@ == Map::<AeronConfigModel, StreamGroup<F>>::empty(),
            publisher.client_groups@ == Map::<u64, StreamKey>::empty(),
            publisher.stats == AeronPublisherStats::zero(),
    {
        let starter: Option<Starter<F>> = match factory {
            Some(factory) => Some(Starter::new(factory)),
            None => None,
        };
        AeronPublisher {
            enabled,
            factory: starter,
            groups: VecMap::new(),
            client_groups: VecMap::new(),
            subscriptions: VecMap::new(),
            routes: VecMap::new(),
            market_groups: VecMap::new(),
            stats: AeronPublisherStats::default(),
            work_pending: false,
        }
    }

    /// An enabled publisher without clients.
    pub fn with_factory(factory: F) -> (publisher: AeronPublisher<F>)
        ensures
            publisher.wf(),
            publisher.enabled,
            publisher.factory is Some,
            publisher.factory->0.end() == factory,
            publisher.started() == Seq::<AeronConfigModel>::empty(),
            publisher.groups@ == Map::<AeronConfigModel, StreamGroup<F>>::empty(),
            publisher.client_groups@ == Map::<u64, StreamKey>::empty(),
            publisher.stats == AeronPublisherStats::zero(),
    {
        AeronPublisher::from_factory(true, Some(factory))
    }

    pub fn enabled(&self) -> (enabled: bool)
        ensures
            enabled == self.enabled,
    {
        self.enabled
    }

    pub fn stats(&self) -> (stats: AeronPublisherStats)
        ensures
            stats == self.stats,
    {
        self.stats
    }

    pub fn has_client(&self, client_id: u64) -> (held: bool)
        requires
            self.wf(),
        ensures
            held == self.client_groups@.contains_key(client_id),
    {
        self.client_groups.contains_key(&client_id)
    }

    pub fn group_count(&self) -> (count: usize)
        requires
            self.wf(),
        ensures
            count == self.groups@.len(),
    {
        self.groups.len()
    }

    /// Whether at least one group subscribes to this route, be its publication ready or
    /// not, so that callers need not encode frames that nobody wants.
    pub fn has_route(&self, id: i32, stream: &str) -> (held: bool)
        requires
            self.wf(),
        ensures
            held == exists|key: AeronConfigModel| #[trigger]
                self.wants(key, RouteModel { id, stream: stream@ }),
            held == self.is_wanted(RouteModel { id, stream: stream@ }),
    {
        let ghost route = RouteModel { id, stream: stream@ };
        match route_position(&self.routes.keys, id, stream) {
            Some(at) => {
                proof {
                    self.routes.lemma_entry(at as int);
                    let key = self.routes@[route]@[0]@;
                    assert(has_key(self.routes@[route]@, key));
                    assert(targets(self.routes, route, key));
                    assert(self.wants(key, route));
                }
                true
            },
            None => {
                assert forall|key: AeronConfigModel| !self.wants(key, route) by {
                    assert(!targets(self.routes, route, key));
                }
                false
            },
        }
    }

    /// Whether the status of this market has at least one stream to go to.
    pub fn has_market_route(&self, id: i32) -> (held: bool)
        requires
            self.wf(),
        ensures
            held == exists|key: AeronConfigModel| #[trigger] self.wants_market(key, id),
            held == self.is_market_wanted(id),
    {
        match self.market_groups.get(&id) {
            Some(keys) => {
                proof {
                    let key = self.market_groups@[id]@[0]@;
                    assert(has_key(self.market_groups@[id]@, key));
                    assert(targets(self.market_groups, id, key));
                    assert(self.wants_market(key, id));
                }
                true
            },
            None => {
                assert forall|key: AeronConfigModel| !self.wants_market(key, id) by {
                    assert(!targets(self.market_groups, id, key));
                }
                false
            },
        }
    }

    /// Everything but the tables is as it was.
    pub open spec fn same_but_routes(self, other: AeronPublisher<F>) -> bool {
        &&& self.enabled == other.enabled
        &&& self.factory == other.factory
        &&& self.groups == other.groups
        &&& self.client_groups == other.client_groups
        &&& self.subscriptions == other.subscriptions
        &&& self.stats == other.stats
        &&& self.work_pending == other.work_pending
    }

    /// Fills the tables anew.
    fn rebuild_routes(&mut self)
        requires
            old(self).consistent(),
        ensures
            final(self).consistent(),
            final(self).routed(),
            final(self).same_but_routes(*old(self)),
    {
        let mut routes: VecMap<Route, Vec<StreamKey>> = VecMap::new();
        let mut markets: VecMap<i32, Vec<StreamKey>> = VecMap::new();
        let mut i: usize = 0;
        while i < self.groups.keys.len()
            invariant
                *self == *old(self),
                self.consistent(),
                i <= self.groups.keys@.len(),
                table_wf(routes),
                table_wf(markets),
                forall|route: RouteModel, key: AeronConfigModel| #[trigger]
                    targets(routes, route, key) <==> self.wants(key, route) && has_key(
                        self.groups.keys@.take(i as int),
                        key,
                    ),
                forall|market: i32, key: AeronConfigModel| #[trigger]
                    targets(markets, market, key) <==> self.wants_market(key, market) && has_key(
                        self.groups.keys@.take(i as int),
                        key,
                    ),
            decreases self.groups.keys@.len() - i,
        {
            let ghost routes_before = routes;
            let ghost markets_before = markets;
            let target: &StreamKey = &self.groups.keys[i];
            add_members(
                &mut routes,
                &mut markets,
                target,
                &self.groups.values[i].members,
                &self.subscriptions,
            );
            proof {
                let keys = self.groups.keys@;
                let group = self.groups.values@[i as int];
                self.groups.lemma_entry(i as int);
                assert forall|key: AeronConfigModel| #[trigger]
                    has_key(keys.take(i + 1), key) <==> has_key(keys.take(i as int), key) || key
                        == target@ by {
                    lemma_take_next(keys, i as int, key);
                }
                assert forall|route: RouteModel, key: AeronConfigModel| #[trigger]
                    targets(routes, route, key) <==> self.wants(key, route) && has_key(
                        keys.take(i + 1),
                        key,
                    ) by {
                    assert(targets(routes, route, key) <==> targets(routes_before, route, key) || (
                    key == target@ && members_want(group.members@, self.subscriptions@, route)));
                    assert(has_key(keys.take(i + 1), key) <==> has_key(keys.take(i as int), key)
                        || key == target@);
                }
                assert forall|market: i32, key: AeronConfigModel| #[trigger]
                    targets(markets, market, key) <==> self.wants_market(key, market) && has_key(
                        keys.take(i + 1),
                        key,
                    ) by {
                    assert(targets(markets, market, key) <==> targets(markets_before, market, key)
                        || (key == target@ && members_want_market(
                        group.members@,
                        self.subscriptions@,
                        market,
                    )));
                    assert(has_key(keys.take(i + 1), key) <==> has_key(keys.take(i as int), key)
                        || key == target@);
                }
            }
            i += 1;
        }
        assert(self.groups.keys@.take(i as int) =~= self.groups.keys@);
        self.routes = routes;
        self.market_groups = markets;
        proof {
            assert(self.groups == old(self).groups);
            assert forall|route: RouteModel, key: AeronConfigModel| #[trigger]
                targets(self.routes, route, key) <==> self.wants(key, route) by {
                assert(self.wants(key, route) == old(self).wants(key, route));
            }
            assert forall|market: i32, key: AeronConfigModel| #[trigger]
                targets(self.market_groups, market, key) <==> self.wants_market(key, market) by {
                assert(self.wants_market(key, market) == old(self).wants_market(key, market));
            }
        }
    }
}


/// Whether some group waits for its publication.
fn any_unready<F: PublicationFactory>(groups: &VecMap<StreamKey, StreamGroup<F>>) -> (unready: bool)
    requires
        groups.wf(),
    ensures
        unready == some_unready(groups@),
{
    let mut i: usize = 0;
    while i < groups.keys.len()
        invariant
            groups.wf(),
            i <= groups.keys@.len(),
            forall|j: int| 0 <= j < i ==> (#[trigger] groups.values@[j]).publication@ is Ready,
        decreases groups.keys@.len() - i,
    {
        proof {
            groups.lemma_entry(i as int);
        }
        if !groups.values[i].is_ready() {
            assert(groups@.contains_key(groups.keys@[i as int]@));
            return true;
        }
        i += 1;
    }
    proof {
        assert forall|key: AeronConfigModel| #[trigger]
            groups@.contains_key(key) implies groups@[key].publication@ is Ready by {
            let at = groups.lemma_position(key);
            assert(groups.values@[at].publication@ is Ready);
        }
    }
    false
}

impl<F: PublicationFactory> AeronPublisher<F> {
    /// Clients, subscriptions and counters after a client has joined a stream whose group
    /// is now `group`.
    pub open spec fn joined(
        self,
        after: AeronPublisher<F>,
        client_id: u64,
        key: AeronConfigModel,
        group: StreamGroup<F>,
    ) -> bool {
        &&& after.enabled == self.enabled
        &&& after.stats == self.stats
        &&& after.groups@ == self.groups@.insert(key, group)
        &&& after.client_groups@.remove(client_id) == self.client_groups@
        &&& after.client_groups@.contains_key(client_id)
        &&& after.client_groups@[client_id]@ == key
        &&& after.subscriptions@.remove(client_id) == self.subscriptions@
        &&& after.subscriptions@.contains_key(client_id)
        &&& after.subscriptions@[client_id]@ == Set::<KeyModel>::empty()
    }

    /// Enters a client that has not joined before under the stream of its group.
    fn enter_client(&mut self, client_id: u64, key: StreamKey)
        requires
            old(self).client_groups.wf(),
            old(self).subscriptions.wf(),
            !old(self).client_groups@.contains_key(client_id),
            !old(self).subscriptions@.contains_key(client_id),
        ensures
            final(self).client_groups.wf(),
            final(self).subscriptions.wf(),
            final(self).client_groups@ == old(self).client_groups@.insert(client_id, key),
            final(self).subscriptions@.contains_key(client_id),
            final(self).subscriptions@ == old(self).subscriptions@.insert(
                client_id,
                final(self).subscriptions@[client_id],
            ),
            final(self).subscriptions@[client_id].wf(),
            final(self).subscriptions@[client_id]@ == Set::<KeyModel>::empty(),
            final(self).enabled == old(self).enabled,
            final(self).factory == old(self).factory,
            final(self).groups == old(self).groups,
            final(self).stats == old(self).stats,
            final(self).work_pending == old(self).work_pending,
    {
        self.client_groups.insert(client_id, key);
        self.subscriptions.insert(client_id, VecSet::new());
    }

    /// Opens the group of a stream for its first client, while the publication is being
    /// set up.
    pub fn start_group(
        &mut self,
        client_id: u64,
        config: AeronConfig,
        publication: StreamPublication<F>,
    )
        requires
            old(self).wf(),
            old(self).enabled,
            publication@ is Registering,
            !old(self).client_groups@.contains_key(client_id),
            !old(self).groups@.contains_key(config@),
        ensures
            final(self).wf(),
            final(self).factory == old(self).factory,
            final(self).groups@.contains_key(config@),
            old(self).joined(*final(self), client_id, config@, final(self).groups@[config@]),
            final(self).groups@[config@].members@ == set![client_id],
            final(self).groups@[config@].waiters@ == set![client_id],
            final(self).groups@[config@].publication == publication,
    {
        let key: StreamKey = StreamKey::of_config(config);
        let members: VecSet<u64> = VecSet::of(client_id);
        let waiters: VecSet<u64> = VecSet::of(client_id);
        let group = StreamGroup { members, waiters, publication };
        assert(members@ == set![client_id]);
        assert(group.wf()) by {
            assert(members@.contains(client_id));
            assert(has_key(members.items@, client_id));
        }
        self.groups.insert(key.clone(), group);
        self.enter_client(client_id, key);
        self.work_pending = true;
        proof {
            assert(self.groups@.contains_key(config@));
            assert(membership(self.groups@, self.client_groups@, self.subscriptions@));
            assert(self.client_groups@.remove(client_id) =~= old(self).client_groups@);
            assert(self.subscriptions@.remove(client_id) =~= old(self).subscriptions@);
        }
        self.rebuild_routes();
    }

    /// What comes of letting a client join a stream. The factory is asked once to start a
    /// stream that has no group, and for nothing otherwise.
    pub open spec fn client_added(
        self,
        after: AeronPublisher<F>,
        client_id: u64,
        config: AeronConfigModel,
        now: u128,
        result: Result<JoinStatus, JoinError>,
    ) -> bool {
        if !self.enabled {
            after == self && result == Err::<JoinStatus, _>(JoinError::Disabled)
        } else if self.client_groups@.contains_key(client_id) {
            after == self && result == (if self.client_groups@[client_id]@ != config {
                Err(JoinError::AnotherStream { client_id })
            } else if self.groups@[config].publication@ is Ready {
                Ok(JoinStatus::Ready)
            } else {
                Ok(JoinStatus::Pending)
            })
        } else if self.groups@.contains_key(config) {
            let before = self.groups@[config];
            let group = after.groups@[config];
            &&& self.joined(after, client_id, config, group)
            &&& after.factory == self.factory
            &&& group.publication == before.publication
            &&& group.members@ == before.members@.insert(client_id)
            &&& group.waiters@ == (if before.publication@ is Ready {
                before.waiters@
            } else {
                before.waiters@.insert(client_id)
            })
            &&& result == Ok::<_, JoinError>(
                if before.publication@ is Ready {
                    JoinStatus::Ready
                } else {
                    JoinStatus::Pending
                },
            )
        } else {
            &&& after.started() == self.started().push(config)
            &&& match result {
                Ok(status) => {
                    let group = after.groups@[config];
                    &&& status == JoinStatus::Pending
                    &&& self.joined(after, client_id, config, group)
                    &&& group.members@ == set![client_id]
                    &&& group.waiters@ == set![client_id]
                    &&& group.publication@ matches PublicationState::Registering {
                        registration,
                        started_at,
                    }
                    &&& started_at == now
                    &&& group.publication.offers() == Seq::<(Seq<u8>, i64)>::empty()
                    &&& group.publication.polls() == 0
                    &&& F::may_begin(config, Ok(registration))
                },
                Err(error) => {
                    &&& error matches JoinError::Registration { message }
                    &&& F::may_begin(config, Err(message))
                    &&& after == (AeronPublisher { factory: after.factory, ..self })
                },
            }
        }
    }

    /// Lets a client join a stream. The first client of a stream starts its publication;
    /// the others share it. A client that asks again for its own stream is told how far
    /// it is, and one that asks for another stream is refused.
    pub fn add_client(&mut self, client_id: u64, config: AeronConfig, now: u128) -> (result: Result<
        JoinStatus,
        JoinError,
    >)
        requires
            old(self).wf(),
        ensures
            final(self).wf(),
            old(self).client_added(*final(self), client_id, config@, now, result),
    {
        if !self.enabled {
            return Err(JoinError::Disabled);
        }
        let key: StreamKey = StreamKey {
            channel: config.aeron_channel.clone(),
            stream_id: config.stream_id,
        };
        assert(key@ == config@);
        if let Some(previous) = self.client_groups.get(&client_id) {
            if !previous.same(&key) {
                return Err(JoinError::AnotherStream { client_id });
            }
            return match self.groups.get(&key) {
                Some(group) => if group.is_ready() {
                    Ok(JoinStatus::Ready)
                } else {
                    Ok(JoinStatus::Pending)
                },
                None => Ok(JoinStatus::Pending),
            };
        }
        match position(&self.groups.keys, &key) {
            Some(at) => {
                let ghost before = self.groups;
                proof {
                    before.lemma_entry(at as int);
                    lemma_update_value(before, at as int);
                }
                let ready: bool = self.groups.values[at].is_ready();
                self.groups.values[at].members.insert(client_id);
                if !ready {
                    self.groups.values[at].waiters.insert(client_id);
                }
                let ghost group = self.groups.values@[at as int];
                proof {
                    assert(self.groups.values@ =~= before.values@.update(at as int, group));
                    assert(self.groups@ == before@.insert(config@, group));
                    assert(group.members@.contains(client_id));
                    assert(has_key(group.members.items@, client_id));
                    assert(group.wf());
                }
                self.enter_client(client_id, key);
                proof {
                    assert(membership(self.groups@, self.client_groups@, self.subscriptions@));
                    assert(self.client_groups@.remove(client_id) =~= old(self).client_groups@);
                    assert(self.subscriptions@.remove(client_id) =~= old(self).subscriptions@);
                    assert(some_unready(self.groups@) == some_unready(before@)) by {
                        if some_unready(before@) {
                            let other = choose|other: AeronConfigModel| #[trigger]
                                before@.contains_key(other) && !(
                                before@[other].publication@ is Ready);
                            assert(self.groups@.contains_key(other));
                        }
                        if some_unready(self.groups@) {
                            let other = choose|other: AeronConfigModel| #[trigger]
                                self.groups@.contains_key(other) && !(
                                self.groups@[other].publication@ is Ready);
                            assert(before@.contains_key(other));
                        }
                    }
                }
                self.rebuild_routes();
                if ready {
                    Ok(JoinStatus::Ready)
                } else {
                    Ok(JoinStatus::Pending)
                }
            },
            None => {
                let outcome: Result<StreamPublication<F>, String> = match &mut self.factory {
                    Some(factory) => factory.begin(&config.aeron_channel, config.stream_id, now),
                    None => Err("".to_owned()),
                };
                match outcome {
                    Ok(publication) => {
                        self.start_group(client_id, config, publication);
                        Ok(JoinStatus::Pending)
                    },
                    Err(message) => Err(JoinError::Registration { message }),
                }
            },
        }
    }

    /// Changes the subscriptions of a client as a request asks. Clients that have not
    /// joined have none.
    pub fn update_subscriptions(&mut self, client_id: u64, request: &ControlRequest) -> (result:
        Result<(), JoinError>)
        requires
            old(self).wf(),
        ensures
            result is Ok,
            final(self).wf(),
            old(self).keeps_clients(*final(self)),
            !old(self).client_groups@.contains_key(client_id) ==> *final(self) == *old(self),
            old(self).client_groups@.contains_key(client_id) ==> {
                &&& final(self).subscriptions@ == old(self).subscriptions@.insert(
                    client_id,
                    final(self).subscriptions@[client_id],
                )
                &&& final(self).subscriptions@[client_id]@ == changed(
                    old(self).subscriptions@[client_id]@,
                    request@,
                )
            },
            final(self).enabled == old(self).enabled,
            final(self).factory == old(self).factory,
            final(self).groups == old(self).groups,
            final(self).client_groups == old(self).client_groups,
            final(self).stats == old(self).stats,
    {
        if !self.client_groups.contains_key(&client_id) {
            return Ok(());
        }
        match position(&self.subscriptions.keys, &client_id) {
            Some(at) => {
                let ghost before = self.subscriptions;
                proof {
                    before.lemma_entry(at as int);
                    lemma_update_value(before, at as int);
                }
                change_subscriptions(&mut self.subscriptions.values[at], request);
                let ghost now = self.subscriptions.values@[at as int];
                proof {
                    assert(self.subscriptions.values@ =~= before.values@.update(at as int, now));
                    assert(self.subscriptions@ == before@.insert(client_id, now));
                    assert(membership(self.groups@, self.client_groups@, self.subscriptions@));
                }
            },
            None => {
                assert(self.subscriptions@.contains_key(client_id));
            },
        }
        self.rebuild_routes();
        Ok(())
    }

    /// What comes of letting a client go.
    pub open spec fn client_removed(self, after: AeronPublisher<F>, client_id: u64) -> bool {
        if !self.client_groups@.contains_key(client_id) {
            after == self
        } else {
            let key = self.client_groups@[client_id]@;
            let before = self.groups@[key];
            let group = after.groups@[key];
            &&& after.client_groups@ == self.client_groups@.remove(client_id)
            &&& after.subscriptions@ == self.subscriptions@.remove(client_id)
            &&& after.groups@.remove(key) == self.groups@.remove(key)
            &&& after.groups@.contains_key(key) <==> before.members@ != set![client_id]
            &&& after.groups@.contains_key(key) ==> group.publication == before.publication
                && group.members@ == before.members@.remove(client_id) && group.waiters@
                == before.waiters@.remove(client_id)
            &&& after.enabled == self.enabled
            &&& after.factory == self.factory
            &&& after.stats == self.stats
        }
    }

    /// Lets a client go. The last one takes the publication of its stream with it.
    pub fn remove_client(&mut self, client_id: u64)
        requires
            old(self).wf(),
        ensures
            final(self).wf(),
            old(self).client_removed(*final(self), client_id),
    {
        if !self.client_groups.contains_key(&client_id) {
            return;
        }
        self.subscriptions.remove(&client_id);
        let removed: Option<StreamKey> = self.client_groups.remove(&client_id);
        if let Some(key) = removed {
            let ghost before = self.groups;
            match position(&self.groups.keys, &key) {
                Some(at) => {
                    proof {
                        before.lemma_entry(at as int);
                        lemma_update_value(before, at as int);
                    }
                    self.groups.values[at].members.remove(&client_id);
                    self.groups.values[at].waiters.remove(&client_id);
                    let ghost group = self.groups.values@[at as int];
                    proof {
                        assert(self.groups.values@ =~= before.values@.update(at as int, group));
                        assert(self.groups@ == before@.insert(key@, group));
                        let members = before@[key@].members@;
                        if group.members.items@.len() == 0 {
                            assert(group.members@ =~= Set::<u64>::empty());
                            assert(members =~= members.remove(client_id).insert(client_id));
                            assert(members =~= set![client_id]);
                        } else {
                            let other = group.members.items@[0];
                            assert(has_key(group.members.items@, other));
                            assert(group.members@.contains(other));
                            assert(members != set![client_id]);
                            assert(before@.contains_key(key@));
                            if group.publication@ is Ready {
                                assert(group.waiters@ =~= Set::<u64>::empty());
                            }
                            assert(group.wf());
                        }
                    }
                    if self.groups.values[at].members.items.len() == 0 {
                        self.groups.remove(&key);
                        assert(self.groups@ =~= before@.remove(key@));
                    }
                    assert(self.groups@.remove(key@) =~= before@.remove(key@));
                },
                None => {
                    assert(self.groups@.contains_key(key@));
                },
            }
            self.work_pending = any_unready(&self.groups);
            proof {
                assert(membership(self.groups@, self.client_groups@, self.subscriptions@));
            }
            self.rebuild_routes();
        }
    }
}

/// The destinations that came to this outcome.
pub open spec fn alike(
    destinations: Set<AeronConfigModel>,
    outcomes: Map<AeronConfigModel, OfferOutcome>,
    outcome: OfferOutcome,
) -> Set<AeronConfigModel> {
    destinations.filter(|key: AeronConfigModel| outcomes[key] == outcome)
}

/// How many destinations came to this outcome.
pub open spec fn tally(
    destinations: Set<AeronConfigModel>,
    outcomes: Map<AeronConfigModel, OfferOutcome>,
    outcome: OfferOutcome,
) -> nat {
    alike(destinations, outcomes, outcome).len()
}

/// The report counts every destination once, by its outcome.
pub open spec fn reported(
    report: AeronPublishReport,
    destinations: Set<AeronConfigModel>,
    outcomes: Map<AeronConfigModel, OfferOutcome>,
) -> bool {
    &&& report.matched == destinations.len()
    &&& report.offered == tally(destinations, outcomes, OfferOutcome::Offered)
    &&& report.unavailable == tally(destinations, outcomes, OfferOutcome::Unavailable)
    &&& report.failed == tally(destinations, outcomes, OfferOutcome::NotConnected) + tally(
        destinations,
        outcomes,
        OfferOutcome::Backpressured,
    ) + tally(destinations, outcomes, OfferOutcome::AdminAction) + tally(
        destinations,
        outcomes,
        OfferOutcome::Fatal,
    )
    &&& report.matched == report.offered + report.unavailable + report.failed
}

/// The counters have grown by every destination that was offered the frame.
pub open spec fn counted(
    before: AeronPublisherStats,
    after: AeronPublisherStats,
    destinations: Set<AeronConfigModel>,
    outcomes: Map<AeronConfigModel, OfferOutcome>,
) -> bool {
    &&& after.wf()
    &&& after.offered == before.offered + tally(destinations, outcomes, OfferOutcome::Offered)
    &&& after.not_connected == before.not_connected + tally(
        destinations,
        outcomes,
        OfferOutcome::NotConnected,
    )
    &&& after.backpressured == before.backpressured + tally(
        destinations,
        outcomes,
        OfferOutcome::Backpressured,
    )
    &&& after.admin_action == before.admin_action + tally(
        destinations,
        outcomes,
        OfferOutcome::AdminAction,
    )
    &&& after.fatal == before.fatal + tally(destinations, outcomes, OfferOutcome::Fatal)
    &&& after.registrations == before.registrations
    &&& after.registration_failures == before.registration_failures
}

/// A frame has come to this outcome at a group: it was offered once if the publication was
/// ready and not at all otherwise, and only a publication that has failed for good is given
/// up.
pub open spec fn offered_to<F: PublicationFactory>(
    before: StreamGroup<F>,
    after: StreamGroup<F>,
    bytes: &[u8],
    outcome: OfferOutcome,
) -> bool {
    &&& after.members == before.members
    &&& after.waiters == before.waiters
    &&& match before.publication@ {
        PublicationState::Ready(publication) => exists|position: i64|
            {
                &&& call_ensures(F::Publication::offer, (&publication, bytes), position)
                &&& outcome == #[trigger] OfferOutcome::meaning(position)
                &&& after.publication.offers() == before.publication.offers().push(
                    (bytes@, position),
                )
                &&& after.publication.polls() == before.publication.polls()
                &&& after.publication@ == (if outcome is Fatal {
                    PublicationState::Unavailable
                } else {
                    before.publication@
                })
            },
        _ => outcome == OfferOutcome::Unavailable && after.publication == before.publication,
    }
}

/// A frame has been offered once to each destination and to no other group.
pub open spec fn all_offered<F: PublicationFactory>(
    before: Map<AeronConfigModel, StreamGroup<F>>,
    after: Map<AeronConfigModel, StreamGroup<F>>,
    destinations: Set<AeronConfigModel>,
    bytes: &[u8],
    outcomes: Map<AeronConfigModel, OfferOutcome>,
) -> bool {
    &&& forall|key: AeronConfigModel| #[trigger]
        after.contains_key(key) <==> before.contains_key(key)
    &&& forall|key: AeronConfigModel| #[trigger]
        after.contains_key(key) ==> if destinations.contains(key) {
            offered_to(before[key], after[key], bytes, outcomes[key])
        } else {
            after[key] == before[key]
        }
}

proof fn lemma_tally_next(
    destinations: Set<AeronConfigModel>,
    outcomes: Map<AeronConfigModel, OfferOutcome>,
    key: AeronConfigModel,
    outcome: OfferOutcome,
)
    requires
        destinations.finite(),
        !destinations.contains(key),
    ensures
        destinations.insert(key).len() == destinations.len() + 1,
        forall|other: OfferOutcome| #[trigger]
            tally(destinations.insert(key), outcomes.insert(key, outcome), other) == tally(
                destinations,
                outcomes,
                other,
            ) + if other == outcome {
                1nat
            } else {
                0nat
            },
{
    assert forall|other: OfferOutcome| #[trigger]
        tally(destinations.insert(key), outcomes.insert(key, outcome), other) == tally(
            destinations,
            outcomes,
            other,
        ) + if other == outcome {
            1nat
        } else {
            0nat
        } by {
        let fewer = alike(destinations, outcomes, other);
        let more = alike(destinations.insert(key), outcomes.insert(key, outcome), other);
        assert(fewer.finite()) by {
            vstd::set_lib::lemma_len_subset(fewer, destinations);
        }
        if other == outcome {
            assert(more =~= fewer.insert(key));
        } else {
            assert(more =~= fewer);
        }
    }
}

proof fn lemma_tally_positive(
    destinations: Set<AeronConfigModel>,
    outcomes: Map<AeronConfigModel, OfferOutcome>,
    key: AeronConfigModel,
    outcome: OfferOutcome,
)
    requires
        destinations.finite(),
        destinations.contains(key),
        outcomes[key] == outcome,
    ensures
        tally(destinations, outcomes, outcome) > 0,
{
    let others = alike(destinations, outcomes, outcome);
    vstd::set_lib::lemma_len_subset(others, destinations);
    assert(others.contains(key));
    assert(others.remove(key).len() == others.len() - 1);
}

/// Enters the outcome at one destination.
fn note_outcome(
    report: &mut AeronPublishReport,
    stats: &mut AeronPublisherStats,
    outcome: OfferOutcome,
)
    requires
        old(stats).wf(),
        old(stats).attempted < u64::MAX,
        old(report).matched < usize::MAX,
        old(report).matched == old(report).offered + old(report).unavailable + old(report).failed,
    ensures
        final(stats).wf(),
        final(report).matched == old(report).matched + 1,
        final(report).matched == final(report).offered + final(report).unavailable
            + final(report).failed,
        final(report).offered == old(report).offered + (if outcome is Offered {
            1int
        } else {
            0
        }),
        final(report).unavailable == old(report).unavailable + (if outcome is Unavailable {
            1int
        } else {
            0
        }),
        final(stats).attempted == old(stats).attempted + (if outcome is Unavailable {
            0int
        } else {
            1
        }),
        final(stats).offered == old(stats).offered + (if outcome is Offered {
            1int
        } else {
            0
        }),
        final(stats).not_connected == old(stats).not_connected + (if outcome is NotConnected {
            1int
        } else {
            0
        }),
        final(stats).backpressured == old(stats).backpressured + (if outcome is Backpressured {
            1int
        } else {
            0
        }),
        final(stats).admin_action == old(stats).admin_action + (if outcome is AdminAction {
            1int
        } else {
            0
        }),
        final(stats).fatal == old(stats).fatal + (if outcome is Fatal {
            1int
        } else {
            0
        }),
        final(stats).registrations == old(stats).registrations,
        final(stats).registration_failures == old(stats).registration_failures,
{
    report.matched += 1;
    match outcome {
        OfferOutcome::Unavailable => {
            report.unavailable += 1;
            return;
        },
        OfferOutcome::Offered => {
            report.offered += 1;
            stats.offered += 1;
        },
        OfferOutcome::NotConnected => {
            report.failed += 1;
            stats.not_connected += 1;
        },
        OfferOutcome::Backpressured => {
            report.failed += 1;
            stats.backpressured += 1;
        },
        OfferOutcome::AdminAction => {
            report.failed += 1;
            stats.admin_action += 1;
        },
        OfferOutcome::Fatal => {
            report.failed += 1;
            stats.fatal += 1;
        },
    }
    stats.attempted += 1;
}

/// Offers a frame to a group, once.
fn offer_to_group<F: PublicationFactory>(group: &mut StreamGroup<F>, bytes: &[u8]) -> (outcome:
    OfferOutcome)
    ensures
        offered_to(*old(group), *final(group), bytes, outcome),
{
    match group.publication.offer(bytes) {
        Some(position) => {
            let outcome: OfferOutcome = OfferOutcome::of_position(position);
            if matches!(outcome, OfferOutcome::Fatal) {
                group.publication.lose();
            }
            assert(outcome == OfferOutcome::meaning(position));
            outcome
        },
        None => OfferOutcome::Unavailable,
    }
}

/// Offers a frame to several groups, once to each.
fn offer_to_all<F: PublicationFactory>(
    groups: &mut VecMap<StreamKey, StreamGroup<F>>,
    stats: &mut AeronPublisherStats,
    keys: &Vec<StreamKey>,
    bytes: &[u8],
) -> (done: (AeronPublishReport, Ghost<Map<AeronConfigModel, OfferOutcome>>))
    requires
        old(groups).wf(),
        old(stats).wf(),
        distinct(keys@),
        forall|i: int|
            0 <= i < keys@.len() ==> old(groups)@.contains_key((#[trigger] keys@[i])@),
        old(stats).attempted + keys@.len() <= u64::MAX,
    ensures
        final(groups).wf(),
        final(groups).keys@ == old(groups).keys@,
        all_offered(old(groups)@, final(groups)@, models(keys@), bytes, done.1@),
        reported(done.0, models(keys@), done.1@),
        counted(*old(stats), *final(stats), models(keys@), done.1@),
        final(stats).attempted == old(stats).attempted + done.0.offered + done.0.failed,
{
    let mut report: AeronPublishReport = AeronPublishReport::default();
    let ghost mut outcomes: Map<AeronConfigModel, OfferOutcome> = Map::empty();
    let ghost before = groups@;
    let mut i: usize = 0;
    proof {
        assert(models(keys@.take(0)) =~= Set::<AeronConfigModel>::empty());
        assert forall|other: OfferOutcome| #[trigger]
            tally(models(keys@.take(0)), outcomes, other) == 0 by {
            assert(alike(models(keys@.take(0)), outcomes, other) =~= Set::empty());
        }
    }
    while i < keys.len()
        invariant
            i <= keys@.len(),
            distinct(keys@),
            forall|j: int| 0 <= j < keys@.len() ==> before.contains_key((#[trigger] keys@[j])@),
            groups.wf(),
            groups.keys@ == old(groups).keys@,
            before == old(groups)@,
            old(stats).wf(),
            old(stats).attempted + keys@.len() <= u64::MAX,
            stats.attempted <= old(stats).attempted + i,
            stats.attempted == old(stats).attempted + report.offered + report.failed,
            report.matched == i,
            models(keys@.take(i as int)).finite(),
            all_offered(before, groups@, models(keys@.take(i as int)), bytes, outcomes),
            reported(report, models(keys@.take(i as int)), outcomes),
            counted(*old(stats), *stats, models(keys@.take(i as int)), outcomes),
        decreases keys@.len() - i,
    {
        let ghost done = models(keys@.take(i as int));
        let ghost key = keys@[i as int]@;
        let ghost earlier = *groups;
        proof {
            assert forall|model: AeronConfigModel| #[trigger]
                models(keys@.take(i + 1)).contains(model) == done.insert(key).contains(model) by {
                lemma_take_next(keys@, i as int, model);
            }
            assert(models(keys@.take(i + 1)) =~= done.insert(key));
            assert(!done.contains(key)) by {
                if has_key(keys@.take(i as int), key) {
                    let j = index_of(keys@.take(i as int), key);
                    assert(keys@[j]@ == keys@[i as int]@);
                }
            }
            assert(groups@.contains_key(key));
        }
        match position(&groups.keys, &keys[i]) {
            Some(at) => {
                proof {
                    earlier.lemma_entry(at as int);
                    lemma_update_value(earlier, at as int);
                }
                let outcome: OfferOutcome = offer_to_group(&mut groups.values[at], bytes);
                note_outcome(&mut report, stats, outcome);
                proof {
                    let group = groups.values@[at as int];
                    assert(groups.values@ =~= earlier.values@.update(at as int, group));
                    assert(groups@ == earlier@.insert(key, group));
                    lemma_tally_next(done, outcomes, key, outcome);
                    outcomes = outcomes.insert(key, outcome);
                    assert(all_offered(before, groups@, done.insert(key), bytes, outcomes));
                    assert(reported(report, done.insert(key), outcomes));
                    assert(counted(*old(stats), *stats, done.insert(key), outcomes));
                }
            },
            None => {
                assert(false);
            },
        }
        i += 1;
    }
    assert(keys@.take(i as int) =~= keys@);
    (report, Ghost(outcomes))
}

impl<F: PublicationFactory> AeronPublisher<F> {
    /// The counters can take one more frame.
    pub open spec fn can_count_frame(self) -> bool {
        self.stats.attempted + self.groups.keys@.len() <= u64::MAX
    }

    /// A frame has been offered once to each destination, and every outcome was entered in
    /// the report and the counters.
    pub open spec fn published(
        self,
        after: AeronPublisher<F>,
        destinations: Set<AeronConfigModel>,
        bytes: &[u8],
        outcomes: Map<AeronConfigModel, OfferOutcome>,
        report: AeronPublishReport,
    ) -> bool {
        &&& all_offered(self.groups@, after.groups@, destinations, bytes, outcomes)
        &&& reported(report, destinations, outcomes)
        &&& counted(self.stats, after.stats, destinations, outcomes)
    }

    /// Everything but publications, counters and pending work is as it was.
    pub open spec fn same_clients(self, other: AeronPublisher<F>) -> bool {
        &&& self.enabled == other.enabled
        &&& self.factory == other.factory
        &&& self.client_groups == other.client_groups
        &&& self.subscriptions == other.subscriptions
        &&& self.routes == other.routes
        &&& self.market_groups == other.market_groups
    }

    /// Nobody has joined or left, and whoever waited waits on.
    pub open spec fn keeps_clients(self, after: AeronPublisher<F>) -> bool {
        &&& after.client_groups == self.client_groups
        &&& forall|key: AeronConfigModel| #[trigger]
            after.groups@.contains_key(key) <==> self.groups@.contains_key(key)
        &&& forall|key: AeronConfigModel| #[trigger]
            after.groups@.contains_key(key) ==> after.groups@[key].members
                == self.groups@[key].members && after.groups@[key].waiters
                == self.groups@[key].waiters
    }

    /// Offers change no group but for its publication, which they can only give up.
    proof fn lemma_offered(
        before: AeronPublisher<F>,
        after: AeronPublisher<F>,
        destinations: Set<AeronConfigModel>,
        bytes: &[u8],
        outcomes: Map<AeronConfigModel, OfferOutcome>,
    )
        requires
            before.wf(),
            after.same_clients(before),
            after.groups.wf(),
            after.groups.keys@ == before.groups.keys@,
            after.stats.wf(),
            all_offered(before.groups@, after.groups@, destinations, bytes, outcomes),
        ensures
            after.consistent(),
            after.routed(),
            some_unready(before.groups@) ==> some_unready(after.groups@),
            (forall|key: AeronConfigModel| #[trigger]
                destinations.contains(key) ==> !(outcomes[key] is Fatal)) ==> some_unready(
                after.groups@,
            ) == some_unready(before.groups@),
    {
        assert(membership(after.groups@, after.client_groups@, after.subscriptions@));
        assert forall|route: RouteModel, key: AeronConfigModel| #[trigger]
            targets(after.routes, route, key) <==> after.wants(key, route) by {
            assert(before.wants(key, route) == after.wants(key, route));
        }
        assert forall|market: i32, key: AeronConfigModel| #[trigger]
            targets(after.market_groups, market, key) <==> after.wants_market(key, market) by {
            assert(before.wants_market(key, market) == after.wants_market(key, market));
        }
        if some_unready(before.groups@) {
            let key = choose|key: AeronConfigModel| #[trigger]
                before.groups@.contains_key(key) && !(before.groups@[key].publication@ is Ready);
            assert(after.groups@.contains_key(key));
        }
        if some_unready(after.groups@) && (forall|key: AeronConfigModel| #[trigger]
            destinations.contains(key) ==> !(outcomes[key] is Fatal)) {
            let key = choose|key: AeronConfigModel| #[trigger]
                after.groups@.contains_key(key) && !(after.groups@[key].publication@ is Ready);
            assert(before.groups@.contains_key(key));
        }
    }

    /// Offers a frame once to every stream whose clients want it, whatever their noise
    /// thresholds. A frame that is not taken is not offered again; a publication that has
    /// failed for good is given up and set up anew by later work.
    pub fn publish(&mut self, frame: AeronFrame<'_>) -> (report: AeronPublishReport)
        requires
            old(self).wf(),
            old(self).can_count_frame(),
        ensures
            final(self).wf(),
            final(self).same_clients(*old(self)),
            old(self).keeps_clients(*final(self)),
            exists|outcomes: Map<AeronConfigModel, OfferOutcome>| #[trigger]
                old(self).published(
                    *final(self),
                    old(self).destinations(frame.route),
                    frame.bytes,
                    outcomes,
                    report,
                ),
    {
        let ghost destinations = self.destinations(frame.route);
        let nobody: Vec<StreamKey> = Vec::new();
        let keys: &Vec<StreamKey> = match frame.route {
            AeronRoute::Stream { id, stream } => {
                let ghost route = RouteModel { id, stream: stream@ };
                match route_position(&self.routes.keys, id, stream) {
                    Some(at) => {
                        proof {
                            self.routes.lemma_entry(at as int);
                            assert forall|key: AeronConfigModel| #[trigger]
                                destinations.contains(key) == has_key(
                                    self.routes.values@[at as int]@,
                                    key,
                                ) by {
                                assert(targets(self.routes, route, key) == self.wants(key, route));
                            }
                        }
                        &self.routes.values[at]
                    },
                    None => {
                        proof {
                            assert forall|key: AeronConfigModel| #[trigger]
                                destinations.contains(key) == has_key(nobody@, key) by {
                                assert(targets(self.routes, route, key) == self.wants(key, route));
                            }
                        }
                        &nobody
                    },
                }
            },
            AeronRoute::MarketStatus { market_id } => {
                match self.market_groups.get(&market_id) {
                    Some(keys) => {
                        proof {
                            assert forall|key: AeronConfigModel| #[trigger]
                                destinations.contains(key) == has_key(keys@, key) by {
                                assert(targets(self.market_groups, market_id, key)
                                    == self.wants_market(key, market_id));
                            }
                        }
                        keys
                    },
                    None => {
                        proof {
                            assert forall|key: AeronConfigModel| #[trigger]
                                destinations.contains(key) == has_key(nobody@, key) by {
                                assert(targets(self.market_groups, market_id, key)
                                    == self.wants_market(key, market_id));
                            }
                        }
                        &nobody
                    },
                }
            },
        };
        proof {
            assert(models(keys@) =~= destinations);
            assert(distinct(keys@));
            assert forall|i: int| 0 <= i < keys@.len() implies self.groups@.contains_key(
                (#[trigger] keys@[i])@,
            ) by {
                assert(has_key(keys@, keys@[i]@));
                assert(destinations.contains(keys@[i]@));
            }
            lemma_models_len(keys@);
            lemma_models_len(self.groups.keys@);
            assert(models(keys@).subset_of(models(self.groups.keys@)));
            vstd::set_lib::lemma_len_subset(models(keys@), models(self.groups.keys@));
        }
        let (report, Ghost(outcomes)) = offer_to_all(
            &mut self.groups,
            &mut self.stats,
            keys,
            frame.bytes,
        );
        proof {
            Self::lemma_offered(*old(self), *self, destinations, frame.bytes, outcomes);
            lemma_models_len(keys@);
        }
        if report.failed > 0 && any_given_up(&self.groups) {
            self.work_pending = true;
            proof {
                let key = choose|key: AeronConfigModel| #[trigger]
                    self.groups@.contains_key(key) && self.groups@[key].publication@ is Unavailable;
                assert(self.groups@.contains_key(key));
            }
        } else {
            proof {
                assert forall|key: AeronConfigModel| #[trigger]
                    destinations.contains(key) implies !(outcomes[key] is Fatal) by {
                    if outcomes[key] is Fatal {
                        lemma_tally_positive(
                            destinations,
                            outcomes,
                            key,
                            OfferOutcome::Fatal,
                        );
                        assert(report.failed > 0);
                        assert(self.groups@.contains_key(key));
                        assert(self.groups@[key].publication@ is Unavailable);
                    }
                }
            }
        }
        proof {
            assert(self.wf()) by {
                Self::lemma_offered(*old(self), *self, destinations, frame.bytes, outcomes);
            }
            assert(old(self).published(*self, destinations, frame.bytes, outcomes, report));
        }
        report
    }

    /// Offers a frame to the stream of one client, whether it has subscribed to it or not.
    pub fn publish_to_client_group(&mut self, client_id: u64, frame: AeronFrame<'_>) -> (report:
        AeronPublishReport)
        requires
            old(self).wf(),
            old(self).can_count_frame(),
        ensures
            final(self).wf(),
            final(self).same_clients(*old(self)),
            old(self).keeps_clients(*final(self)),
            !old(self).client_groups@.contains_key(client_id) ==> report
                == AeronPublishReport::empty() && *final(self) == *old(self),
            old(self).client_groups@.contains_key(client_id) ==> exists|
                outcomes: Map<AeronConfigModel, OfferOutcome>,
            | #[trigger]
                old(self).published(
                    *final(self),
                    set![old(self).client_groups@[client_id]@],
                    frame.bytes,
                    outcomes,
                    report,
                ),
    {
        let key: StreamKey = match self.client_groups.get(&client_id) {
            Some(key) => key.clone(),
            None => {
                return AeronPublishReport::default();
            },
        };
        let ghost destinations = set![key@];
        let mut keys: Vec<StreamKey> = Vec::with_capacity(1);
        keys.push(key);
        proof {
            assert forall|model: AeronConfigModel| #[trigger]
                models(keys@).contains(model) == destinations.contains(model) by {
                assert(keys@[0]@ == key@);
            }
            assert(models(keys@) =~= destinations);
            assert(self.groups@.contains_key(key@));
            lemma_models_len(self.groups.keys@);
            let at = self.groups.lemma_position(key@);
        }
        let (report, Ghost(outcomes)) = offer_to_all(
            &mut self.groups,
            &mut self.stats,
            &keys,
            frame.bytes,
        );
        proof {
            Self::lemma_offered(*old(self), *self, destinations, frame.bytes, outcomes);
            assert(self.groups@.contains_key(key@));
        }
        if let Some(group) = self.groups.get(&keys[0]) {
            if group.publication.is_unavailable() {
                self.work_pending = true;
            } else {
                proof {
                    assert(destinations.contains(key@));
                    assert(!(outcomes[key@] is Fatal));
                }
            }
        }
        proof {
            assert(self.groups@.contains_key(key@));
            assert(self.wf()) by {
                Self::lemma_offered(*old(self), *self, destinations, frame.bytes, outcomes);
            }
            assert(old(self).published(*self, destinations, frame.bytes, outcomes, report));
        }
        report
    }
}

/// Whether the publication of some group was given up.
fn any_given_up<F: PublicationFactory>(groups: &VecMap<StreamKey, StreamGroup<F>>) -> (given_up:
    bool)
    requires
        groups.wf(),
    ensures
        given_up == exists|key: AeronConfigModel| #[trigger]
            groups@.contains_key(key) && groups@[key].publication@ is Unavailable,
{
    let mut i: usize = 0;
    while i < groups.keys.len()
        invariant
            groups.wf(),
            i <= groups.keys@.len(),
            forall|j: int|
                0 <= j < i ==> !((#[trigger] groups.values@[j]).publication@ is Unavailable),
        decreases groups.keys@.len() - i,
    {
        proof {
            groups.lemma_entry(i as int);
        }
        if groups.values[i].publication.is_unavailable() {
            assert(groups@.contains_key(groups.keys@[i as int]@));
            return true;
        }
        i += 1;
    }
    proof {
        assert forall|key: AeronConfigModel| #[trigger] groups@.contains_key(key) implies !(
        groups@[key].publication@ is Unavailable) by {
            let at = groups.lemma_position(key);
            assert(!(groups.values@[at].publication@ is Unavailable));
        }
    }
    false
}

/// The members of a group once it has settled: those who waited for a publication that
/// failed are let go.
pub open spec fn settled_members<F: PublicationFactory>(
    group: StreamGroup<F>,
    settlement: Settlement<F::Publication>,
) -> Set<u64> {
    if settlement is Failed {
        group.members@.difference(group.waiters@)
    } else {
        group.members@
    }
}

/// Those who still wait once a group has settled.
pub open spec fn settled_waiters<F: PublicationFactory>(
    group: StreamGroup<F>,
    settlement: Settlement<F::Publication>,
) -> Set<u64> {
    if settlement is Idle {
        group.waiters@
    } else {
        Set::empty()
    }
}

/// A group has settled.
pub open spec fn settled<F: PublicationFactory>(
    before: StreamGroup<F>,
    after: StreamGroup<F>,
    now: u128,
    settlement: Settlement<F::Publication>,
) -> bool {
    &&& may_find(before.publication@, now, settlement)
    &&& after.members.wf()
    &&& after.waiters.wf()
    &&& after.members@ == settled_members(before, settlement)
    &&& after.waiters@ == settled_waiters(before, settlement)
    &&& after.publication@ == found(before.publication@, settlement)
    &&& looked_at(before.publication, after.publication, now)
}

/// No frame was offered, and the registration was asked once if it has time left.
pub open spec fn looked_at<F: PublicationFactory>(
    before: StreamPublication<F>,
    after: StreamPublication<F>,
    now: u128,
) -> bool {
    &&& after.offers() == before.offers()
    &&& after.polls() == before.polls() + (if is_polled(before@, now) {
        1nat
    } else {
        0nat
    })
}

/// Ends the wait for a publication that is ready or has failed, and gives back those who
/// waited. Whoever has waited in vain is a member no longer.
pub fn end_wait<F: PublicationFactory>(group: &mut StreamGroup<F>, progress: &Progress) -> (waiters:
    VecSet<u64>)
    requires
        old(group).members.wf(),
        old(group).waiters.wf(),
    ensures
        final(group).members.wf(),
        final(group).waiters.wf(),
        final(group).publication == old(group).publication,
        final(group).members@ == (if progress is Failed {
            old(group).members@.difference(old(group).waiters@)
        } else {
            old(group).members@
        }),
        final(group).waiters@ == (if progress is Idle {
            old(group).waiters@
        } else {
            Set::<u64>::empty()
        }),
        waiters.wf(),
        waiters@ == (if progress is Idle {
            Set::<u64>::empty()
        } else {
            old(group).waiters@
        }),
{
    let mut waiters: VecSet<u64> = VecSet::new();
    if !matches!(progress, Progress::Idle) {
        std::mem::swap(&mut waiters, &mut group.waiters);
    }
    if matches!(progress, Progress::Failed(_)) {
        let ghost members = group.members@;
        let ghost publication = group.publication;
        let mut i: usize = 0;
        while i < waiters.items.len()
            invariant
                i <= waiters.items@.len(),
                group.publication == publication,
                group.members.wf(),
                group.waiters.wf(),
                group.waiters@ == Set::<u64>::empty(),
                forall|client: u64| #[trigger]
                    group.members@.contains(client) <==> members.contains(client) && !has_key(
                        waiters.items@.take(i as int),
                        client,
                    ),
            decreases waiters.items@.len() - i,
        {
            let ghost earlier = group.members@;
            group.members.remove(&waiters.items[i]);
            proof {
                assert forall|client: u64| #[trigger]
                    group.members@.contains(client) <==> members.contains(client) && !has_key(
                        waiters.items@.take(i + 1),
                        client,
                    ) by {
                    lemma_take_next(waiters.items@, i as int, client);
                    assert(earlier.contains(client) <==> members.contains(client) && !has_key(
                        waiters.items@.take(i as int),
                        client,
                    ));
                }
            }
            i += 1;
        }
        assert(waiters.items@.take(i as int) =~= waiters.items@);
        assert(group.members@ =~= members.difference(waiters@));
    }
    waiters
}

/// Looks at the publication of a group, if it is being set up, and gives back those whose
/// wait is over.
fn settle_group<F: PublicationFactory>(group: &mut StreamGroup<F>, now: u128) -> (done: (
    Progress,
    VecSet<u64>,
    Ghost<Settlement<F::Publication>>,
))
    requires
        old(group).wf(),
    ensures
        settled(*old(group), *final(group), now, done.2@),
        tells(done.0, done.2@),
        done.1.wf(),
        done.1@ == (if done.2@ is Idle {
            Set::<u64>::empty()
        } else {
            old(group).waiters@
        }),
{
    let (progress, Ghost(settlement)) = group.publication.advance(now);
    let waiters: VecSet<u64> = end_wait(group, &progress);
    (progress, waiters, Ghost(settlement))
}

/// Tells clients that their wait is over, and forgets those who waited in vain.
fn complete_clients(
    completions: &mut Vec<JoinCompletion>,
    client_groups: &mut VecMap<u64, StreamKey>,
    subscriptions: &mut VecMap<u64, VecSet<SubscriptionKey>>,
    waiters: &VecSet<u64>,
    failure: Option<String>,
)
    requires
        old(client_groups).wf(),
        old(subscriptions).wf(),
    ensures
        final(client_groups).wf(),
        final(subscriptions).wf(),
        final(completions)@.len() == old(completions)@.len() + waiters.items@.len(),
        forall|i: int|
            0 <= i < old(completions)@.len() ==> #[trigger] final(completions)@[i] == old(
                completions,
            )@[i],
        forall|i: int|
            0 <= i < waiters.items@.len() ==> {
                let told = #[trigger] final(completions)@[old(completions)@.len() + i];
                &&& told.client_id == waiters.items@[i]
                &&& match failure {
                    Some(message) => told.result matches Err(text) && text@ == message@,
                    None => told.result is Ok,
                }
            },
        failure is None ==> *final(client_groups) == *old(client_groups) && *final(subscriptions)
            == *old(subscriptions),
        failure is Some ==> final(client_groups)@ == old(client_groups)@.remove_keys(waiters@),
        failure is Some ==> final(subscriptions)@ == old(subscriptions)@.remove_keys(waiters@),
{
    let ghost told_before = completions@;
    let mut i: usize = 0;
    assert(old(client_groups)@.remove_keys(models(waiters.items@.take(0))) =~= old(client_groups)@);
    assert(old(subscriptions)@.remove_keys(models(waiters.items@.take(0))) =~= old(subscriptions)@);
    while i < waiters.items.len()
        invariant
            i <= waiters.items@.len(),
            client_groups.wf(),
            subscriptions.wf(),
            told_before == old(completions)@,
            completions@.len() == told_before.len() + i,
            forall|j: int|
                0 <= j < told_before.len() ==> #[trigger] completions@[j] == told_before[j],
            forall|j: int|
                0 <= j < i ==> {
                    let told = #[trigger] completions@[told_before.len() + j];
                    &&& told.client_id == waiters.items@[j]
                    &&& match failure {
                        Some(message) => told.result matches Err(text) && text@ == message@,
                        None => told.result is Ok,
                    }
                },
            failure is None ==> *client_groups == *old(client_groups) && *subscriptions == *old(
                subscriptions,
            ),
            failure is Some ==> client_groups@ == old(client_groups)@.remove_keys(
                models(waiters.items@.take(i as int)),
            ),
            failure is Some ==> subscriptions@ == old(subscriptions)@.remove_keys(
                models(waiters.items@.take(i as int)),
            ),
        decreases waiters.items@.len() - i,
    {
        let client_id: u64 = waiters.items[i];
        let ghost fewer = models(waiters.items@.take(i as int));
        let ghost more = models(waiters.items@.take(i + 1));
        proof {
            assert forall|client: u64| more.contains(client) == fewer.insert(client_id).contains(
                client,
            ) by {
                lemma_take_next(waiters.items@, i as int, client);
            }
            assert(more =~= fewer.insert(client_id));
        }
        match &failure {
            Some(message) => {
                client_groups.remove(&client_id);
                subscriptions.remove(&client_id);
                completions.push(JoinCompletion { client_id, result: Err(message.clone()) });
                assert(client_groups@ =~= old(client_groups)@.remove_keys(more));
                assert(subscriptions@ =~= old(subscriptions)@.remove_keys(more));
            },
            None => {
                completions.push(JoinCompletion { client_id, result: Ok(()) });
            },
        }
        i += 1;
    }
    assert(waiters.items@.take(i as int) =~= waiters.items@);
}

/// The groups whose publication has become ready.
pub open spec fn completed_among<P>(
    keys: Set<AeronConfigModel>,
    settlements: Map<AeronConfigModel, Settlement<P>>,
) -> Set<AeronConfigModel> {
    keys.filter(|key: AeronConfigModel| settlements[key] is Completed)
}

/// The groups whose publication has failed.
pub open spec fn failed_among<P>(
    keys: Set<AeronConfigModel>,
    settlements: Map<AeronConfigModel, Settlement<P>>,
) -> Set<AeronConfigModel> {
    keys.filter(|key: AeronConfigModel| settlements[key] is Failed)
}

/// The groups whose publication could not be started again.
pub open spec fn refused_among<R>(
    keys: Set<AeronConfigModel>,
    restarts: Map<AeronConfigModel, Result<R, String>>,
) -> Set<AeronConfigModel> {
    keys.filter(|key: AeronConfigModel| restarts[key] is Err)
}

proof fn lemma_settlements_next<P>(
    keys: Set<AeronConfigModel>,
    settlements: Map<AeronConfigModel, Settlement<P>>,
    key: AeronConfigModel,
    settlement: Settlement<P>,
)
    requires
        keys.finite(),
        !keys.contains(key),
    ensures
        completed_among(keys.insert(key), settlements.insert(key, settlement)).len()
            == completed_among(keys, settlements).len() + if settlement is Completed {
            1nat
        } else {
            0nat
        },
        failed_among(keys.insert(key), settlements.insert(key, settlement)).len() == failed_among(
            keys,
            settlements,
        ).len() + if settlement is Failed {
            1nat
        } else {
            0nat
        },
{
    let later = settlements.insert(key, settlement);
    let completed = completed_among(keys, settlements);
    let failed = failed_among(keys, settlements);
    vstd::set_lib::lemma_len_subset(completed, keys);
    vstd::set_lib::lemma_len_subset(failed, keys);
    if settlement is Completed {
        assert(completed_among(keys.insert(key), later) =~= completed.insert(key));
    } else {
        assert(completed_among(keys.insert(key), later) =~= completed);
    }
    if settlement is Failed {
        assert(failed_among(keys.insert(key), later) =~= failed.insert(key));
    } else {
        assert(failed_among(keys.insert(key), later) =~= failed);
    }
}

/// Each of these keys was appended once, and nothing else.
pub open spec fn appended_once(
    before: Seq<AeronConfigModel>,
    after: Seq<AeronConfigModel>,
    keys: Set<AeronConfigModel>,
) -> bool {
    &&& before.len() <= after.len()
    &&& after.take(before.len() as int) == before
    &&& after.skip(before.len() as int).no_duplicates()
    &&& after.skip(before.len() as int).to_set() == keys
}

impl<F: PublicationFactory> AeronPublisher<F> {
    /// The client waits, and what was found ends its wait.
    pub open spec fn told(
        self,
        settlements: Map<AeronConfigModel, Settlement<F::Publication>>,
        client_id: u64,
    ) -> bool {
        let key = self.client_groups@[client_id]@;
        &&& self.client_groups@.contains_key(client_id)
        &&& self.groups@[key].waiters@.contains(client_id)
        &&& !(settlements[key] is Idle)
    }

    /// The client has waited in vain.
    pub open spec fn gone(
        self,
        settlements: Map<AeronConfigModel, Settlement<F::Publication>>,
        client_id: u64,
    ) -> bool {
        &&& self.told(settlements, client_id)
        &&& settlements[self.client_groups@[client_id]@] is Failed
    }

    /// A client is told what was found for its stream.
    pub open spec fn told_rightly(
        self,
        settlements: Map<AeronConfigModel, Settlement<F::Publication>>,
        completion: JoinCompletion,
    ) -> bool {
        &&& self.told(settlements, completion.client_id)
        &&& match settlements[self.client_groups@[completion.client_id]@] {
            Settlement::Idle => false,
            Settlement::Completed(_) => completion.result is Ok,
            Settlement::Failed(message) => completion.result matches Err(text) && text@
                == message@,
        }
    }

    /// Every client whose wait is over is told so once, and nobody else is.
    pub open spec fn all_told(
        self,
        settlements: Map<AeronConfigModel, Settlement<F::Publication>>,
        completions: Seq<JoinCompletion>,
    ) -> bool {
        &&& forall|i: int|
            0 <= i < completions.len() ==> self.told_rightly(
                settlements,
                #[trigger] completions[i],
            )
        &&& forall|client_id: u64| #[trigger]
            self.told(settlements, client_id) ==> has_client(completions, client_id)
        &&& forall|i: int, j: int|
            0 <= i < j < completions.len() ==> (#[trigger] completions[i]).client_id != (
            #[trigger] completions[j]).client_id
    }

    /// The group of this stream keeps some member.
    pub open spec fn survives(
        self,
        settlements: Map<AeronConfigModel, Settlement<F::Publication>>,
        key: AeronConfigModel,
    ) -> bool {
        !(settlements[key] is Failed && self.groups@[key].members@ == self.groups@[key].waiters@)
    }

    /// The publication of this stream is set up anew.
    pub open spec fn restarts(
        self,
        settlements: Map<AeronConfigModel, Settlement<F::Publication>>,
        key: AeronConfigModel,
    ) -> bool {
        &&& self.groups@.contains_key(key)
        &&& self.survives(settlements, key)
        &&& settlements[key] is Failed || self.groups@[key].publication@ is Unavailable
    }

    /// The publication of this stream after the work.
    pub open spec fn worked_publication(
        self,
        now: u128,
        settlements: Map<AeronConfigModel, Settlement<F::Publication>>,
        restarts: Map<AeronConfigModel, Result<F::Registration, String>>,
        key: AeronConfigModel,
    ) -> PublicationState<F> {
        if self.restarts(settlements, key) {
            match restarts[key] {
                Ok(registration) => PublicationState::Registering {
                    registration,
                    started_at: now,
                },
                Err(_) => PublicationState::Unavailable,
            }
        } else {
            found(self.groups@[key].publication@, settlements[key])
        }
    }

    /// Every group was looked at; those who have waited in vain are let go, groups without
    /// members are dropped, and lost publications, and no others, are started again, once
    /// each. No frame was offered.
    pub open spec fn worked(
        self,
        after: AeronPublisher<F>,
        now: u128,
        settlements: Map<AeronConfigModel, Settlement<F::Publication>>,
        restarts: Map<AeronConfigModel, Result<F::Registration, String>>,
    ) -> bool {
        &&& after.enabled == self.enabled
        &&& forall|key: AeronConfigModel| #[trigger]
            self.groups@.contains_key(key) ==> may_find(
                self.groups@[key].publication@,
                now,
                settlements[key],
            )
        &&& forall|key: AeronConfigModel|
            self.restarts(settlements, key) ==> F::may_begin(key, #[trigger] restarts[key])
        &&& appended_once(
            self.started(),
            after.started(),
            Set::new(|key: AeronConfigModel| self.restarts(settlements, key)),
        )
        &&& forall|key: AeronConfigModel| #[trigger]
            after.groups@.contains_key(key) <==> self.groups@.contains_key(key) && self.survives(
                settlements,
                key,
            )
        &&& forall|key: AeronConfigModel| #[trigger]
            after.groups@.contains_key(key) ==> {
                &&& after.groups@[key].members@ == settled_members(
                    self.groups@[key],
                    settlements[key],
                )
                &&& after.groups@[key].waiters@ == settled_waiters(
                    self.groups@[key],
                    settlements[key],
                )
                &&& after.groups@[key].publication@ == self.worked_publication(
                    now,
                    settlements,
                    restarts,
                    key,
                )
                &&& looked_at(self.groups@[key].publication, after.groups@[key].publication, now)
            }
        &&& forall|client_id: u64| #[trigger]
            after.client_groups@.contains_key(client_id) <==> self.client_groups@.contains_key(
                client_id,
            ) && !self.gone(settlements, client_id)
        &&& forall|client_id: u64| #[trigger]
            after.client_groups@.contains_key(client_id) ==> after.client_groups@[client_id]
                == self.client_groups@[client_id] && after.subscriptions@[client_id]
                == self.subscriptions@[client_id]
        &&& after.stats == (AeronPublisherStats {
            registrations: (self.stats.registrations + completed_among(
                self.groups@.dom(),
                settlements,
            ).len()) as u64,
            registration_failures: (self.stats.registration_failures + failed_among(
                self.groups@.dom(),
                settlements,
            ).len() + refused_among(
                Set::new(|key: AeronConfigModel| self.restarts(settlements, key)),
                restarts,
            ).len()) as u64,
            ..self.stats
        })
    }

    /// The counters can take the outcomes of one round of work.
    pub open spec fn can_count_work(self) -> bool {
        &&& self.stats.registrations + self.groups.keys@.len() <= u64::MAX
        &&& self.stats.registration_failures + 2 * self.groups.keys@.len() <= u64::MAX
    }

    /// Looks at every group once and tells the clients whose wait is over.
    fn settle_all(&mut self, now: u128) -> (done: (
        Vec<JoinCompletion>,
        bool,
        Ghost<Map<AeronConfigModel, Settlement<F::Publication>>>,
    ))
        requires
            old(self).wf(),
            old(self).can_count_work(),
        ensures
            old(self).all_told(done.2@, done.0@),
            final(self).enabled == old(self).enabled,
            final(self).factory == old(self).factory,
            final(self).routes == old(self).routes,
            final(self).market_groups == old(self).market_groups,
            final(self).groups.wf(),
            final(self).groups.keys@ == old(self).groups.keys@,
            forall|key: AeronConfigModel| #[trigger]
                old(self).groups@.contains_key(key) ==> settled(
                    old(self).groups@[key],
                    final(self).groups@[key],
                    now,
                    done.2@[key],
                ),
            final(self).client_groups.wf(),
            final(self).subscriptions.wf(),
            forall|client_id: u64| #[trigger]
                final(self).client_groups@.contains_key(client_id)
                    <==> old(self).client_groups@.contains_key(client_id)
                    && !old(self).gone(done.2@, client_id),
            forall|client_id: u64| #[trigger]
                final(self).subscriptions@.contains_key(client_id)
                    <==> old(self).client_groups@.contains_key(client_id)
                    && !old(self).gone(done.2@, client_id),
            forall|client_id: u64| #[trigger]
                final(self).client_groups@.contains_key(client_id)
                    ==> final(self).client_groups@[client_id]
                    == old(self).client_groups@[client_id],
            forall|client_id: u64| #[trigger]
                final(self).subscriptions@.contains_key(client_id)
                    ==> final(self).subscriptions@[client_id]
                    == old(self).subscriptions@[client_id],
            final(self).stats == (AeronPublisherStats {
                registrations: (old(self).stats.registrations + completed_among(
                    old(self).groups@.dom(),
                    done.2@,
                ).len()) as u64,
                registration_failures: (old(self).stats.registration_failures + failed_among(
                    old(self).groups@.dom(),
                    done.2@,
                ).len()) as u64,
                ..old(self).stats
            }),
            old(self).stats.registrations + completed_among(old(self).groups@.dom(), done.2@).len()
                <= u64::MAX,
            old(self).stats.registration_failures + failed_among(
                old(self).groups@.dom(),
                done.2@,
            ).len() <= old(self).stats.registration_failures + old(self).groups.keys@.len(),
            !done.1 ==> failed_among(old(self).groups@.dom(), done.2@).len() == 0,
    {
        let ghost start = *self;
        let ghost keys = self.groups.keys@;
        let ghost mut settlements: Map<AeronConfigModel, Settlement<F::Publication>> = Map::empty();
        let mut completions: Vec<JoinCompletion> = Vec::new();
        let mut any_failed: bool = false;
        let mut i: usize = 0;
        proof {
            assert(models(keys.take(0)) =~= Set::<AeronConfigModel>::empty());
            assert(completed_among(models(keys.take(0)), settlements) =~= Set::empty());
            assert(failed_among(models(keys.take(0)), settlements) =~= Set::empty());
        }
        while i < self.groups.keys.len()
            invariant
                start.wf(),
                start.can_count_work(),
                start == *old(self),
                keys == start.groups.keys@,
                i <= keys.len(),
                self.enabled == start.enabled,
                self.factory == start.factory,
                self.routes == start.routes,
                self.market_groups == start.market_groups,
                self.groups.keys@ == keys,
                self.groups.values@.len() == keys.len(),
                forall|j: int|
                    i <= j < keys.len() ==> #[trigger] self.groups.values@[j]
                        == start.groups.values@[j],
                forall|j: int|
                    0 <= j < i ==> settled(
                        start.groups.values@[j],
                        #[trigger] self.groups.values@[j],
                        now,
                        settlements[keys[j]@],
                    ),
                self.client_groups.wf(),
                self.subscriptions.wf(),
                forall|client_id: u64| #[trigger]
                    self.client_groups@.contains_key(client_id)
                        <==> start.client_groups@.contains_key(client_id) && !start.gone_among(
                        settlements,
                        keys.take(i as int),
                        client_id,
                    ),
                forall|client_id: u64| #[trigger]
                    self.subscriptions@.contains_key(client_id)
                        <==> start.client_groups@.contains_key(client_id) && !start.gone_among(
                        settlements,
                        keys.take(i as int),
                        client_id,
                    ),
                forall|client_id: u64| #[trigger]
                    self.client_groups@.contains_key(client_id) ==> self.client_groups@[client_id]
                        == start.client_groups@[client_id],
                forall|client_id: u64| #[trigger]
                    self.subscriptions@.contains_key(client_id) ==> self.subscriptions@[client_id]
                        == start.subscriptions@[client_id],
                start.all_told_among(settlements, keys.take(i as int), completions@),
                models(keys.take(i as int)).finite(),
                models(keys.take(i as int)).len() == i,
                self.stats == (AeronPublisherStats {
                    registrations: self.stats.registrations,
                    registration_failures: self.stats.registration_failures,
                    ..start.stats
                }),
                self.stats.registrations == start.stats.registrations + completed_among(
                    models(keys.take(i as int)),
                    settlements,
                ).len(),
                self.stats.registration_failures == start.stats.registration_failures
                    + failed_among(models(keys.take(i as int)), settlements).len(),
                completed_among(models(keys.take(i as int)), settlements).len() <= i,
                failed_among(models(keys.take(i as int)), settlements).len() <= i,
                !any_failed ==> failed_among(models(keys.take(i as int)), settlements).len() == 0,
            decreases keys.len() - i,
        {
            let ghost key = keys[i as int]@;
            let ghost group = start.groups.values@[i as int];
            let ghost before = *self;
            let ghost told_before = completions@;
            let ghost known = settlements;
            proof {
                start.groups.lemma_entry(i as int);
                assert(group.wf());
                lemma_fresh_key(keys, i as int);
            }
            let (progress, waiters, Ghost(seen)) = settle_group(&mut self.groups.values[i], now);
            if matches!(progress, Progress::Completed) {
                self.stats.registrations += 1;
            }
            let failure: Option<String> = match progress {
                Progress::Failed(message) => Some(message),
                _ => None,
            };
            if failure.is_some() {
                self.stats.registration_failures += 1;
                any_failed = true;
            }
            complete_clients(
                &mut completions,
                &mut self.client_groups,
                &mut self.subscriptions,
                &waiters,
                failure,
            );
            proof {
                settlements = settlements.insert(key, seen);
                lemma_settlements_next(models(keys.take(i as int)), known, key, seen);
                assert(models(keys.take(i + 1)) =~= models(keys.take(i as int)).insert(key));
                assert forall|client_id: u64| #[trigger]
                    start.client_groups@.contains_key(client_id) implies start.gone_among(
                    settlements,
                    keys.take(i + 1),
                    client_id,
                ) == (start.gone_among(known, keys.take(i as int), client_id) || (seen is Failed
                    && group.waiters@.contains(client_id))) by {
                    lemma_take_next(keys, i as int, start.client_groups@[client_id]@);
                    start.lemma_waiter(i as int, client_id);
                }
                assert(waiters@.subset_of(group.members@));
                assert forall|client_id: u64|
                    group.waiters@.contains(client_id) implies start.client_groups@.contains_key(
                    client_id,
                ) by {
                    start.lemma_waiter(i as int, client_id);
                }
                start.lemma_told_next(
                    known,
                    seen,
                    i as int,
                    told_before,
                    completions@,
                    waiters,
                );
            }
            i += 1;
        }
        proof {
            assert(keys.take(i as int) =~= keys);
            assert(models(keys) =~= start.groups@.dom());
            assert forall|key: AeronConfigModel| #[trigger]
                start.groups@.contains_key(key) implies settled(
                start.groups@[key],
                self.groups@[key],
                now,
                settlements[key],
            ) by {
                let at = start.groups.lemma_position(key);
                self.groups.lemma_entry(at);
                assert(keys[at]@ == key);
                assert(self.groups.values@[at] == self.groups@[key]);
            }
            assert forall|client_id: u64| #[trigger]
                start.client_groups@.contains_key(client_id) implies start.gone_among(
                settlements,
                keys,
                client_id,
            ) == start.gone(settlements, client_id) by {
                assert(start.groups@.contains_key(start.client_groups@[client_id]@));
            }
            assert(start.all_told(settlements, completions@)) by {
                assert forall|client_id: u64| #[trigger]
                    start.told(settlements, client_id) implies has_client(
                    completions@,
                    client_id,
                ) by {
                    assert(start.groups@.contains_key(start.client_groups@[client_id]@));
                    assert(start.told_among(settlements, keys, client_id));
                }
            }
        }
        (completions, any_failed, Ghost(settlements))
    }

    spec fn gone_among(
        self,
        settlements: Map<AeronConfigModel, Settlement<F::Publication>>,
        keys: Seq<StreamKey>,
        client_id: u64,
    ) -> bool {
        self.gone(settlements, client_id) && has_key(keys, self.client_groups@[client_id]@)
    }

    spec fn told_among(
        self,
        settlements: Map<AeronConfigModel, Settlement<F::Publication>>,
        keys: Seq<StreamKey>,
        client_id: u64,
    ) -> bool {
        self.told(settlements, client_id) && has_key(keys, self.client_groups@[client_id]@)
    }

    spec fn all_told_among(
        self,
        settlements: Map<AeronConfigModel, Settlement<F::Publication>>,
        keys: Seq<StreamKey>,
        completions: Seq<JoinCompletion>,
    ) -> bool {
        &&& forall|i: int|
            0 <= i < completions.len() ==> self.told_rightly(
                settlements,
                #[trigger] completions[i],
            ) && has_key(keys, self.client_groups@[completions[i].client_id]@)
        &&& forall|client_id: u64| #[trigger]
            self.told_among(settlements, keys, client_id) ==> has_client(completions, client_id)
        &&& forall|i: int, j: int|
            0 <= i < j < completions.len() ==> (#[trigger] completions[i]).client_id != (
            #[trigger] completions[j]).client_id
    }

    /// Whoever waits in a group belongs to it.
    proof fn lemma_waiter(self, at: int, client_id: u64)
        requires
            self.wf(),
            0 <= at < self.groups.keys@.len(),
        ensures
            self.groups.values@[at].waiters@.contains(client_id) ==> self.client_groups@.contains_key(
                client_id,
            ) && self.client_groups@[client_id]@ == self.groups.keys@[at]@,
            self.groups@[self.groups.keys@[at]@] == self.groups.values@[at],
    {
        self.groups.lemma_entry(at);
        let key = self.groups.keys@[at]@;
        assert(self.groups@.contains_key(key));
        if self.groups.values@[at].waiters@.contains(client_id) {
            assert(self.groups@[key].members@.contains(client_id));
        }
    }

    /// Telling the waiters of one more group.
    proof fn lemma_told_next(
        self,
        known: Map<AeronConfigModel, Settlement<F::Publication>>,
        seen: Settlement<F::Publication>,
        at: int,
        before: Seq<JoinCompletion>,
        after: Seq<JoinCompletion>,
        waiters: VecSet<u64>,
    )
        requires
            self.wf(),
            0 <= at < self.groups.keys@.len(),
            self.all_told_among(known, self.groups.keys@.take(at), before),
            waiters.wf(),
            waiters@ == (if seen is Idle {
                Set::<u64>::empty()
            } else {
                self.groups.values@[at].waiters@
            }),
            after.len() == before.len() + waiters.items@.len(),
            forall|i: int| 0 <= i < before.len() ==> #[trigger] after[i] == before[i],
            forall|i: int|
                0 <= i < waiters.items@.len() ==> {
                    let told = #[trigger] after[before.len() + i];
                    &&& told.client_id == waiters.items@[i]
                    &&& match seen {
                        Settlement::Failed(message) => told.result matches Err(text) && text@
                            == message@,
                        _ => told.result is Ok,
                    }
                },
        ensures
            self.all_told_among(
                known.insert(self.groups.keys@[at]@, seen),
                self.groups.keys@.take(at + 1),
                after,
            ),
    {
        let keys = self.groups.keys@;
        let key = keys[at]@;
        let settlements = known.insert(key, seen);
        let group = self.groups.values@[at];
        lemma_fresh_key(keys, at);
        self.groups.lemma_entry(at);
        assert forall|i: int| 0 <= i < after.len() implies self.told_rightly(
            settlements,
            #[trigger] after[i],
        ) && has_key(keys.take(at + 1), self.client_groups@[after[i].client_id]@) by {
            let client_id = after[i].client_id;
            lemma_take_next(keys, at, self.client_groups@[client_id]@);
            if i < before.len() {
                assert(after[i] == before[i]);
                assert(self.told_rightly(known, before[i]));
                assert(has_key(keys.take(at), self.client_groups@[client_id]@));
            } else {
                let j = i - before.len();
                assert(after[before.len() + j].client_id == waiters.items@[j]);
                assert(has_key(waiters.items@, client_id));
                assert(waiters@.contains(client_id));
                self.lemma_waiter(at, client_id);
            }
        }
        assert forall|client_id: u64| #[trigger]
            self.told_among(settlements, keys.take(at + 1), client_id) implies has_client(
            after,
            client_id,
        ) by {
            let own = self.client_groups@[client_id]@;
            lemma_take_next(keys, at, own);
            if own == key {
                assert(waiters@.contains(client_id));
                let j = index_of(waiters.items@, client_id);
                assert(after[before.len() + j].client_id == client_id);
            } else {
                assert(self.told_among(known, keys.take(at), client_id));
                let j = choose|j: int|
                    0 <= j < before.len() && (#[trigger] before[j]).client_id == client_id;
                assert(after[j].client_id == client_id);
            }
        }
        assert forall|i: int, j: int| 0 <= i < j < after.len() implies (
        #[trigger] after[i]).client_id != (#[trigger] after[j]).client_id by {
            if j < before.len() {
                assert(after[i] == before[i] && after[j] == before[j]);
            } else {
                let n = j - before.len();
                assert(after[before.len() + n].client_id == waiters.items@[n]);
                assert(has_key(waiters.items@, waiters.items@[n]));
                assert(waiters@.contains(waiters.items@[n]));
                self.lemma_waiter(at, waiters.items@[n]);
                if i < before.len() {
                    assert(after[i] == before[i]);
                    assert(has_key(keys.take(at), self.client_groups@[before[i].client_id]@));
                } else {
                    let m = i - before.len();
                    assert(after[before.len() + m].client_id == waiters.items@[m]);
                    assert(waiters.items@[m]@ != waiters.items@[n]@);
                }
            }
        }
    }
}

/// One of the completions is for the client.
pub open spec fn has_client(completions: Seq<JoinCompletion>, client_id: u64) -> bool {
    exists|i: int|
        0 <= i < completions.len() && (#[trigger] completions[i]).client_id == client_id
}

/// A key does not stand among those before it.
proof fn lemma_fresh_key(keys: Seq<StreamKey>, at: int)
    requires
        distinct(keys),
        0 <= at < keys.len(),
    ensures
        !has_key(keys.take(at), keys[at]@),
        models(keys.take(at + 1)) == models(keys.take(at)).insert(keys[at]@),
{
    if has_key(keys.take(at), keys[at]@) {
        let j = index_of(keys.take(at), keys[at]@);
        assert(keys[j]@ == keys[at]@);
    }
    assert forall|model: AeronConfigModel| models(keys.take(at + 1)).contains(model) == models(
        keys.take(at),
    ).insert(keys[at]@).contains(model) by {
        lemma_take_next(keys, at, model);
    }
    assert(models(keys.take(at + 1)) =~= models(keys.take(at)).insert(keys[at]@));
}

/// Drops the groups that have no members.
fn drop_empty_groups<F: PublicationFactory>(groups: &mut VecMap<StreamKey, StreamGroup<F>>)
    requires
        old(groups).wf(),
    ensures
        final(groups).wf(),
        final(groups).keys@.len() <= old(groups).keys@.len(),
        forall|key: AeronConfigModel| #[trigger]
            final(groups)@.contains_key(key) <==> old(groups)@.contains_key(key)
                && old(groups)@[key].members.items@.len() > 0,
        forall|key: AeronConfigModel| #[trigger]
            final(groups)@.contains_key(key) ==> final(groups)@[key] == old(groups)@[key],
{
    let ghost before = groups@;
    let mut i: usize = 0;
    while i < groups.keys.len()
        invariant
            before == old(groups)@,
            groups.wf(),
            i <= groups.keys@.len(),
            groups.keys@.len() <= old(groups).keys@.len(),
            forall|key: AeronConfigModel| #[trigger]
                groups@.contains_key(key) ==> before.contains_key(key) && groups@[key]
                    == before[key],
            forall|key: AeronConfigModel|
                before.contains_key(key) && before[key].members.items@.len() > 0
                    ==> #[trigger] groups@.contains_key(key),
            forall|j: int|
                0 <= j < i ==> (#[trigger] groups.values@[j]).members.items@.len() > 0,
        decreases groups.keys@.len() - i,
    {
        let ghost earlier = *groups;
        proof {
            groups.lemma_entry(i as int);
        }
        if groups.values[i].members.items.len() == 0 {
            groups.remove_at(i);
            proof {
                assert forall|key: AeronConfigModel| #[trigger]
                    groups@.contains_key(key) implies before.contains_key(key) && groups@[key]
                    == before[key] by {
                    assert(earlier@.contains_key(key));
                }
                assert forall|key: AeronConfigModel|
                    before.contains_key(key) && before[key].members.items@.len()
                        > 0 implies #[trigger] groups@.contains_key(key) by {
                    assert(earlier@.contains_key(key));
                }
                assert forall|j: int| 0 <= j < i implies (
                #[trigger] groups.values@[j]).members.items@.len() > 0 by {
                    assert(groups.values@[j] == earlier.values@[j]);
                }
            }
        } else {
            i += 1;
        }
    }
    proof {
        assert forall|key: AeronConfigModel| #[trigger]
            groups@.contains_key(key) implies before[key].members.items@.len() > 0 by {
            let at = groups.lemma_position(key);
            assert(groups.values@[at].members.items@.len() > 0);
        }
    }
}

/// The groups whose publication is to be set up anew.
pub open spec fn lost<F: PublicationFactory>(
    groups: Map<AeronConfigModel, StreamGroup<F>>,
) -> Set<AeronConfigModel> {
    Set::new(
        |key: AeronConfigModel|
            groups.contains_key(key) && groups[key].publication@ is Unavailable,
    )
}

/// What the factory answered, as the outcome of starting a publication shows it.
spec fn begun<F: PublicationFactory>(outcome: Result<StreamPublication<F>, String>) -> Result<
    F::Registration,
    String,
> {
    match outcome {
        Ok(publication) => Ok(publication@->registration),
        Err(message) => Err(message),
    }
}

/// A group whose publication was lost, after the attempt to set it up anew.
pub open spec fn restarted<F: PublicationFactory>(
    before: StreamGroup<F>,
    after: StreamGroup<F>,
    now: u128,
    restart: Result<F::Registration, String>,
) -> bool {
    match restart {
        Ok(registration) => {
            &&& after.members == before.members
            &&& after.waiters == before.waiters
            &&& after.publication@ == (PublicationState::<F>::Registering {
                registration,
                started_at: now,
            })
            &&& after.publication.offers() == before.publication.offers()
            &&& after.publication.polls() == before.publication.polls()
        },
        Err(_) => after == before,
    }
}

proof fn lemma_refused_next<R>(
    keys: Set<AeronConfigModel>,
    restarts: Map<AeronConfigModel, Result<R, String>>,
    key: AeronConfigModel,
    restart: Result<R, String>,
)
    requires
        keys.finite(),
        !keys.contains(key),
    ensures
        keys.insert(key).finite(),
        refused_among(keys.insert(key), restarts.insert(key, restart)).len() == refused_among(
            keys,
            restarts,
        ).len() + if restart is Err {
            1nat
        } else {
            0nat
        },
{
    let refused = refused_among(keys, restarts);
    vstd::set_lib::lemma_len_subset(refused, keys);
    if restart is Err {
        assert(refused_among(keys.insert(key), restarts.insert(key, restart)) =~= refused.insert(
            key,
        ));
    } else {
        assert(refused_among(keys.insert(key), restarts.insert(key, restart)) =~= refused);
    }
}

/// Appending one more key.
proof fn lemma_appended_next(
    before: Seq<AeronConfigModel>,
    after: Seq<AeronConfigModel>,
    keys: Set<AeronConfigModel>,
    key: AeronConfigModel,
)
    requires
        appended_once(before, after, keys),
        !keys.contains(key),
    ensures
        appended_once(before, after.push(key), keys.insert(key)),
{
    let added = after.skip(before.len() as int);
    let more = after.push(key).skip(before.len() as int);
    assert(after.push(key).take(before.len() as int) =~= before);
    assert(more =~= added.push(key));
    assert(!added.contains(key)) by {
        if added.contains(key) {
            assert(added.to_set().contains(key));
        }
    }
    assert forall|other: AeronConfigModel| more.to_set().contains(other) == keys.insert(
        key,
    ).contains(other) by {
        assert(added.to_set().contains(other) == keys.contains(other));
        if added.contains(other) {
            let i = choose|i: int| 0 <= i < added.len() && added[i] == other;
            assert(more[i] == other);
        }
        if other == key {
            assert(more[added.len() as int] == key);
        }
        if more.contains(other) {
            let i = choose|i: int| 0 <= i < more.len() && more[i] == other;
            if i < added.len() {
                assert(added[i] == other);
            }
        }
    }
    assert(more.to_set() =~= keys.insert(key));
}

impl<F: PublicationFactory> AeronPublisher<F> {
    spec fn lost_among(self, count: int) -> Set<AeronConfigModel> {
        Set::new(
            |key: AeronConfigModel|
                lost(self.groups@).contains(key) && has_key(self.groups.keys@.take(count), key),
        )
    }

    /// Sets up anew every publication that was lost.
    fn restart_all(&mut self, now: u128) -> (restarts: Ghost<
        Map<AeronConfigModel, Result<F::Registration, String>>,
    >)
        requires
            old(self).groups.wf(),
            old(self).groups.keys@.len() > 0 ==> old(self).factory is Some,
            old(self).stats.registration_failures + old(self).groups.keys@.len() <= u64::MAX,
        ensures
            final(self).groups.wf(),
            final(self).groups.keys@ == old(self).groups.keys@,
            forall|key: AeronConfigModel| #[trigger]
                old(self).groups@.contains_key(key) ==> if lost(old(self).groups@).contains(key) {
                    restarted(
                        old(self).groups@[key],
                        final(self).groups@[key],
                        now,
                        restarts@[key],
                    )
                } else {
                    final(self).groups@[key] == old(self).groups@[key]
                },
            appended_once(old(self).started(), final(self).started(), lost(old(self).groups@)),
            forall|key: AeronConfigModel|
                lost(old(self).groups@).contains(key) ==> F::may_begin(
                    key,
                    #[trigger] restarts@[key],
                ),
            final(self).stats == (AeronPublisherStats {
                registration_failures: (old(self).stats.registration_failures + refused_among(
                    lost(old(self).groups@),
                    restarts@,
                ).len()) as u64,
                ..old(self).stats
            }),
            old(self).stats.registration_failures + refused_among(
                lost(old(self).groups@),
                restarts@,
            ).len() <= u64::MAX,
            final(self).enabled == old(self).enabled,
            old(self).factory is Some ==> final(self).factory is Some,
            final(self).client_groups == old(self).client_groups,
            final(self).subscriptions == old(self).subscriptions,
            final(self).routes == old(self).routes,
            final(self).market_groups == old(self).market_groups,
    {
        let ghost start = *self;
        let ghost keys = self.groups.keys@;
        let ghost mut restarts: Map<AeronConfigModel, Result<F::Registration, String>> =
            Map::empty();
        let mut i: usize = 0;
        proof {
            assert(start.lost_among(0) =~= Set::<AeronConfigModel>::empty());
            assert(start.started().take(start.started().len() as int) =~= start.started());
            assert(start.started().skip(start.started().len() as int).to_set()
                =~= Set::<AeronConfigModel>::empty());
            assert(refused_among(start.lost_among(0), restarts) =~= Set::empty());
        }
        while i < self.groups.keys.len()
            invariant
                start == *old(self),
                start.groups.wf(),
                start.groups.keys@.len() > 0 ==> self.factory is Some,
                start.stats.registration_failures + keys.len() <= u64::MAX,
                keys == start.groups.keys@,
                i <= keys.len(),
                self.groups.keys@ == keys,
                self.groups.values@.len() == keys.len(),
                self.enabled == start.enabled,
                start.factory is Some ==> self.factory is Some,
                self.client_groups == start.client_groups,
                self.subscriptions == start.subscriptions,
                self.routes == start.routes,
                self.market_groups == start.market_groups,
                forall|j: int|
                    i <= j < keys.len() ==> #[trigger] self.groups.values@[j]
                        == start.groups.values@[j],
                forall|j: int|
                    #![trigger self.groups.values@[j]]
                    0 <= j < i ==> if (start.groups.values@[j].publication@ is Unavailable) {
                        restarted(
                            start.groups.values@[j],
                            self.groups.values@[j],
                            now,
                            restarts[keys[j]@],
                        )
                    } else {
                        self.groups.values@[j] == start.groups.values@[j]
                    },
                appended_once(start.started(), self.started(), start.lost_among(i as int)),
                forall|key: AeronConfigModel|
                    start.lost_among(i as int).contains(key) ==> F::may_begin(
                        key,
                        #[trigger] restarts[key],
                    ),
                start.lost_among(i as int).finite(),
                self.stats == (AeronPublisherStats {
                    registration_failures: self.stats.registration_failures,
                    ..start.stats
                }),
                self.stats.registration_failures == start.stats.registration_failures
                    + refused_among(start.lost_among(i as int), restarts).len(),
                refused_among(start.lost_among(i as int), restarts).len() <= i,
            decreases keys.len() - i,
        {
            let ghost key = keys[i as int]@;
            let ghost known = restarts;
            let ghost fewer = start.lost_among(i as int);
            proof {
                start.groups.lemma_entry(i as int);
                lemma_fresh_key(keys, i as int);
                assert forall|other: AeronConfigModel| start.lost_among(i + 1).contains(other) == (
                fewer.contains(other) || (other == key
                    && start.groups.values@[i as int].publication@ is Unavailable)) by {
                    lemma_take_next(keys, i as int, other);
                }
            }
            if self.groups.values[i].publication.is_unavailable() {
                assert(start.lost_among(i + 1).contains(key)) by {
                    lemma_take_next(keys, i as int, key);
                    assert(start.groups@[key].publication@ is Unavailable);
                    assert(lost(start.groups@).contains(key));
                }
                let stream: &StreamKey = &self.groups.keys[i];
                let ghost asked = self.started();
                let outcome: Result<StreamPublication<F>, String> = match &mut self.factory {
                    Some(factory) => factory.begin(&stream.channel, stream.stream_id, now),
                    None => Err("".to_owned()),
                };
                let ghost seen = begun(outcome);
                proof {
                    lemma_appended_next(start.started(), asked, fewer, key);
                    restarts = restarts.insert(key, seen);
                    lemma_refused_next(fewer, known, key, seen);
                    assert(start.lost_among(i + 1) =~= fewer.insert(key));
                }
                match outcome {
                    Ok(publication) => {
                        self.groups.values[i].publication.replace(publication);
                        assert(self.groups.values@[i as int].publication.offers()
                            =~= start.groups.values@[i as int].publication.offers());
                    },
                    Err(_) => {
                        self.stats.registration_failures += 1;
                    },
                }
                proof {
                    assert forall|j: int|
                        #![trigger self.groups.values@[j]]
                        0 <= j < i + 1 implies if (
                    start.groups.values@[j].publication@ is Unavailable) {
                        restarted(
                            start.groups.values@[j],
                            self.groups.values@[j],
                            now,
                            restarts[keys[j]@],
                        )
                    } else {
                        self.groups.values@[j] == start.groups.values@[j]
                    } by {
                        if j < i {
                            assert(keys[j]@ != keys[i as int]@);
                        }
                    }
                }
            } else {
                proof {
                    assert(start.lost_among(i + 1) =~= fewer);
                }
            }
            i += 1;
        }
        proof {
            assert(keys.take(i as int) =~= keys);
            assert(start.lost_among(i as int) =~= lost(start.groups@));
            assert forall|key: AeronConfigModel| #[trigger]
                start.groups@.contains_key(key) implies if lost(start.groups@).contains(key) {
                restarted(start.groups@[key], self.groups@[key], now, restarts[key])
            } else {
                self.groups@[key] == start.groups@[key]
            } by {
                let at = start.groups.lemma_position(key);
                self.groups.lemma_entry(at);
                assert(self.groups.values@[at] == self.groups@[key]);
            }
        }
        Ghost(restarts)
    }

    /// Advances every publication that is not ready, without waiting for any. Clients whose
    /// wait is over are told so; those who have waited in vain are let go. A publication
    /// that was lost is started again as long as its group has members.
    pub fn do_work_at(&mut self, now: u128) -> (completions: Vec<JoinCompletion>)
        requires
            old(self).wf(),
            old(self).can_count_work(),
        ensures
            final(self).wf(),
            !old(self).work_pending ==> completions@.len() == 0 && *final(self) == *old(self),
            old(self).work_pending ==> exists|
                settlements: Map<AeronConfigModel, Settlement<F::Publication>>,
                restarts: Map<AeronConfigModel, Result<F::Registration, String>>,
            |
                #[trigger] old(self).worked(*final(self), now, settlements, restarts)
                    && old(self).all_told(settlements, completions@),
    {
        if !self.work_pending {
            return Vec::new();
        }
        let (completions, any_failed, Ghost(settlements)) = self.settle_all(now);
        let ghost settled_state = *self;
        proof {
            lemma_models_len(self.groups.keys@);
            assert(old(self).groups.keys@.len() > 0) by {
                let key = choose|key: AeronConfigModel| #[trigger]
                    old(self).groups@.contains_key(key) && !(
                    old(self).groups@[key].publication@ is Ready);
                assert(old(self).groups@.contains_key(key));
                let at = old(self).groups.lemma_position(key);
            }
        }
        drop_empty_groups(&mut self.groups);
        let ghost dropped_state = *self;
        let Ghost(restarts) = self.restart_all(now);
        self.work_pending = any_unready(&self.groups);
        proof {
            let start = *old(self);
            assert forall|key: AeronConfigModel| #[trigger]
                settled_state.groups@.contains_key(key) == start.groups@.contains_key(key) by {
                assert(settled_state.groups@.contains_key(key) == has_key(
                    settled_state.groups.keys@,
                    key,
                ));
            }
            assert forall|key: AeronConfigModel| #[trigger]
                self.groups@.contains_key(key) == dropped_state.groups@.contains_key(key) by {
                assert(self.groups@.contains_key(key) == has_key(self.groups.keys@, key));
            }
            assert forall|key: AeronConfigModel| #[trigger]
                start.groups@.contains_key(key) implies (
            settled_state.groups@[key].members.items@.len() > 0) == start.survives(
                settlements,
                key,
            ) by {
                lemma_some_left(
                    start.groups@[key],
                    settled_state.groups@[key],
                    now,
                    settlements[key],
                );
            }
            let restarting = Set::new(|key: AeronConfigModel| start.restarts(settlements, key));
            assert forall|key: AeronConfigModel|
                lost(dropped_state.groups@).contains(key) == restarting.contains(key) by {
                assert(settled_state.groups@.contains_key(key)
                    == start.groups@.contains_key(key));
                assert(dropped_state.groups@.contains_key(key) ==> settled_state.groups@.contains_key(
                    key,
                ));
                if restarting.contains(key) {
                    assert(start.restarts(settlements, key));
                    assert(dropped_state.groups@.contains_key(key));
                    assert(settled_state.groups@[key].publication@ is Unavailable);
                }
            }
            assert(lost(dropped_state.groups@) =~= restarting);
            assert forall|key: AeronConfigModel|
                start.restarts(settlements, key) implies F::may_begin(
                key,
                #[trigger] restarts[key],
            ) by {
                assert(lost(dropped_state.groups@).contains(key));
            }
            assert forall|key: AeronConfigModel| #[trigger]
                self.groups@.contains_key(key) implies self.groups@[key].wf() && self.groups@[key].members@
                == settled_members(start.groups@[key], settlements[key])
                && self.groups@[key].waiters@ == settled_waiters(
                start.groups@[key],
                settlements[key],
            ) && self.groups@[key].publication@ == start.worked_publication(
                now,
                settlements,
                restarts,
                key,
            ) && looked_at(start.groups@[key].publication, self.groups@[key].publication, now) by {
                assert(dropped_state.groups@.contains_key(key));
                assert(settled_state.groups@.contains_key(key));
                assert(start.groups@.contains_key(key));
                assert(lost(dropped_state.groups@).contains(key) == start.restarts(
                    settlements,
                    key,
                ));
            }
            self.lemma_worked_membership(start, settlements);
            assert forall|client_id: u64| #[trigger]
                self.client_groups@.contains_key(client_id) implies self.subscriptions@[client_id]
                == start.subscriptions@[client_id] by {
                assert(self.subscriptions@.contains_key(client_id));
            }
            assert(start.worked(*self, now, settlements, restarts));
        }
        if any_failed {
            self.rebuild_routes();
        } else {
            proof {
                old(self).lemma_routes_kept(*self, settlements);
            }
        }
        proof {
            assert(old(self).worked(*self, now, settlements, restarts));
        }
        completions
    }

    /// Advances every publication that is not ready: see `do_work_at`.
    pub fn progress_registration(&mut self, now: u128) -> (completions: Vec<JoinCompletion>)
        requires
            old(self).wf(),
            old(self).can_count_work(),
        ensures
            final(self).wf(),
            !old(self).work_pending ==> completions@.len() == 0 && *final(self) == *old(self),
            old(self).work_pending ==> exists|
                settlements: Map<AeronConfigModel, Settlement<F::Publication>>,
                restarts: Map<AeronConfigModel, Result<F::Registration, String>>,
            |
                #[trigger] old(self).worked(*final(self), now, settlements, restarts)
                    && old(self).all_told(settlements, completions@),
    {
        self.do_work_at(now)
    }

    /// The work leaves every client in the group that lists it.
    proof fn lemma_worked_membership(
        self,
        start: AeronPublisher<F>,
        settlements: Map<AeronConfigModel, Settlement<F::Publication>>,
    )
        requires
            start.wf(),
            forall|key: AeronConfigModel| #[trigger]
                self.groups@.contains_key(key) <==> start.groups@.contains_key(key)
                    && start.survives(settlements, key),
            forall|key: AeronConfigModel| #[trigger]
                self.groups@.contains_key(key) ==> self.groups@[key].wf()
                    && self.groups@[key].members@ == settled_members(
                    start.groups@[key],
                    settlements[key],
                ),
            forall|client_id: u64| #[trigger]
                self.client_groups@.contains_key(client_id) <==> start.client_groups@.contains_key(
                    client_id,
                ) && !start.gone(settlements, client_id),
            forall|client_id: u64| #[trigger]
                self.subscriptions@.contains_key(client_id) <==> start.client_groups@.contains_key(
                    client_id,
                ) && !start.gone(settlements, client_id),
            forall|client_id: u64| #[trigger]
                self.client_groups@.contains_key(client_id) ==> self.client_groups@[client_id]
                    == start.client_groups@[client_id],
            forall|client_id: u64| #[trigger]
                self.subscriptions@.contains_key(client_id) ==> self.subscriptions@[client_id]
                    == start.subscriptions@[client_id],
        ensures
            membership(self.groups@, self.client_groups@, self.subscriptions@),
    {
        assert forall|client: u64| #[trigger]
            self.client_groups@.contains_key(client) implies self.groups@.contains_key(
            self.client_groups@[client]@,
        ) && self.groups@[self.client_groups@[client]@].members@.contains(client) by {
            let key = start.client_groups@[client]@;
            assert(start.client_groups@.contains_key(client));
            assert(start.groups@.contains_key(key));
            assert(start.groups@[key].members@.contains(client));
            assert(!start.gone(settlements, client));
            assert(settled_members(start.groups@[key], settlements[key]).contains(client));
            assert(start.survives(settlements, key));
            assert(self.groups@.contains_key(key));
        }
        assert forall|client: u64| #[trigger]
            self.subscriptions@.contains_key(client) implies self.subscriptions@[client].wf() by {
            assert(start.client_groups@.contains_key(client));
            assert(start.subscriptions@.contains_key(client));
        }
        assert forall|key: AeronConfigModel, client: u64|
            self.groups@.contains_key(key) && #[trigger] self.groups@[key].members@.contains(
                client,
            ) implies self.client_groups@.contains_key(client) && self.client_groups@[client]@
            == key by {
            assert(start.groups@.contains_key(key));
            assert(start.groups@[key].members@.contains(client));
            assert(start.client_groups@.contains_key(client));
            assert(!start.gone(settlements, client));
            assert(self.client_groups@.contains_key(client));
        }
    }

    /// Where nobody has waited in vain, the tables stay right.
    proof fn lemma_routes_kept(
        self,
        after: AeronPublisher<F>,
        settlements: Map<AeronConfigModel, Settlement<F::Publication>>,
    )
        requires
            self.wf(),
            failed_among(self.groups@.dom(), settlements).len() == 0,
            after.routes == self.routes,
            after.market_groups == self.market_groups,
            membership(after.groups@, after.client_groups@, after.subscriptions@),
            forall|key: AeronConfigModel| #[trigger]
                after.groups@.contains_key(key) <==> self.groups@.contains_key(key)
                    && self.survives(settlements, key),
            forall|key: AeronConfigModel| #[trigger]
                after.groups@.contains_key(key) ==> after.groups@[key].members@ == settled_members(
                    self.groups@[key],
                    settlements[key],
                ),
            forall|client_id: u64| #[trigger]
                after.subscriptions@.contains_key(client_id) <==> self.client_groups@.contains_key(
                    client_id,
                ) && !self.gone(settlements, client_id),
            forall|client_id: u64| #[trigger]
                after.subscriptions@.contains_key(client_id) ==> after.subscriptions@[client_id]
                    == self.subscriptions@[client_id],
        ensures
            after.routed(),
    {
        let failed = failed_among(self.groups@.dom(), settlements);
        assert forall|key: AeronConfigModel| #[trigger]
            self.groups@.contains_key(key) implies !(settlements[key] is Failed) by {
            if settlements[key] is Failed {
                lemma_models_len(self.groups.keys@);
                assert(models(self.groups.keys@) =~= self.groups@.dom());
                vstd::set_lib::lemma_len_subset(failed, self.groups@.dom());
                assert(failed.contains(key));
                assert(failed.remove(key).len() == failed.len() - 1);
            }
        }
        assert forall|client_id: u64| #[trigger]
            self.client_groups@.contains_key(client_id) implies !self.gone(
            settlements,
            client_id,
        ) by {
            assert(self.groups@.contains_key(self.client_groups@[client_id]@));
        }
        assert(after.subscriptions@ =~= self.subscriptions@);
        assert forall|key: AeronConfigModel| #[trigger] after.groups@.contains_key(key)
            == self.groups@.contains_key(key) by {
            assert(self.groups@.contains_key(key) ==> !(settlements[key] is Failed));
        }
        assert forall|route: RouteModel, key: AeronConfigModel| #[trigger]
            targets(after.routes, route, key) <==> after.wants(key, route) by {
            assert(targets(self.routes, route, key) <==> self.wants(key, route));
            assert(after.groups@.contains_key(key) == self.groups@.contains_key(key));
        }
        assert forall|market: i32, key: AeronConfigModel| #[trigger]
            targets(after.market_groups, market, key) <==> after.wants_market(key, market) by {
            assert(targets(self.market_groups, market, key) <==> self.wants_market(key, market));
            assert(after.groups@.contains_key(key) == self.groups@.contains_key(key));
        }
    }
}

/// A group that has settled has members, unless all of them have waited in vain.
proof fn lemma_some_left<F: PublicationFactory>(
    before: StreamGroup<F>,
    after: StreamGroup<F>,
    now: u128,
    settlement: Settlement<F::Publication>,
)
    requires
        before.wf(),
        settled(before, after, now, settlement),
    ensures
        (after.members.items@.len() > 0) == !(settlement is Failed && before.members@
            == before.waiters@),
        after.members.items@.len() > 0 ==> after.wf(),
{
    let first = before.members.items@[0];
    assert(has_key(before.members.items@, first));
    assert(before.members@.contains(first));
    if after.members.items@.len() > 0 {
        let left = after.members.items@[0];
        assert(has_key(after.members.items@, left));
        assert(after.members@.contains(left));
    } else {
        assert(after.members@ =~= Set::<u64>::empty());
        if settlement is Failed {
            assert forall|client: u64| before.members@.contains(client) implies before.waiters@.contains(
            client,
        ) by {
                assert(!after.members@.contains(client));
            }
            assert(before.members@ =~= before.waiters@);
        }
    }
    if settlement is Failed && before.members@ == before.waiters@ {
        assert(after.members@ =~= Set::<u64>::empty());
    }
}

/// What a client has subscribed to goes to its stream, and so does the status of the
/// market, whether the publication of the stream is ready or not.
pub proof fn law_subscribers_are_routed<F: PublicationFactory>(
    publisher: AeronPublisher<F>,
    client_id: u64,
    key: KeyModel,
)
    requires
        publisher.wf(),
        publisher.client_groups@.contains_key(client_id),
        publisher.subscriptions@[client_id]@.contains(key),
    ensures
        publisher.wants(
            publisher.client_groups@[client_id]@,
            RouteModel { id: key.id, stream: key.stream },
        ),
        publisher.wants_market(publisher.client_groups@[client_id]@, key.id),
{
    let stream = publisher.client_groups@[client_id]@;
    let route = RouteModel { id: key.id, stream: key.stream };
    assert(publisher.groups@.contains_key(stream));
    assert(publisher.groups@[stream].members@.contains(client_id));
    assert(publisher.subscriptions@.contains_key(client_id));
    assert(key.routes(route.id, route.stream));
    assert(subscribed(publisher.subscriptions@[client_id]@, route));
    assert(subscribed_market(publisher.subscriptions@[client_id]@, key.id));
}

/// A frame goes to a stream only if one of the stream's clients has subscribed to it.
pub proof fn law_streams_carry_only_what_is_wanted<F: PublicationFactory>(
    publisher: AeronPublisher<F>,
    id: i32,
    stream: &str,
    destination: AeronConfigModel,
)
    requires
        publisher.wf(),
        publisher.destinations(AeronRoute::Stream { id, stream }).contains(destination),
    ensures
        exists|client_id: u64, key: KeyModel|
            {
                &&& publisher.client_groups@.contains_key(client_id)
                &&& publisher.client_groups@[client_id]@ == destination
                &&& #[trigger] publisher.subscriptions@[client_id]@.contains(key)
                &&& #[trigger] key.routes(id, stream@)
            },
{
    let route = RouteModel { id, stream: stream@ };
    assert(publisher.wants(destination, route));
    let members = publisher.groups@[destination].members@;
    let client_id = choose|client: u64| #[trigger]
        members.contains(client) && publisher.subscriptions@.contains_key(client) && subscribed(
            publisher.subscriptions@[client]@,
            route,
        );
    let key = choose|key: KeyModel| #[trigger]
        publisher.subscriptions@[client_id]@.contains(key) && key.routes(route.id, route.stream);
    assert(publisher.groups@[destination].members@.contains(client_id));
    assert(publisher.subscriptions@[client_id]@.contains(key));
    assert(key.routes(id, stream@));
}

/// Work never loses a client that does not wait in vain, and a stream is dropped only with
/// all its members.
pub proof fn law_work_keeps_clients_that_do_not_fail<F: PublicationFactory>(
    before: AeronPublisher<F>,
    after: AeronPublisher<F>,
    now: u128,
    settlements: Map<AeronConfigModel, Settlement<F::Publication>>,
    restarts: Map<AeronConfigModel, Result<F::Registration, String>>,
    client_id: u64,
)
    requires
        before.wf(),
        before.worked(after, now, settlements, restarts),
        before.client_groups@.contains_key(client_id),
    ensures
        !after.client_groups@.contains_key(client_id) ==> before.groups@[
            before.client_groups@[client_id]@
        ].waiters@.contains(client_id),
        after.client_groups@.contains_key(client_id) ==> after.groups@.contains_key(
            before.client_groups@[client_id]@,
        ),
        before.groups@[before.client_groups@[client_id]@].publication@ is Ready
            ==> after.client_groups@.contains_key(client_id),
{
    let key = before.client_groups@[client_id]@;
    let group = before.groups@[key];
    assert(before.groups@.contains_key(key));
    assert(group.members@.contains(client_id));
    assert(may_find(group.publication@, now, settlements[key]));
    assert(after.client_groups@.contains_key(client_id) <==> !before.gone(settlements, client_id));
    if after.client_groups@.contains_key(client_id) {
        if settlements[key] is Failed && group.members@ == group.waiters@ {
            assert(before.gone(settlements, client_id));
        }
        assert(before.survives(settlements, key));
        assert(after.groups@.contains_key(key));
    }
}

} // verus!
