//! Which Aeron streams carry which market data.
use vstd::prelude::*;
use vstd::string::*;
use crate::collections::{
    distinct, has_key, index_of, lemma_remove_key, position, SameKey, VecMap, VecSet,
};
use crate::protocol::{
    AeronChannel, AeronConfig, AeronConfigModel, ControlOperation, ControlRequest, KeyModel,
    RequestModel, SubscriptionKey,
};
use crate::text::same_text;

verus! {

/// Tells one Aeron stream from another.
#[derive(Debug, PartialEq, Eq, Hash)]
pub struct StreamKey {
    pub channel: AeronChannel,
    pub stream_id: i32,
}

impl View for StreamKey {
    type V = AeronConfigModel;

    open spec fn view(&self) -> AeronConfigModel {
        AeronConfigModel { aeron_channel: self.channel@, stream_id: self.stream_id }
    }
}

impl Clone for StreamKey {
    fn clone(&self) -> (copy: StreamKey)
        ensures
            copy == *self,
    {
        StreamKey { channel: self.channel.clone(), stream_id: self.stream_id }
    }
}

impl SameKey for StreamKey {
    fn same(&self, other: &StreamKey) -> (same: bool) {
        if self.stream_id != other.stream_id {
            return false;
        }
        match (&self.channel, &other.channel) {
            (AeronChannel::Ipc, AeronChannel::Ipc) => true,
            (
                AeronChannel::Udp { host, port },
                AeronChannel::Udp { host: other_host, port: other_port },
            ) => *port == *other_port && *host == *other_host,
            _ => false,
        }
    }
}

impl StreamKey {
    /// The stream that a configuration opens.
    pub fn of_config(config: AeronConfig) -> (key: StreamKey)
        ensures
            key@ == config@,
    {
        StreamKey { channel: config.aeron_channel, stream_id: config.stream_id }
    }
}

/// A stream of one market.
#[derive(Debug, PartialEq, Eq)]
pub struct Route {
    pub id: i32,
    pub stream: String,
}

/// The contents of a [`Route`].
#[verifier::ext_equal]
pub struct RouteModel {
    pub id: i32,
    pub stream: Seq<char>,
}

impl View for Route {
    type V = RouteModel;

    open spec fn view(&self) -> RouteModel {
        RouteModel { id: self.id, stream: self.stream@ }
    }
}

impl Clone for Route {
    fn clone(&self) -> (copy: Route)
        ensures
            copy == *self,
    {
        Route { id: self.id, stream: self.stream.clone() }
    }
}

impl SameKey for Route {
    fn same(&self, other: &Route) -> (same: bool) {
        self.id == other.id && self.stream == other.stream
    }
}

/// Where a route stands among others.
pub fn route_position(routes: &Vec<Route>, id: i32, stream: &str) -> (found: Option<usize>)
    ensures
        match found {
            Some(at) => at < routes@.len() && routes@[at as int]@ == (RouteModel {
                id,
                stream: stream@,
            }),
            None => !has_key(routes@, RouteModel { id, stream: stream@ }),
        },
{
    let mut i: usize = 0;
    while i < routes.len()
        invariant
            i <= routes@.len(),
            forall|j: int|
                0 <= j < i ==> (#[trigger] routes@[j])@ != (RouteModel { id, stream: stream@ }),
        decreases routes@.len() - i,
    {
        if routes[i].id == id && same_text(routes[i].stream.as_str(), stream) {
            assert(routes@[i as int]@ =~= RouteModel { id, stream: stream@ });
            return Some(i);
        }
        i += 1;
    }
    None
}

/// The table sends what stands for `model` to the stream `target`.
pub open spec fn targets<K: View>(
    table: VecMap<K, Vec<StreamKey>>,
    model: K::V,
    target: AeronConfigModel,
) -> bool {
    table@.contains_key(model) && has_key(table@[model]@, target)
}

/// Every entry of the table names at least one stream, and none twice.
pub open spec fn table_wf<K: View>(table: VecMap<K, Vec<StreamKey>>) -> bool {
    &&& table.wf()
    &&& forall|model: K::V| #[trigger]
        table@.contains_key(model) ==> table@[model]@.len() > 0 && distinct(table@[model]@)
}

/// Sends what `at` stands for to one more stream.
pub fn add_target<K: SameKey>(table: &mut VecMap<K, Vec<StreamKey>>, at: K, target: &StreamKey)
    requires
        table_wf(*old(table)),
    ensures
        table_wf(*final(table)),
        forall|model: K::V, other: AeronConfigModel| #[trigger]
            targets(*final(table), model, other) <==> targets(*old(table), model, other) || (model
                == at@ && other == target@),
{
    let ghost before = *table;
    match position(&table.keys, &at) {
        Some(found) => {
            proof {
                table.lemma_entry(found as int);
            }
            if position(&table.values[found], target).is_some() {
                return;
            }
            proof {
                crate::collections::lemma_update_value(*table, found as int);
            }
            let ghost listed = table.values@[found as int]@;
            table.values[found].push(target.clone());
            proof {
                let now = table.values@[found as int];
                assert(table.values@ =~= before.values@.update(found as int, now));
                assert(table@ == before@.insert(at@, now));
                lemma_pushed(listed, *target);
                assert(now@ == listed.push(*target));
            }
        },
        None => {
            let mut only: Vec<StreamKey> = Vec::with_capacity(1);
            only.push(target.clone());
            let ghost one = only;
            table.insert(at, only);
            proof {
                lemma_pushed(Seq::empty(), *target);
                assert(one@ =~= Seq::<StreamKey>::empty().push(*target));
            }
        },
    }
}

/// Adding one stream that was not listed lists it, and nothing else.
proof fn lemma_pushed(listed: Seq<StreamKey>, target: StreamKey)
    requires
        distinct(listed),
        !has_key(listed, target@),
    ensures
        distinct(listed.push(target)),
        forall|other: AeronConfigModel| #[trigger]
            has_key(listed.push(target), other) <==> has_key(listed, other) || other == target@,
{
    let longer = listed.push(target);
    assert forall|i: int, j: int| 0 <= i < j < longer.len() implies (#[trigger] longer[i])@ != (
    #[trigger] longer[j])@ by {
        assert(longer[i] == listed[i]);
        if j == listed.len() {
            assert(has_key(listed, listed[i]@));
        }
    }
    assert forall|other: AeronConfigModel| #[trigger]
        has_key(longer, other) <==> has_key(listed, other) || other == target@ by {
        if has_key(listed, other) {
            assert(longer[index_of(listed, other)]@ == other);
        }
        if other == target@ {
            assert(longer[listed.len() as int]@ == other);
        }
        if has_key(longer, other) {
            let i = index_of(longer, other);
            if i < listed.len() {
                assert(listed[i]@ == other);
            }
        }
    }
}

/// One of the subscriptions is to the route.
pub open spec fn subscribed(subscriptions: Set<KeyModel>, route: RouteModel) -> bool {
    exists|key: KeyModel| #[trigger]
        subscriptions.contains(key) && key.routes(route.id, route.stream)
}

/// One of the subscriptions is to some stream of the market.
pub open spec fn subscribed_market(subscriptions: Set<KeyModel>, market_id: i32) -> bool {
    exists|key: KeyModel| #[trigger] subscriptions.contains(key) && key.id == market_id
}

/// One of the members has subscribed to the route.
pub open spec fn members_want(
    members: Set<u64>,
    subscriptions: Map<u64, VecSet<SubscriptionKey>>,
    route: RouteModel,
) -> bool {
    exists|client: u64| #[trigger]
        members.contains(client) && subscriptions.contains_key(client) && subscribed(
            subscriptions[client]@,
            route,
        )
}

/// One of the members has subscribed to some stream of the market.
pub open spec fn members_want_market(
    members: Set<u64>,
    subscriptions: Map<u64, VecSet<SubscriptionKey>>,
    market_id: i32,
) -> bool {
    exists|client: u64| #[trigger]
        members.contains(client) && subscriptions.contains_key(client) && subscribed_market(
            subscriptions[client]@,
            market_id,
        )
}

/// Sends everything that the subscriptions want to one stream.
fn add_subscriptions(
    routes: &mut VecMap<Route, Vec<StreamKey>>,
    markets: &mut VecMap<i32, Vec<StreamKey>>,
    target: &StreamKey,
    subscriptions: &VecSet<SubscriptionKey>,
)
    requires
        table_wf(*old(routes)),
        table_wf(*old(markets)),
    ensures
        table_wf(*final(routes)),
        table_wf(*final(markets)),
        forall|route: RouteModel, other: AeronConfigModel| #[trigger]
            targets(*final(routes), route, other) <==> targets(*old(routes), route, other) || (other
                == target@ && subscribed(subscriptions@, route)),
        forall|market: i32, other: AeronConfigModel| #[trigger]
            targets(*final(markets), market, other) <==> targets(*old(markets), market, other) || (
            other == target@ && subscribed_market(subscriptions@, market)),
{
    let items: &Vec<SubscriptionKey> = &subscriptions.items;
    let ghost old_routes = *routes;
    let ghost old_markets = *markets;
    let mut i: usize = 0;
    while i < items.len()
        invariant
            i <= items@.len(),
            table_wf(*routes),
            table_wf(*markets),
            forall|route: RouteModel, other: AeronConfigModel| #[trigger]
                targets(*routes, route, other) <==> targets(old_routes, route, other) || (other
                    == target@ && subscribed_among(items@, i as int, route)),
            forall|market: i32, other: AeronConfigModel| #[trigger]
                targets(*markets, market, other) <==> targets(old_markets, market, other) || (other
                    == target@ && subscribed_market_among(items@, i as int, market)),
        decreases items@.len() - i,
    {
        let ghost routes_before = *routes;
        let ghost markets_before = *markets;
        let item: &SubscriptionKey = &items[i];
        let route = Route { id: item.id, stream: item.stream.clone() };
        let ghost added = route@;
        add_target(routes, route, target);
        add_target(markets, item.id, target);
        proof {
            assert forall|route: RouteModel, other: AeronConfigModel| #[trigger]
                targets(*routes, route, other) <==> targets(old_routes, route, other) || (other
                    == target@ && subscribed_among(items@, i + 1, route)) by {
                assert(targets(*routes, route, other) <==> targets(routes_before, route, other) || (
                route == added && other == target@));
                lemma_among_next(items@, i as int, route);
            }
            assert forall|market: i32, other: AeronConfigModel| #[trigger]
                targets(*markets, market, other) <==> targets(old_markets, market, other) || (other
                    == target@ && subscribed_market_among(items@, i + 1, market)) by {
                assert(targets(*markets, market, other) <==> targets(markets_before, market, other)
                    || (market == item.id && other == target@));
                lemma_market_among_next(items@, i as int, market);
            }
        }
        i += 1;
    }
    proof {
        assert forall|route: RouteModel| subscribed_among(items@, i as int, route) == subscribed(
            subscriptions@,
            route,
        ) by {
            lemma_among_all(*subscriptions, route);
        }
        assert forall|market: i32|
            subscribed_market_among(items@, i as int, market) == subscribed_market(
                subscriptions@,
                market,
            ) by {
            lemma_market_among_all(*subscriptions, market);
        }
    }
}

spec fn subscribed_among(items: Seq<SubscriptionKey>, count: int, route: RouteModel) -> bool {
    exists|i: int| 0 <= i < count && (#[trigger] items[i])@.routes(route.id, route.stream)
}

spec fn subscribed_market_among(items: Seq<SubscriptionKey>, count: int, market: i32) -> bool {
    exists|i: int| 0 <= i < count && (#[trigger] items[i])@.id == market
}

proof fn lemma_among_next(items: Seq<SubscriptionKey>, count: int, route: RouteModel)
    requires
        0 <= count < items.len(),
    ensures
        subscribed_among(items, count + 1, route) == (subscribed_among(items, count, route) || (
        RouteModel { id: items[count].id, stream: items[count].stream@ }) == route),
{
    if subscribed_among(items, count, route) {
        let i = choose|i: int|
            0 <= i < count && (#[trigger] items[i])@.routes(route.id, route.stream);
        assert(items[i]@.routes(route.id, route.stream));
    }
    if (RouteModel { id: items[count].id, stream: items[count].stream@ }) == route {
        assert(items[count]@.routes(route.id, route.stream));
    }
}

proof fn lemma_market_among_next(items: Seq<SubscriptionKey>, count: int, market: i32)
    requires
        0 <= count < items.len(),
    ensures
        subscribed_market_among(items, count + 1, market) == (subscribed_market_among(
            items,
            count,
            market,
        ) || items[count].id == market),
{
    if subscribed_market_among(items, count, market) {
        let i = choose|i: int| 0 <= i < count && (#[trigger] items[i])@.id == market;
        assert(items[i]@.id == market);
    }
    if items[count].id == market {
        assert(items[count]@.id == market);
    }
}

proof fn lemma_among_all(subscriptions: VecSet<SubscriptionKey>, route: RouteModel)
    ensures
        subscribed_among(subscriptions.items@, subscriptions.items@.len() as int, route)
            == subscribed(subscriptions@, route),
{
    let items = subscriptions.items@;
    if subscribed_among(items, items.len() as int, route) {
        let i = choose|i: int|
            0 <= i < items.len() && (#[trigger] items[i])@.routes(route.id, route.stream);
        assert(subscriptions@.contains(items[i]@));
    }
    if subscribed(subscriptions@, route) {
        let key = choose|key: KeyModel| #[trigger]
            subscriptions@.contains(key) && key.routes(route.id, route.stream);
        assert(items[index_of(items, key)]@ == key);
    }
}

proof fn lemma_market_among_all(subscriptions: VecSet<SubscriptionKey>, market: i32)
    ensures
        subscribed_market_among(subscriptions.items@, subscriptions.items@.len() as int, market)
            == subscribed_market(subscriptions@, market),
{
    let items = subscriptions.items@;
    if subscribed_market_among(items, items.len() as int, market) {
        let i = choose|i: int| 0 <= i < items.len() && (#[trigger] items[i])@.id == market;
        assert(subscriptions@.contains(items[i]@));
    }
    if subscribed_market(subscriptions@, market) {
        let key = choose|key: KeyModel| #[trigger]
            subscriptions@.contains(key) && key.id == market;
        assert(items[index_of(items, key)]@ == key);
    }
}

spec fn members_among_want(
    members: Seq<u64>,
    count: int,
    subscriptions: Map<u64, VecSet<SubscriptionKey>>,
    route: RouteModel,
) -> bool {
    exists|i: int|
        0 <= i < count && subscriptions.contains_key(#[trigger] members[i]) && subscribed(
            subscriptions[members[i]]@,
            route,
        )
}

spec fn members_among_want_market(
    members: Seq<u64>,
    count: int,
    subscriptions: Map<u64, VecSet<SubscriptionKey>>,
    market: i32,
) -> bool {
    exists|i: int|
        0 <= i < count && subscriptions.contains_key(#[trigger] members[i]) && subscribed_market(
            subscriptions[members[i]]@,
            market,
        )
}

/// Sends everything that the members want to one stream.
pub fn add_members(
    routes: &mut VecMap<Route, Vec<StreamKey>>,
    markets: &mut VecMap<i32, Vec<StreamKey>>,
    target: &StreamKey,
    members: &VecSet<u64>,
    subscriptions: &VecMap<u64, VecSet<SubscriptionKey>>,
)
    requires
        table_wf(*old(routes)),
        table_wf(*old(markets)),
        subscriptions.wf(),
    ensures
        table_wf(*final(routes)),
        table_wf(*final(markets)),
        forall|route: RouteModel, other: AeronConfigModel| #[trigger]
            targets(*final(routes), route, other) <==> targets(*old(routes), route, other) || (other
                == target@ && members_want(members@, subscriptions@, route)),
        forall|market: i32, other: AeronConfigModel| #[trigger]
            targets(*final(markets), market, other) <==> targets(*old(markets), market, other) || (
            other == target@ && members_want_market(members@, subscriptions@, market)),
{
    let items: &Vec<u64> = &members.items;
    let ghost old_routes = *routes;
    let ghost old_markets = *markets;
    let mut i: usize = 0;
    while i < items.len()
        invariant
            i <= items@.len(),
            subscriptions.wf(),
            table_wf(*routes),
            table_wf(*markets),
            forall|route: RouteModel, other: AeronConfigModel| #[trigger]
                targets(*routes, route, other) <==> targets(old_routes, route, other) || (other
                    == target@ && members_among_want(items@, i as int, subscriptions@, route)),
            forall|market: i32, other: AeronConfigModel| #[trigger]
                targets(*markets, market, other) <==> targets(old_markets, market, other) || (other
                    == target@ && members_among_want_market(
                    items@,
                    i as int,
                    subscriptions@,
                    market,
                )),
        decreases items@.len() - i,
    {
        let ghost routes_before = *routes;
        let ghost markets_before = *markets;
        let ghost mut wants: Option<VecSet<SubscriptionKey>> = None;
        match subscriptions.get(&items[i]) {
            Some(wanted) => {
                add_subscriptions(routes, markets, target, wanted);
                proof {
                    wants = Some(*wanted);
                }
            },
            None => {},
        }
        proof {
            let client = items@[i as int];
            assert forall|route: RouteModel, other: AeronConfigModel| #[trigger]
                targets(*routes, route, other) <==> targets(old_routes, route, other) || (other
                    == target@ && members_among_want(items@, i + 1, subscriptions@, route)) by {
                assert(targets(*routes, route, other) <==> targets(routes_before, route, other) || (
                wants is Some && other == target@ && subscribed(wants->0@, route)));
                if members_among_want(items@, i as int, subscriptions@, route) {
                    let j = choose|j: int|
                        0 <= j < i && subscriptions@.contains_key(#[trigger] items@[j])
                            && subscribed(subscriptions@[items@[j]]@, route);
                    assert(subscriptions@.contains_key(items@[j]));
                }
                if wants is Some && subscribed(wants->0@, route) {
                    assert(subscriptions@.contains_key(items@[i as int]));
                }
            }
            assert forall|market: i32, other: AeronConfigModel| #[trigger]
                targets(*markets, market, other) <==> targets(old_markets, market, other) || (other
                    == target@ && members_among_want_market(
                    items@,
                    i + 1,
                    subscriptions@,
                    market,
                )) by {
                assert(targets(*markets, market, other) <==> targets(markets_before, market, other)
                    || (wants is Some && other == target@ && subscribed_market(wants->0@, market)));
                if members_among_want_market(items@, i as int, subscriptions@, market) {
                    let j = choose|j: int|
                        0 <= j < i && subscriptions@.contains_key(#[trigger] items@[j])
                            && subscribed_market(subscriptions@[items@[j]]@, market);
                    assert(subscriptions@.contains_key(items@[j]));
                }
                if wants is Some && subscribed_market(wants->0@, market) {
                    assert(subscriptions@.contains_key(items@[i as int]));
                }
            }
        }
        i += 1;
    }
    proof {
        assert forall|route: RouteModel|
            members_among_want(items@, i as int, subscriptions@, route) == members_want(
                members@,
                subscriptions@,
                route,
            ) by {
            if members_among_want(items@, i as int, subscriptions@, route) {
                let j = choose|j: int|
                    0 <= j < i && subscriptions@.contains_key(#[trigger] items@[j]) && subscribed(
                        subscriptions@[items@[j]]@,
                        route,
                    );
                assert(members@.contains(items@[j]@));
            }
            if members_want(members@, subscriptions@, route) {
                let client = choose|client: u64| #[trigger]
                    members@.contains(client) && subscriptions@.contains_key(client) && subscribed(
                        subscriptions@[client]@,
                        route,
                    );
                assert(items@[index_of(items@, client)]@ == client);
            }
        }
        assert forall|market: i32|
            members_among_want_market(items@, i as int, subscriptions@, market)
                == members_want_market(members@, subscriptions@, market) by {
            if members_among_want_market(items@, i as int, subscriptions@, market) {
                let j = choose|j: int|
                    0 <= j < i && subscriptions@.contains_key(#[trigger] items@[j])
                        && subscribed_market(subscriptions@[items@[j]]@, market);
                assert(members@.contains(items@[j]@));
            }
            if members_want_market(members@, subscriptions@, market) {
                let client = choose|client: u64| #[trigger]
                    members@.contains(client) && subscriptions@.contains_key(client)
                        && subscribed_market(subscriptions@[client]@, market);
                assert(items@[index_of(items@, client)]@ == client);
            }
        }
    }
}

/// The request names the key's identifier and stream, at whatever threshold.
pub open spec fn drops(request: RequestModel, key: KeyModel) -> bool {
    exists|named: KeyModel| #[trigger]
        request.names(named) && key.routes(named.id, named.stream)
}

/// The subscriptions after a request: subscribing adds what is named, unsubscribing drops
/// what is named at any threshold, and fetching again changes nothing.
pub open spec fn changed(subscriptions: Set<KeyModel>, request: RequestModel) -> Set<KeyModel> {
    match request.op {
        ControlOperation::Subscribe => Set::new(
            |key: KeyModel| subscriptions.contains(key) || request.names(key),
        ),
        ControlOperation::Unsubscribe => Set::new(
            |key: KeyModel| subscriptions.contains(key) && !drops(request, key),
        ),
        ControlOperation::RefetchBbo => subscriptions,
    }
}

/// Whether some key has this identifier and stream.
fn names_route(keys: &Vec<SubscriptionKey>, id: i32, stream: &String) -> (named: bool)
    ensures
        named == exists|i: int|
            0 <= i < keys@.len() && id == (#[trigger] keys@[i])@.id && stream@
                == keys@[i]@.stream,
{
    let mut i: usize = 0;
    while i < keys.len()
        invariant
            i <= keys@.len(),
            forall|j: int|
                0 <= j < i ==> !(id == (#[trigger] keys@[j])@.id && stream@ == keys@[j]@.stream),
        decreases keys@.len() - i,
    {
        if keys[i].id == id && keys[i].stream == *stream {
            assert(keys@[i as int]@.id == id);
            return true;
        }
        i += 1;
    }
    false
}

/// Changes subscriptions as a request asks.
pub fn change_subscriptions(
    subscriptions: &mut VecSet<SubscriptionKey>,
    request: &ControlRequest,
)
    requires
        old(subscriptions).wf(),
    ensures
        final(subscriptions).wf(),
        final(subscriptions)@ == changed(old(subscriptions)@, request@),
{
    let ghost before = subscriptions@;
    match request.op {
        ControlOperation::Subscribe => {
            let keys: Vec<SubscriptionKey> = request.keys();
            let mut i: usize = 0;
            while i < keys.len()
                invariant
                    i <= keys@.len(),
                    subscriptions.wf(),
                    forall|key: KeyModel| #[trigger]
                        subscriptions@.contains(key) <==> before.contains(key) || has_key(
                            keys@.take(i as int),
                            key,
                        ),
                decreases keys@.len() - i,
            {
                let ghost earlier = subscriptions@;
                subscriptions.insert(keys[i].clone());
                proof {
                    assert forall|key: KeyModel| #[trigger]
                        subscriptions@.contains(key) <==> before.contains(key) || has_key(
                            keys@.take(i + 1),
                            key,
                        ) by {
                        lemma_take_next(keys@, i as int, key);
                        assert(earlier.contains(key) <==> before.contains(key) || has_key(
                            keys@.take(i as int),
                            key,
                        ));
                    }
                }
                i += 1;
            }
            assert(keys@.take(i as int) =~= keys@);
            assert(subscriptions@ =~= changed(before, request@));
        },
        ControlOperation::Unsubscribe => {
            let keys: Vec<SubscriptionKey> = request.keys();
            let mut i: usize = 0;
            while i < subscriptions.items.len()
                invariant
                    i <= subscriptions.items@.len(),
                    subscriptions.wf(),
                    forall|key: KeyModel| has_key(keys@, key) <==> request@.names(key),
                    forall|j: int|
                        0 <= j < i ==> !drops(request@, (#[trigger] subscriptions.items@[j])@),
                    forall|key: KeyModel| #[trigger]
                        subscriptions@.contains(key) ==> before.contains(key),
                    forall|key: KeyModel| #[trigger]
                        before.contains(key) && !drops(request@, key) ==> subscriptions@.contains(
                            key,
                        ),
                decreases subscriptions.items@.len() - i,
            {
                let item: &SubscriptionKey = &subscriptions.items[i];
                let ghost at = item@;
                let dropped: bool = names_route(&keys, item.id, &item.stream);
                proof {
                    assert(dropped == drops(request@, at)) by {
                        if dropped {
                            let j = choose|j: int|
                                0 <= j < keys@.len() && at.id == (#[trigger] keys@[j])@.id
                                    && at.stream == keys@[j]@.stream;
                            assert(has_key(keys@, keys@[j]@));
                            assert(request@.names(keys@[j]@));
                        }
                        if drops(request@, at) {
                            let named = choose|named: KeyModel| #[trigger]
                                request@.names(named) && at.routes(named.id, named.stream);
                            assert(has_key(keys@, named));
                            assert(keys@[index_of(keys@, named)]@ == named);
                        }
                    }
                }
                if dropped {
                    let ghost earlier = *subscriptions;
                    let ghost items = subscriptions.items@;
                    subscriptions.items.remove(i);
                    proof {
                        lemma_remove_key(items, i as int);
                        assert forall|key: KeyModel| #[trigger]
                            subscriptions@.contains(key) implies before.contains(key) by {
                            assert(has_key(items, key));
                            assert(earlier@.contains(key));
                        }
                        assert forall|key: KeyModel| #[trigger]
                            before.contains(key) && !drops(
                                request@,
                                key,
                            ) implies subscriptions@.contains(key) by {
                            assert(earlier@.contains(key));
                        }
                    }
                } else {
                    i += 1;
                }
            }
            proof {
                assert forall|key: KeyModel| subscriptions@.contains(key) <==> changed(
                    before,
                    request@,
                ).contains(key) by {
                    if subscriptions@.contains(key) {
                        let j = index_of(subscriptions.items@, key);
                        assert(subscriptions.items@[j]@ == key);
                    }
                }
                assert(subscriptions@ =~= changed(before, request@));
            }
        },
        ControlOperation::RefetchBbo => {},
    }
}

/// The first keys together with the next one.
pub proof fn lemma_take_next<K: View>(keys: Seq<K>, count: int, model: K::V)
    requires
        0 <= count < keys.len(),
    ensures
        has_key(keys.take(count + 1), model) <==> has_key(keys.take(count), model) || model
            == keys[count]@,
{
    let fewer = keys.take(count);
    let more = keys.take(count + 1);
    if has_key(fewer, model) {
        assert(more[index_of(fewer, model)]@ == model);
    }
    if model == keys[count]@ {
        assert(more[count]@ == model);
    }
    if has_key(more, model) {
        let i = index_of(more, model);
        if i < count {
            assert(fewer[i]@ == model);
        }
    }
}

/// Subscribing twice is subscribing once, and unsubscribing takes back what subscribing
/// added where nothing of it was subscribed before.
pub proof fn law_unsubscribing_undoes_subscribing(
    subscriptions: Set<KeyModel>,
    subscribe: RequestModel,
    unsubscribe: RequestModel,
)
    requires
        subscribe.op == ControlOperation::Subscribe,
        unsubscribe.op == ControlOperation::Unsubscribe,
        subscribe.args == unsubscribe.args,
        forall|key: KeyModel| subscriptions.contains(key) ==> !drops(subscribe, key),
    ensures
        changed(changed(subscriptions, subscribe), subscribe) == changed(subscriptions, subscribe),
        changed(changed(subscriptions, subscribe), unsubscribe) == subscriptions,
{
    let more = changed(subscriptions, subscribe);
    assert forall|key: KeyModel| subscribe.names(key) == unsubscribe.names(key) by {}
    assert forall|key: KeyModel| drops(subscribe, key) == drops(unsubscribe, key) by {
        if drops(subscribe, key) {
            let named = choose|named: KeyModel| #[trigger]
                subscribe.names(named) && key.routes(named.id, named.stream);
            assert(unsubscribe.names(named));
        }
        if drops(unsubscribe, key) {
            let named = choose|named: KeyModel| #[trigger]
                unsubscribe.names(named) && key.routes(named.id, named.stream);
            assert(subscribe.names(named));
        }
    }
    assert forall|key: KeyModel| subscribe.names(key) implies drops(subscribe, key) by {
        assert(key.routes(key.id, key.stream));
    }
    assert(changed(more, subscribe) =~= more);
    assert(changed(more, unsubscribe) =~= subscriptions);
}

/// After unsubscribing, no threshold of what was named is left.
pub proof fn law_unsubscribing_drops_every_threshold(
    subscriptions: Set<KeyModel>,
    request: RequestModel,
    key: KeyModel,
)
    requires
        request.op == ControlOperation::Unsubscribe,
        request.names(key),
    ensures
        !subscribed(changed(subscriptions, request), RouteModel { id: key.id, stream: key.stream }),
{
    let route = RouteModel { id: key.id, stream: key.stream };
    if subscribed(changed(subscriptions, request), route) {
        let other = choose|other: KeyModel| #[trigger]
            changed(subscriptions, request).contains(other) && other.routes(
                route.id,
                route.stream,
            );
        assert(drops(request, other));
    }
}

} // verus!
