//! The client-side filter of shared data streams.
//!
//! WebSocket and UDP sessions carry what one client has asked for, but an Aeron stream
//! carries what any of its members has asked for. Every client that filters what it
//! receives sees the same data on every transport.
use vstd::prelude::*;
use vstd::string::*;
use crate::codec::{WireMessage, WireMessageModel};
use crate::collections::{has_key, index_of, VecMap};
use crate::float64::Float64;
use crate::protocol::{
    canonical, lemma_key_less_irreflexive, lemma_key_less_transitive, ControlOperation,
    ControlRequest, KeyModel, RequestModel, SubscriptionKey,
};
use crate::routes::{changed, drops, route_position, subscribed, Route, RouteModel};
use crate::text::{decimal, decimal_text};

verus! {

/// After this many nanoseconds a quote is passed on even if its prices have hardly moved.
pub const BBO_REFRESH_INTERVAL: u128 = 1_000_000_000;

/// The prices of a frame that noise is measured by.
#[derive(Debug, Clone, Copy, PartialEq, Eq, Structural)]
pub enum FilteredPrice {
    Bbo { bid: Float64, ask: Float64 },
    Trade(Float64),
}

/// A noise threshold and what was last passed on.
#[derive(Debug, Clone, Copy, PartialEq, Eq, Structural)]
pub struct NoiseFilter {
    pub threshold_bps: Float64,
    pub last_published: Option<FilteredPrice>,
    pub last_published_at: Option<u128>,
}

/// Whether a price may be found to have moved, where `reaches` tests the ratio.
///
/// A price that has not moved at all counts only where every frame is wanted, and a move
/// that has no ratio always counts.
pub open spec fn may_move<R: Fn(Float64, Float64, Float64) -> bool>(
    reaches: R,
    previous: Float64,
    current: Float64,
    threshold_bps: Float64,
    outcome: bool,
) -> bool {
    if previous.num_eq(current) {
        outcome == threshold_bps.zero()
    } else if !previous.finite() || !current.finite() || previous.zero() {
        outcome
    } else {
        call_ensures(reaches, (previous, current, threshold_bps), outcome)
    }
}

/// Whether a price has moved by at least `threshold_bps` hundredths of a percent.
///
/// `reaches` tells whether the move from the first price to the second, in hundredths of a
/// percent of the first, is at least the third number.
pub fn price_moved_bps<R: Fn(Float64, Float64, Float64) -> bool>(
    previous: Float64,
    current: Float64,
    threshold_bps: Float64,
    reaches: &R,
) -> (outcome: bool)
    requires
        forall|a: Float64, b: Float64, c: Float64| call_requires(*reaches, (a, b, c)),
    ensures
        may_move(*reaches, previous, current, threshold_bps, outcome),
{
    if previous.equals(&current) {
        return threshold_bps.is_zero();
    }
    if !previous.is_finite() || !current.is_finite() || previous.is_zero() {
        return true;
    }
    reaches(previous, current, threshold_bps)
}

impl NoiseFilter {
    /// A filter that has passed nothing on.
    pub open spec fn fresh(threshold_bps: Float64) -> NoiseFilter {
        NoiseFilter { threshold_bps, last_published: None, last_published_at: None }
    }

    /// A quote was last passed on so long ago that the next one is passed on in any case.
    pub open spec fn stale(self, now: u128) -> bool {
        self.last_published_at is Some && now - self.last_published_at->0 >= BBO_REFRESH_INTERVAL
    }

    /// Whether a price may be passed on.
    pub open spec fn may_allow<R: Fn(Float64, Float64, Float64) -> bool>(
        self,
        reaches: R,
        current: FilteredPrice,
        now: u128,
        allowed: bool,
    ) -> bool {
        match (self.last_published, current) {
            (
                Some(FilteredPrice::Bbo { bid: previous_bid, ask: previous_ask }),
                FilteredPrice::Bbo { bid, ask },
            ) => if allowed {
                ||| may_move(reaches, previous_bid, bid, self.threshold_bps, true)
                ||| may_move(reaches, previous_ask, ask, self.threshold_bps, true)
                ||| self.stale(now)
            } else {
                &&& may_move(reaches, previous_bid, bid, self.threshold_bps, false)
                &&& may_move(reaches, previous_ask, ask, self.threshold_bps, false)
                &&& !self.stale(now)
            },
            (Some(FilteredPrice::Trade(previous)), FilteredPrice::Trade(price)) => may_move(
                reaches,
                previous,
                price,
                self.threshold_bps,
                allowed,
            ),
            _ => allowed,
        }
    }

    /// The filter after a price was passed on or held back.
    pub open spec fn after(self, current: FilteredPrice, now: u128, allowed: bool) -> NoiseFilter {
        if allowed {
            NoiseFilter {
                threshold_bps: self.threshold_bps,
                last_published: Some(current),
                last_published_at: Some(now),
            }
        } else {
            self
        }
    }

    pub fn new(threshold_bps: Float64) -> (filter: NoiseFilter)
        ensures
            filter == NoiseFilter::fresh(threshold_bps),
    {
        NoiseFilter { threshold_bps, last_published: None, last_published_at: None }
    }

    /// Whether a price is passed on; the filter then measures against it.
    pub fn allows<R: Fn(Float64, Float64, Float64) -> bool>(
        &mut self,
        current: FilteredPrice,
        now: u128,
        reaches: &R,
    ) -> (allowed: bool)
        requires
            forall|a: Float64, b: Float64, c: Float64| call_requires(*reaches, (a, b, c)),
        ensures
            old(self).may_allow(*reaches, current, now, allowed),
            *final(self) == old(self).after(current, now, allowed),
            !allowed ==> *final(self) == *old(self),
            allowed ==> final(self).last_published == Some(current)
                && final(self).last_published_at == Some(now),
            old(self).last_published is None ==> allowed,
    {
        let allowed: bool = match (self.last_published, current) {
            (
                Some(FilteredPrice::Bbo { bid: previous_bid, ask: previous_ask }),
                FilteredPrice::Bbo { bid, ask },
            ) => {
                price_moved_bps(previous_bid, bid, self.threshold_bps, reaches) || price_moved_bps(
                    previous_ask,
                    ask,
                    self.threshold_bps,
                    reaches,
                ) || match self.last_published_at {
                    Some(last) => now >= last && now - last >= BBO_REFRESH_INTERVAL,
                    None => false,
                }
            },
            (Some(FilteredPrice::Trade(previous)), FilteredPrice::Trade(price)) => {
                price_moved_bps(previous, price, self.threshold_bps, reaches)
            },
            _ => true,
        };
        if allowed {
            self.last_published = Some(current);
            self.last_published_at = Some(now);
        }
        allowed
    }
}

/// The noise filter that a subscription starts with.
pub open spec fn fresh_filter(threshold: Option<Float64>) -> Option<NoiseFilter> {
    match threshold {
        Some(threshold) => Some(NoiseFilter::fresh(threshold)),
        None => None,
    }
}

/// The route that a key subscribes to.
pub open spec fn route_of(key: KeyModel) -> RouteModel {
    RouteModel { id: key.id, stream: key.stream }
}

/// Subscriptions of one client and the noise filters of those that have a threshold.
pub struct FrameFilter {
    pub routes: VecMap<Route, Option<NoiseFilter>>,
}

/// What a client makes of a frame.
pub enum FrameClass {
    /// No frame of the link.
    Unknown,
    /// The status of a market.
    Status { market_id: i32 },
    /// A frame of a stream of one market.
    Data { route: RouteModel, price: Option<FilteredPrice> },
}

/// What bytes are to a client.
pub open spec fn classified(bytes: Seq<u8>) -> FrameClass {
    match WireMessageModel::decoded(bytes) {
        Err(_) => FrameClass::Unknown,
        Ok(WireMessageModel::Other(_)) => FrameClass::Unknown,
        Ok(WireMessageModel::Status(status)) => FrameClass::Status { market_id: status.market_id },
        Ok(WireMessageModel::Bbo(bbo)) => FrameClass::Data {
            route: RouteModel { id: bbo.market_id, stream: "bbo"@ },
            price: Some(FilteredPrice::Bbo { bid: bbo.bid, ask: bbo.ask }),
        },
        Ok(WireMessageModel::Trade(trade)) => FrameClass::Data {
            route: RouteModel { id: trade.market_id, stream: "trades"@ },
            price: Some(FilteredPrice::Trade(trade.price)),
        },
        Ok(WireMessageModel::OrderBook(book)) => FrameClass::Data {
            route: RouteModel {
                id: book.market_id,
                stream: "orderbook."@ + decimal(book.depth as nat),
            },
            price: None,
        },
        Ok(WireMessageModel::FeatureBbo(feature)) => FrameClass::Data {
            route: RouteModel { id: feature.feature_id, stream: "feature"@ },
            price: Some(FilteredPrice::Bbo { bid: feature.bid, ask: feature.ask }),
        },
    }
}

impl FrameFilter {
    pub open spec fn wf(self) -> bool {
        self.routes.wf()
    }

    /// The client follows some stream of the market.
    pub open spec fn follows(self, market_id: i32) -> bool {
        exists|route: RouteModel| #[trigger]
            self.routes@.contains_key(route) && route.id == market_id
    }

    /// Whether a frame may be passed on.
    pub open spec fn may_accept<R: Fn(Float64, Float64, Float64) -> bool>(
        self,
        reaches: R,
        bytes: Seq<u8>,
        now: u128,
        accepted: bool,
    ) -> bool {
        match classified(bytes) {
            FrameClass::Unknown => !accepted,
            FrameClass::Status { market_id } => accepted == self.follows(market_id),
            FrameClass::Data { route, price } => if !self.routes@.contains_key(route) {
                !accepted
            } else {
                match (self.routes@[route], price) {
                    (Some(filter), Some(price)) => filter.may_allow(reaches, price, now, accepted),
                    _ => accepted,
                }
            },
        }
    }

    /// The subscriptions after a frame: a status starts the noise filters of its market
    /// anew, and a price that is passed on is what the next one is measured against.
    pub open spec fn after_frame(self, bytes: Seq<u8>, now: u128, accepted: bool) -> Map<
        RouteModel,
        Option<NoiseFilter>,
    > {
        match classified(bytes) {
            FrameClass::Unknown => self.routes@,
            FrameClass::Status { market_id } => self.routes@.map_entries(
                |route: RouteModel, filter: Option<NoiseFilter>|
                    if route.id == market_id && filter is Some {
                        Some(NoiseFilter::fresh(filter->0.threshold_bps))
                    } else {
                        filter
                    },
            ),
            FrameClass::Data { route, price } => if !self.routes@.contains_key(route) {
                self.routes@
            } else {
                match (self.routes@[route], price) {
                    (Some(filter), Some(price)) => self.routes@.insert(
                        route,
                        Some(filter.after(price, now, accepted)),
                    ),
                    _ => self.routes@,
                }
            },
        }
    }

    /// A filter that passes nothing on.
    pub fn new() -> (filter: FrameFilter)
        ensures
            filter.wf(),
            filter.routes@ == Map::<RouteModel, Option<NoiseFilter>>::empty(),
    {
        FrameFilter { routes: VecMap::new() }
    }

    /// Subscribes to one key.
    fn insert(&mut self, key: &SubscriptionKey)
        requires
            old(self).wf(),
        ensures
            final(self).wf(),
            final(self).routes@ == old(self).routes@.insert(
                route_of(key@),
                fresh_filter(key@.threshold()),
            ),
    {
        let filter: Option<NoiseFilter> = match key.noise_filter_bps() {
            Some(threshold) => Some(NoiseFilter::new(threshold)),
            None => None,
        };
        let route = Route { id: key.id, stream: key.stream.clone() };
        assert(route@ =~= route_of(key@));
        self.routes.insert(route, filter);
    }

    /// The last key among the first `count` that subscribes to the route.
    pub open spec fn last_for(keys: Seq<SubscriptionKey>, count: int, route: RouteModel) -> Option<
        KeyModel,
    >
        decreases count,
    {
        if count <= 0 {
            None
        } else if route_of(keys[count - 1]@) == route {
            Some(keys[count - 1]@)
        } else {
            FrameFilter::last_for(keys, count - 1, route)
        }
    }

    /// Subscriptions after several keys were added: of two keys for one route the later
    /// one counts.
    pub open spec fn added(
        before: Map<RouteModel, Option<NoiseFilter>>,
        keys: Seq<SubscriptionKey>,
        count: int,
    ) -> Map<RouteModel, Option<NoiseFilter>> {
        Map::new(
            |route: RouteModel|
                before.contains_key(route) || FrameFilter::last_for(keys, count, route) is Some,
            |route: RouteModel|
                match FrameFilter::last_for(keys, count, route) {
                    Some(key) => fresh_filter(key.threshold()),
                    None => before[route],
                },
        )
    }

    fn insert_all(&mut self, keys: &Vec<SubscriptionKey>)
        requires
            old(self).wf(),
        ensures
            final(self).wf(),
            final(self).routes@ == FrameFilter::added(
                old(self).routes@,
                keys@,
                keys@.len() as int,
            ),
    {
        let ghost before = self.routes@;
        let mut i: usize = 0;
        assert(self.routes@ =~= FrameFilter::added(before, keys@, 0));
        while i < keys.len()
            invariant
                self.wf(),
                i <= keys@.len(),
                self.routes@ == FrameFilter::added(before, keys@, i as int),
            decreases keys@.len() - i,
        {
            self.insert(&keys[i]);
            assert(self.routes@ =~= FrameFilter::added(before, keys@, i + 1));
            i += 1;
        }
    }

    /// Replaces the subscriptions: of two keys for one route the later one counts.
    pub fn replace_subscriptions(&mut self, subscriptions: &Vec<SubscriptionKey>)
        requires
            old(self).wf(),
        ensures
            final(self).wf(),
            final(self).routes@ == FrameFilter::added(
                Map::empty(),
                subscriptions@,
                subscriptions@.len() as int,
            ),
    {
        self.routes = VecMap::new();
        self.insert_all(subscriptions);
    }

    /// The request names the route, at this threshold and at no higher one.
    pub open spec fn wins(request: RequestModel, route: RouteModel, key: KeyModel) -> bool {
        &&& request.names(key)
        &&& route_of(key) == route
        &&& forall|other: KeyModel| #[trigger]
            request.names(other) && route_of(other) == route ==> !key.less(other)
    }

    /// The request names the route.
    pub open spec fn names_route(request: RequestModel, route: RouteModel) -> bool {
        exists|key: KeyModel| #[trigger] request.names(key) && route_of(key) == route
    }

    /// What a request makes of the routes. Of several thresholds for one route the highest
    /// counts. A route that is subscribed anew starts its noise filter anew.
    pub open spec fn applied(
        before: Map<RouteModel, Option<NoiseFilter>>,
        after: Map<RouteModel, Option<NoiseFilter>>,
        request: RequestModel,
    ) -> bool {
        match request.op {
            ControlOperation::Subscribe => {
                &&& forall|route: RouteModel| #[trigger]
                    after.contains_key(route) <==> before.contains_key(route)
                        || FrameFilter::names_route(request, route)
                &&& forall|route: RouteModel| #[trigger]
                    after.contains_key(route) ==> if FrameFilter::names_route(request, route) {
                        exists|key: KeyModel| #[trigger]
                            FrameFilter::wins(request, route, key) && after[route]
                                == fresh_filter(key.threshold())
                    } else {
                        after[route] == before[route]
                    }
            },
            ControlOperation::Unsubscribe => after == before.remove_keys(
                Set::new(|route: RouteModel| FrameFilter::names_route(request, route)),
            ),
            ControlOperation::RefetchBbo => after == before,
        }
    }

    /// Changes the subscriptions as a request asks.
    pub fn apply(&mut self, request: &ControlRequest)
        requires
            old(self).wf(),
        ensures
            final(self).wf(),
            FrameFilter::applied(old(self).routes@, final(self).routes@, request@),
            request.op == ControlOperation::RefetchBbo ==> *final(self) == *old(self),
    {
        match request.op {
            ControlOperation::Subscribe => {
                let keys: Vec<SubscriptionKey> = request.keys();
                self.insert_all(&keys);
                proof {
                    assert forall|route: RouteModel| #[trigger]
                        self.routes@.contains_key(route) implies if FrameFilter::names_route(
                        request@,
                        route,
                    ) {
                        exists|key: KeyModel| #[trigger]
                            FrameFilter::wins(request@, route, key) && self.routes@[route]
                                == fresh_filter(key.threshold())
                    } else {
                        self.routes@[route] == old(self).routes@[route]
                    } by {
                        lemma_last_wins(request@, keys@, route);
                    }
                    assert forall|route: RouteModel| #[trigger]
                        self.routes@.contains_key(route) <==> old(self).routes@.contains_key(route)
                            || FrameFilter::names_route(request@, route) by {
                        lemma_last_wins(request@, keys@, route);
                    }
                }
            },
            ControlOperation::Unsubscribe => {
                let keys: Vec<SubscriptionKey> = request.keys();
                let ghost before = self.routes@;
                let mut i: usize = 0;
                assert(self.routes@ =~= before.remove_keys(routes_among(keys@, 0)));
                while i < keys.len()
                    invariant
                        self.wf(),
                        i <= keys@.len(),
                        self.routes@ == before.remove_keys(routes_among(keys@, i as int)),
                    decreases keys@.len() - i,
                {
                    let route = Route { id: keys[i].id, stream: keys[i].stream.clone() };
                    self.routes.remove(&route);
                    proof {
                        assert(route@ =~= route_of(keys@[i as int]@));
                        assert forall|other: RouteModel| #[trigger]
                            routes_among(keys@, i + 1).contains(other) == (routes_among(
                                keys@,
                                i as int,
                            ).contains(other) || other == route@) by {
                            if routes_among(keys@, i as int).contains(other) {
                                let j = choose|j: int|
                                    0 <= j < i && route_of((#[trigger] keys@[j])@) == other;
                                assert(route_of(keys@[j]@) == other);
                            }
                            if other == route@ {
                                assert(route_of(keys@[i as int]@) == other);
                            }
                        }
                        assert(self.routes@ =~= before.remove_keys(routes_among(keys@, i + 1)));
                    }
                    i += 1;
                }
                proof {
                    let named = Set::new(
                        |route: RouteModel| FrameFilter::names_route(request@, route),
                    );
                    assert forall|route: RouteModel| #[trigger]
                        routes_among(keys@, i as int).contains(route) == named.contains(route) by {
                        if routes_among(keys@, i as int).contains(route) {
                            let j = choose|j: int|
                                0 <= j < i && route_of((#[trigger] keys@[j])@) == route;
                            assert(has_key(keys@, keys@[j]@));
                            assert(request@.names(keys@[j]@));
                        }
                        if FrameFilter::names_route(request@, route) {
                            let key = choose|key: KeyModel| #[trigger]
                                request@.names(key) && route_of(key) == route;
                            assert(has_key(keys@, key));
                            assert(route_of(keys@[index_of(keys@, key)]@) == route);
                        }
                    }
                    assert(routes_among(keys@, i as int) =~= named);
                }
            },
            ControlOperation::RefetchBbo => {},
        }
    }

    /// Whether a frame is one that the client has asked for and not noise.
    pub fn accepts_at<R: Fn(Float64, Float64, Float64) -> bool>(
        &mut self,
        bytes: &[u8],
        now: u128,
        reaches: &R,
    ) -> (accepted: bool)
        requires
            old(self).wf(),
            forall|a: Float64, b: Float64, c: Float64| call_requires(*reaches, (a, b, c)),
        ensures
            final(self).wf(),
            old(self).may_accept(*reaches, bytes@, now, accepted),
            final(self).routes@ == old(self).after_frame(bytes@, now, accepted),
    {
        let message: WireMessage = match WireMessage::decode(bytes) {
            Ok(message) => message,
            Err(_) => {
                return false;
            },
        };
        match message {
            WireMessage::Status(status) => self.accept_status(status.market_id, Ghost(bytes@), now),
            WireMessage::Bbo(bbo) => self.accept_route(
                bbo.market_id,
                "bbo",
                Some(FilteredPrice::Bbo { bid: bbo.bid, ask: bbo.ask }),
                now,
                reaches,
                Ghost(bytes@),
            ),
            WireMessage::Trade(trade) => self.accept_route(
                trade.market_id,
                "trades",
                Some(FilteredPrice::Trade(trade.price)),
                now,
                reaches,
                Ghost(bytes@),
            ),
            WireMessage::OrderBook(book) => {
                let mut stream: String = "orderbook.".to_owned();
                let digits: String = decimal_text(book.depth as u64);
                stream.append(digits.as_str());
                self.accept_route(
                    book.market_id,
                    stream.as_str(),
                    None,
                    now,
                    reaches,
                    Ghost(bytes@),
                )
            },
            WireMessage::FeatureBbo(feature) => self.accept_route(
                feature.feature_id,
                "feature",
                Some(FilteredPrice::Bbo { bid: feature.bid, ask: feature.ask }),
                now,
                reaches,
                Ghost(bytes@),
            ),
            WireMessage::Other(_) => false,
        }
    }

    /// Whether a frame is one that the client has asked for and not noise.
    pub fn accepts<R: Fn(Float64, Float64, Float64) -> bool>(
        &mut self,
        bytes: &[u8],
        now: u128,
        reaches: &R,
    ) -> (accepted: bool)
        requires
            old(self).wf(),
            forall|a: Float64, b: Float64, c: Float64| call_requires(*reaches, (a, b, c)),
        ensures
            final(self).wf(),
            old(self).may_accept(*reaches, bytes@, now, accepted),
            final(self).routes@ == old(self).after_frame(bytes@, now, accepted),
    {
        self.accepts_at(bytes, now, reaches)
    }

    /// Whether a price of a route is passed on.
    fn accept_route<R: Fn(Float64, Float64, Float64) -> bool>(
        &mut self,
        id: i32,
        stream: &str,
        price: Option<FilteredPrice>,
        now: u128,
        reaches: &R,
        Ghost(bytes): Ghost<Seq<u8>>,
    ) -> (accepted: bool)
        requires
            old(self).wf(),
            classified(bytes) == (FrameClass::Data {
                route: RouteModel { id, stream: stream@ },
                price,
            }),
            forall|a: Float64, b: Float64, c: Float64| call_requires(*reaches, (a, b, c)),
        ensures
            final(self).wf(),
            old(self).may_accept(*reaches, bytes, now, accepted),
            final(self).routes@ == old(self).after_frame(bytes, now, accepted),
    {
        let ghost route = RouteModel { id, stream: stream@ };
        let ghost before = self.routes;
        match route_position(&self.routes.keys, id, stream) {
            None => false,
            Some(at) => {
                proof {
                    before.lemma_entry(at as int);
                    crate::collections::lemma_update_value(before, at as int);
                }
                match (self.routes.values[at], price) {
                    (Some(filter), Some(price)) => {
                        let mut filter: NoiseFilter = filter;
                        let allowed: bool = filter.allows(price, now, reaches);
                        self.routes.values[at] = Some(filter);
                        proof {
                            assert(self.routes.values@ =~= before.values@.update(
                                at as int,
                                Some(filter),
                            ));
                            assert(self.routes@ == before@.insert(route, Some(filter)));
                        }
                        allowed
                    },
                    _ => true,
                }
            },
        }
    }

    /// Whether the status of a market is passed on; if so, its noise filters start anew.
    fn accept_status(&mut self, market_id: i32, Ghost(bytes): Ghost<Seq<u8>>, now: u128) -> (
    accepted: bool)
        requires
            old(self).wf(),
            classified(bytes) == (FrameClass::Status { market_id }),
        ensures
            final(self).wf(),
            accepted == old(self).follows(market_id),
            final(self).routes@ == old(self).after_frame(bytes, now, accepted),
    {
        let ghost before = self.routes;
        let ghost after = old(self).after_frame(bytes, now, true);
        let mut followed: bool = false;
        let mut i: usize = 0;
        while i < self.routes.keys.len()
            invariant
                before.wf(),
                before == old(self).routes,
                self.routes.keys@ == before.keys@,
                self.routes.values@.len() == before.values@.len(),
                i <= before.keys@.len(),
                followed == exists|j: int|
                    0 <= j < i && (#[trigger] before.keys@[j])@.id == market_id,
                forall|j: int|
                    0 <= j < i ==> #[trigger] self.routes.values@[j] == (if before.keys@[j]@.id
                        == market_id && before.values@[j] is Some {
                        Some(NoiseFilter::fresh(before.values@[j]->0.threshold_bps))
                    } else {
                        before.values@[j]
                    }),
                forall|j: int|
                    i <= j < before.keys@.len() ==> #[trigger] self.routes.values@[j]
                        == before.values@[j],
            decreases before.keys@.len() - i,
        {
            if self.routes.keys[i].id == market_id {
                followed = true;
                assert(before.keys@[i as int]@.id == market_id);
                if let Some(filter) = self.routes.values[i] {
                    self.routes.values[i] = Some(NoiseFilter::new(filter.threshold_bps));
                }
            }
            i += 1;
        }
        proof {
            assert(followed == old(self).follows(market_id)) by {
                if followed {
                    let j = choose|j: int|
                        0 <= j < i && (#[trigger] before.keys@[j])@.id == market_id;
                    before.lemma_entry(j);
                    assert(before@.contains_key(before.keys@[j]@));
                }
                if old(self).follows(market_id) {
                    let route = choose|route: RouteModel| #[trigger]
                        before@.contains_key(route) && route.id == market_id;
                    let j = before.lemma_position(route);
                    assert(before.keys@[j]@.id == market_id);
                }
            }
            assert forall|route: RouteModel| #[trigger]
                self.routes@.contains_key(route) implies self.routes@[route] == after[route] by {
                let at = self.routes.lemma_position(route);
                before.lemma_entry(at);
                assert(self.routes.values@[at] == self.routes@[route]);
            }
            assert(self.routes@ =~= after);
        }
        followed
    }
}

/// The routes of the first keys.
pub open spec fn routes_among(keys: Seq<SubscriptionKey>, count: int) -> Set<RouteModel> {
    Set::new(
        |route: RouteModel|
            exists|i: int| 0 <= i < count && route_of((#[trigger] keys[i])@) == route,
    )
}

/// In the canonical order the last key of a route is the one with the highest threshold.
proof fn lemma_last_wins(request: RequestModel, keys: Seq<SubscriptionKey>, route: RouteModel)
    requires
        canonical(keys),
        forall|key: KeyModel| has_key(keys, key) <==> request.names(key),
    ensures
        match FrameFilter::last_for(keys, keys.len() as int, route) {
            Some(key) => FrameFilter::wins(request, route, key) && FrameFilter::names_route(
                request,
                route,
            ),
            None => !FrameFilter::names_route(request, route),
        },
{
    lemma_last_for(keys, keys.len() as int, route);
    match FrameFilter::last_for(keys, keys.len() as int, route) {
        Some(key) => {
            assert(has_key(keys, key));
            assert(request.names(key));
            let at = choose|at: int|
                0 <= at < keys.len() && (#[trigger] keys[at])@ == key && (forall|j: int|
                    at < j < keys.len() ==> route_of((#[trigger] keys[j])@) != route);
            assert forall|other: KeyModel| #[trigger]
                request.names(other) && route_of(other) == route implies !key.less(other) by {
                assert(has_key(keys, other));
                let j = index_of(keys, other);
                assert(keys[j]@ == other);
                if j < at {
                    assert(keys[j]@.less(keys[at]@));
                    if key.less(other) {
                        lemma_key_less_transitive(key, other, key);
                        lemma_key_less_irreflexive(key);
                    }
                } else {
                    assert(j == at);
                    lemma_key_less_irreflexive(key);
                }
            }
        },
        None => {
            if FrameFilter::names_route(request, route) {
                let key = choose|key: KeyModel| #[trigger]
                    request.names(key) && route_of(key) == route;
                assert(has_key(keys, key));
                assert(route_of(keys[index_of(keys, key)]@) == route);
            }
        },
    }
}

/// Where the last key of a route stands.
proof fn lemma_last_for(keys: Seq<SubscriptionKey>, count: int, route: RouteModel)
    requires
        0 <= count <= keys.len(),
    ensures
        match FrameFilter::last_for(keys, count, route) {
            Some(key) => route_of(key) == route && exists|at: int|
                0 <= at < count && (#[trigger] keys[at])@ == key && (forall|j: int|
                    at < j < count ==> route_of((#[trigger] keys[j])@) != route),
            None => forall|j: int| 0 <= j < count ==> route_of((#[trigger] keys[j])@) != route,
        },
    decreases count,
{
    if count > 0 {
        if route_of(keys[count - 1]@) == route {
            assert(keys[count - 1]@ == keys[count - 1]@);
        } else {
            lemma_last_for(keys, count - 1, route);
            if FrameFilter::last_for(keys, count - 1, route) is Some {
                let key = FrameFilter::last_for(keys, count - 1, route)->0;
                let at = choose|at: int|
                    0 <= at < count - 1 && (#[trigger] keys[at])@ == key && (forall|j: int|
                        at < j < count - 1 ==> route_of((#[trigger] keys[j])@) != route);
                assert(keys[at]@ == key);
            }
        }
    }
}

/// What the client has not asked for is held back, and so is what is no frame of the link.
pub proof fn law_unwanted_frames_are_held_back<R: Fn(Float64, Float64, Float64) -> bool>(
    filter: FrameFilter,
    reaches: R,
    bytes: Seq<u8>,
    now: u128,
    accepted: bool,
)
    requires
        filter.may_accept(reaches, bytes, now, accepted),
        match classified(bytes) {
            FrameClass::Unknown => true,
            FrameClass::Status { market_id } => !filter.follows(market_id),
            FrameClass::Data { route, price } => !filter.routes@.contains_key(route),
        },
    ensures
        !accepted,
        filter.after_frame(bytes, now, accepted) == filter.routes@,
{
    match classified(bytes) {
        FrameClass::Status { market_id } => {
            assert forall|route: RouteModel| #[trigger] filter.routes@.contains_key(
                route,
            ) implies route.id != market_id by {}
            assert(filter.after_frame(bytes, now, accepted) =~= filter.routes@);
        },
        _ => {},
    }
}

/// The first frame after a status of its market is passed on, however little its prices
/// have moved.
pub proof fn law_status_restarts_noise_filters<R: Fn(Float64, Float64, Float64) -> bool>(
    before: FrameFilter,
    after: FrameFilter,
    reaches: R,
    status: Seq<u8>,
    data: Seq<u8>,
    status_at: u128,
    data_at: u128,
    accepted: bool,
)
    requires
        classified(status) is Status,
        classified(data) is Data,
        classified(data)->route.id == classified(status)->market_id,
        before.routes@.contains_key(classified(data)->route),
        after.routes@ == before.after_frame(status, status_at, true),
        after.may_accept(reaches, data, data_at, accepted),
    ensures
        accepted,
{
}

/// A quote that was held back changes nothing, and one that comes a refresh interval after
/// the last that was passed on is passed on in any case.
pub proof fn law_quotes_are_refreshed<R: Fn(Float64, Float64, Float64) -> bool>(
    filter: NoiseFilter,
    reaches: R,
    bid: Float64,
    ask: Float64,
    now: u128,
    allowed: bool,
)
    requires
        filter.may_allow(reaches, FilteredPrice::Bbo { bid, ask }, now, allowed),
    ensures
        !allowed ==> filter.after(FilteredPrice::Bbo { bid, ask }, now, allowed) == filter,
        filter.stale(now) ==> allowed,
{
}

/// The filter knows exactly the routes that are subscribed to.
pub open spec fn follows_subscriptions(
    routes: Map<RouteModel, Option<NoiseFilter>>,
    subscriptions: Set<KeyModel>,
) -> bool {
    forall|route: RouteModel| #[trigger]
        routes.contains_key(route) <==> subscribed(subscriptions, route)
}

/// A filter that knows exactly the routes of a subscription table still does once both have
/// followed the same request.
pub proof fn law_filters_follow_subscription_tables(
    before: FrameFilter,
    after: FrameFilter,
    subscriptions: Set<KeyModel>,
    request: RequestModel,
)
    requires
        follows_subscriptions(before.routes@, subscriptions),
        FrameFilter::applied(before.routes@, after.routes@, request),
    ensures
        follows_subscriptions(after.routes@, changed(subscriptions, request)),
{
    let next = changed(subscriptions, request);
    assert forall|route: RouteModel| #[trigger]
        after.routes@.contains_key(route) <==> subscribed(next, route) by {
        assert(before.routes@.contains_key(route) <==> subscribed(subscriptions, route));
        if subscribed(next, route) {
            let key = choose|key: KeyModel| #[trigger]
                next.contains(key) && key.routes(route.id, route.stream);
            assert(route_of(key) =~= route);
            if subscriptions.contains(key) {
                assert(subscribed(subscriptions, route));
            }
            if request.op == ControlOperation::Unsubscribe && FrameFilter::names_route(
                request,
                route,
            ) {
                let named = choose|named: KeyModel| #[trigger]
                    request.names(named) && route_of(named) == route;
                assert(drops(request, key));
            }
        }
        if after.routes@.contains_key(route) {
            if request.op == ControlOperation::Subscribe && FrameFilter::names_route(
                request,
                route,
            ) {
                let named = choose|named: KeyModel| #[trigger]
                    request.names(named) && route_of(named) == route;
                assert(next.contains(named));
                assert(named.routes(route.id, route.stream));
            } else {
                let key = choose|key: KeyModel| #[trigger]
                    subscriptions.contains(key) && key.routes(route.id, route.stream);
                assert(route_of(key) =~= route);
                if drops(request, key) {
                    let named = choose|named: KeyModel| #[trigger]
                        request.names(named) && key.routes(named.id, named.stream);
                    assert(route_of(named) =~= route);
                    assert(FrameFilter::names_route(request, route));
                }
                assert(next.contains(key));
            }
        }
    }
}

/// Data passes a filter only where it is subscribed to, and always where it is subscribed to
/// without a threshold.
pub proof fn law_filters_agree_with_routing<R: Fn(Float64, Float64, Float64) -> bool>(
    filter: FrameFilter,
    subscriptions: Set<KeyModel>,
    reaches: R,
    bytes: Seq<u8>,
    now: u128,
    accepted: bool,
)
    requires
        follows_subscriptions(filter.routes@, subscriptions),
        filter.may_accept(reaches, bytes, now, accepted),
        classified(bytes) is Data,
    ensures
        accepted ==> subscribed(subscriptions, classified(bytes)->route),
        subscribed(subscriptions, classified(bytes)->route)
            && filter.routes@[classified(bytes)->route] is None ==> accepted,
{
    assert(filter.routes@.contains_key(classified(bytes)->route) <==> subscribed(
        subscriptions,
        classified(bytes)->route,
    ));
}

} // verus!
