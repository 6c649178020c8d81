//! What passes a client's filter, message by message.
use vstd::prelude::*;
use crate::blocking::{BlockingLink, ReadLook, ReadStep};
use crate::codec::{
    law_wire_message_round_trip, Bbo, FeatureBbo, MarketStatus, OrderBookModel, Trade,
};
use crate::float64::Float64;
use crate::frame_filter::{
    fresh_filter, price_moved_bps, route_of, FilteredPrice, FrameFilter, NoiseFilter,
};
use crate::layout::law_type_bytes_decide;
use crate::link_client::{ClientEvent, ControlStep, LinkClient};
use crate::protocol::{
    ControlOperation, ControlRequest, KeyModel, RequestModel, SubscriptionKey,
};
use crate::routes::RouteModel;
use crate::text::decimal;
use crate::transport::{ControlFrame, InboundFrame, Received};

verus! {

/// A quote is passed on as soon as one side has moved: by a ratio that reaches the
/// threshold, or from or to a price that has no ratio. The other side does not matter.
pub proof fn law_either_side_moves_a_quote<R: Fn(Float64, Float64, Float64) -> bool>(
    filter: NoiseFilter,
    reaches: R,
    previous_bid: Float64,
    previous_ask: Float64,
    bid: Float64,
    ask: Float64,
    now: u128,
    allowed: bool,
)
    requires
        filter.last_published == Some(
            FilteredPrice::Bbo { bid: previous_bid, ask: previous_ask },
        ),
        filter.may_allow(reaches, FilteredPrice::Bbo { bid, ask }, now, allowed),
    ensures
        !previous_bid.num_eq(bid) && !call_ensures(
            reaches,
            (previous_bid, bid, filter.threshold_bps),
            false,
        ) ==> allowed,
        !previous_ask.num_eq(ask) && !call_ensures(
            reaches,
            (previous_ask, ask, filter.threshold_bps),
            false,
        ) ==> allowed,
        !previous_bid.num_eq(bid) && (previous_bid.zero() || !previous_bid.finite()
            || !bid.finite()) ==> allowed,
        !previous_ask.num_eq(ask) && (previous_ask.zero() || !previous_ask.finite()
            || !ask.finite()) ==> allowed,
        previous_bid.num_eq(bid) && filter.threshold_bps.zero() ==> allowed,
        previous_ask.num_eq(ask) && filter.threshold_bps.zero() ==> allowed,
{
}

/// A quote of which neither side has moved far enough is held back for a second, and passed
/// on after that.
pub proof fn law_noise_is_held_back_for_a_second<R: Fn(Float64, Float64, Float64) -> bool>(
    filter: NoiseFilter,
    reaches: R,
    previous_bid: Float64,
    previous_ask: Float64,
    bid: Float64,
    ask: Float64,
    now: u128,
    allowed: bool,
)
    requires
        filter.last_published == Some(
            FilteredPrice::Bbo { bid: previous_bid, ask: previous_ask },
        ),
        filter.may_allow(reaches, FilteredPrice::Bbo { bid, ask }, now, allowed),
    ensures
        ({
            let bid_stays = if previous_bid.num_eq(bid) {
                !filter.threshold_bps.zero()
            } else {
                &&& previous_bid.finite() && bid.finite() && !previous_bid.zero()
                &&& !call_ensures(reaches, (previous_bid, bid, filter.threshold_bps), true)
            };
            let ask_stays = if previous_ask.num_eq(ask) {
                !filter.threshold_bps.zero()
            } else {
                &&& previous_ask.finite() && ask.finite() && !previous_ask.zero()
                &&& !call_ensures(reaches, (previous_ask, ask, filter.threshold_bps), true)
            };
            let recent = match filter.last_published_at {
                Some(at) => now < at + 1_000_000_000,
                None => true,
            };
            &&& bid_stays && ask_stays && recent ==> !allowed
            &&& !recent ==> allowed
        }),
{
}

/// A trade is passed on where its price has moved far enough, whatever the time.
pub proof fn law_trades_pass_by_their_price<R: Fn(Float64, Float64, Float64) -> bool>(
    filter: NoiseFilter,
    reaches: R,
    previous: Float64,
    price: Float64,
    now: u128,
    allowed: bool,
)
    requires
        filter.last_published == Some(FilteredPrice::Trade(previous)),
        filter.may_allow(reaches, FilteredPrice::Trade(price), now, allowed),
    ensures
        previous.num_eq(price) ==> allowed == filter.threshold_bps.zero(),
        !previous.num_eq(price) && (previous.zero() || !previous.finite() || !price.finite())
            ==> allowed,
        !previous.num_eq(price) && previous.finite() && price.finite() && !previous.zero()
            ==> call_ensures(reaches, (previous, price, filter.threshold_bps), allowed),
{
}

/// The first price passes, and so does the first of another kind.
pub proof fn law_first_prices_pass<R: Fn(Float64, Float64, Float64) -> bool>(
    filter: NoiseFilter,
    reaches: R,
    current: FilteredPrice,
    now: u128,
    allowed: bool,
)
    requires
        filter.may_allow(reaches, current, now, allowed),
        match filter.last_published {
            None => true,
            Some(FilteredPrice::Bbo { .. }) => current is Trade,
            Some(FilteredPrice::Trade(_)) => current is Bbo,
        },
    ensures
        allowed,
{
}

/// The next price is measured against the last that was passed on, not against one that
/// was held back; the threshold never changes.
pub proof fn law_prices_are_measured_against_the_last_passed_on(
    filter: NoiseFilter,
    current: FilteredPrice,
    now: u128,
)
    ensures
        filter.after(current, now, false) == filter,
        filter.after(current, now, true).last_published == Some(current),
        filter.after(current, now, true).last_published_at == Some(now),
        filter.after(current, now, true).threshold_bps == filter.threshold_bps,
        NoiseFilter::fresh(filter.threshold_bps).threshold_bps == filter.threshold_bps,
        NoiseFilter::fresh(filter.threshold_bps).last_published is None,
        NoiseFilter::fresh(filter.threshold_bps).last_published_at is None,
{
}

/// A quote that was passed on is not passed on again within a second, unless every frame is
/// wanted.
pub proof fn law_repeated_quotes_are_noise<R: Fn(Float64, Float64, Float64) -> bool>(
    filter: NoiseFilter,
    reaches: R,
    bid: Float64,
    ask: Float64,
    first: u128,
    second: u128,
    allowed: bool,
)
    requires
        !bid.nan(),
        !ask.nan(),
        !filter.threshold_bps.zero(),
        second < first + 1_000_000_000,
        filter.after(FilteredPrice::Bbo { bid, ask }, first, true).may_allow(
            reaches,
            FilteredPrice::Bbo { bid, ask },
            second,
            allowed,
        ),
    ensures
        !allowed,
{
}

/// A best bid and offer goes by its market and the stream `bbo`: it passes exactly where
/// that route is held, and by the noise filter of that route where it has one, measured by
/// its bid and ask. No other route changes.
pub proof fn law_bbos_go_by_their_market<R: Fn(Float64, Float64, Float64) -> bool>(
    filter: FrameFilter,
    after: Map<RouteModel, Option<NoiseFilter>>,
    reaches: R,
    bbo: Bbo,
    bytes: Seq<u8>,
    now: u128,
    accepted: bool,
)
    requires
        bbo.wire_form(bytes),
        filter.may_accept(reaches, bytes, now, accepted),
        after == filter.after_frame(bytes, now, accepted),
    ensures
        ({
            let route = RouteModel { id: bbo.market_id, stream: "bbo"@ };
            let price = FilteredPrice::Bbo { bid: bbo.bid, ask: bbo.ask };
            &&& !filter.routes@.contains_key(route) ==> !accepted && after == filter.routes@
            &&& filter.routes@.contains_key(route) && filter.routes@[route] is None ==> accepted
                && after == filter.routes@
            &&& filter.routes@.contains_key(route) && filter.routes@[route] is Some ==> {
                &&& filter.routes@[route]->0.may_allow(reaches, price, now, accepted)
                &&& after == filter.routes@.insert(
                    route,
                    Some(filter.routes@[route]->0.after(price, now, accepted)),
                )
            }
        }),
{
    law_wire_message_round_trip(arbitrary(), bbo, arbitrary(), arbitrary(), arbitrary(), bytes);
}

/// A trade goes by its market and the stream `trades`, measured by its price.
pub proof fn law_trades_go_by_their_market<R: Fn(Float64, Float64, Float64) -> bool>(
    filter: FrameFilter,
    after: Map<RouteModel, Option<NoiseFilter>>,
    reaches: R,
    trade: Trade,
    bytes: Seq<u8>,
    now: u128,
    accepted: bool,
)
    requires
        trade.wire_form(bytes),
        filter.may_accept(reaches, bytes, now, accepted),
        after == filter.after_frame(bytes, now, accepted),
    ensures
        ({
            let route = RouteModel { id: trade.market_id, stream: "trades"@ };
            let price = FilteredPrice::Trade(trade.price);
            &&& !filter.routes@.contains_key(route) ==> !accepted && after == filter.routes@
            &&& filter.routes@.contains_key(route) && filter.routes@[route] is None ==> accepted
                && after == filter.routes@
            &&& filter.routes@.contains_key(route) && filter.routes@[route] is Some ==> {
                &&& filter.routes@[route]->0.may_allow(reaches, price, now, accepted)
                &&& after == filter.routes@.insert(
                    route,
                    Some(filter.routes@[route]->0.after(price, now, accepted)),
                )
            }
        }),
{
    law_wire_message_round_trip(arbitrary(), arbitrary(), trade, arbitrary(), arbitrary(), bytes);
}

/// An order book of either type goes by its market and the stream that its depth names. No
/// noise filter holds it back.
pub proof fn law_order_books_go_by_their_depth<R: Fn(Float64, Float64, Float64) -> bool>(
    filter: FrameFilter,
    after: Map<RouteModel, Option<NoiseFilter>>,
    reaches: R,
    book: OrderBookModel,
    bytes: Seq<u8>,
    now: u128,
    accepted: bool,
)
    requires
        book.wire_form(bytes),
        filter.may_accept(reaches, bytes, now, accepted),
        after == filter.after_frame(bytes, now, accepted),
    ensures
        accepted == filter.routes@.contains_key(
            RouteModel { id: book.market_id, stream: "orderbook."@ + decimal(book.depth as nat) },
        ),
        after == filter.routes@,
{
    law_wire_message_round_trip(arbitrary(), arbitrary(), arbitrary(), book, arbitrary(), bytes);
}

/// A feature goes by its own identifier, not by that of its market, and by the stream
/// `feature`, measured by its bid and ask.
pub proof fn law_features_go_by_their_own_identifier<R: Fn(Float64, Float64, Float64) -> bool>(
    filter: FrameFilter,
    after: Map<RouteModel, Option<NoiseFilter>>,
    reaches: R,
    feature: FeatureBbo,
    bytes: Seq<u8>,
    now: u128,
    accepted: bool,
)
    requires
        feature.wire_form(bytes),
        filter.may_accept(reaches, bytes, now, accepted),
        after == filter.after_frame(bytes, now, accepted),
    ensures
        ({
            let route = RouteModel { id: feature.feature_id, stream: "feature"@ };
            let price = FilteredPrice::Bbo { bid: feature.bid, ask: feature.ask };
            &&& !filter.routes@.contains_key(route) ==> !accepted && after == filter.routes@
            &&& filter.routes@.contains_key(route) && filter.routes@[route] is None ==> accepted
                && after == filter.routes@
            &&& filter.routes@.contains_key(route) && filter.routes@[route] is Some ==> {
                &&& filter.routes@[route]->0.may_allow(reaches, price, now, accepted)
                &&& after == filter.routes@.insert(
                    route,
                    Some(filter.routes@[route]->0.after(price, now, accepted)),
                )
            }
        }),
{
    law_wire_message_round_trip(arbitrary(), arbitrary(), arbitrary(), arbitrary(), feature, bytes);
}

/// A market status passes exactly where some stream of its market is held. It makes every
/// noise filter of the market forget what was passed on, keeps all thresholds, and leaves
/// other markets alone.
pub proof fn law_statuses_go_to_the_whole_market<R: Fn(Float64, Float64, Float64) -> bool>(
    filter: FrameFilter,
    after: Map<RouteModel, Option<NoiseFilter>>,
    reaches: R,
    status: MarketStatus,
    bytes: Seq<u8>,
    now: u128,
    accepted: bool,
)
    requires
        status.wire_form(bytes),
        filter.may_accept(reaches, bytes, now, accepted),
        after == filter.after_frame(bytes, now, accepted),
    ensures
        accepted <==> exists|route: RouteModel| #[trigger]
            filter.routes@.contains_key(route) && route.id == status.market_id,
        after.dom() == filter.routes@.dom(),
        forall|route: RouteModel| #[trigger]
            filter.routes@.contains_key(route) ==> match filter.routes@[route] {
                None => after[route] is None,
                Some(noise) => if route.id == status.market_id {
                    &&& after[route] is Some
                    &&& after[route]->0.threshold_bps == noise.threshold_bps
                    &&& after[route]->0.last_published is None
                    &&& after[route]->0.last_published_at is None
                } else {
                    after[route] == Some(noise)
                },
            },
{
    law_wire_message_round_trip(status, arbitrary(), arbitrary(), arbitrary(), arbitrary(), bytes);
    assert(after.dom() =~= filter.routes@.dom());
}

/// Bytes that are no message of the link never pass, and change nothing.
pub proof fn law_strange_bytes_never_pass<R: Fn(Float64, Float64, Float64) -> bool>(
    filter: FrameFilter,
    reaches: R,
    bytes: Seq<u8>,
    now: u128,
    accepted: bool,
)
    requires
        filter.may_accept(reaches, bytes, now, accepted),
    ensures
        accepted ==> bytes.len() > 0 && (bytes[0] <= 4 || bytes[0] == 6),
        bytes.len() > 0 && bytes[0] == 0 && bytes.len() != 31 ==> !accepted,
        bytes.len() > 0 && bytes[0] == 1 && bytes.len() != 61 ==> !accepted,
        bytes.len() > 0 && bytes[0] == 2 && bytes.len() != 46 ==> !accepted,
        bytes.len() > 0 && 3 <= bytes[0] <= 4 && bytes.len() < 55 ==> !accepted,
        bytes.len() > 0 && bytes[0] == 6 && bytes.len() != 97 ==> !accepted,
        bytes.len() == 0 || bytes[0] == 5 || bytes[0] > 6 ==> filter.after_frame(
            bytes,
            now,
            accepted,
        ) == filter.routes@,
{
    law_type_bytes_decide(bytes);
}

/// A request names a route where one of its arguments names the identifier and the stream.
pub proof fn law_routes_are_named_by_arguments(request: RequestModel, route: RouteModel)
    ensures
        FrameFilter::names_route(request, route) <==> exists|i: int, j: int|
            0 <= i < request.args.len() && 0 <= j < request.args[i].id.len()
                && #[trigger] request.args[i].id[j] == route.id && request.args[i].stream
                == route.stream,
{
    if FrameFilter::names_route(request, route) {
        let key = choose|key: KeyModel| #[trigger]
            request.names(key) && route_of(key) == route;
        let i = choose|i: int|
            0 <= i < request.args.len() && (#[trigger] request.args[i]).names(key);
        let j = choose|j: int|
            0 <= j < request.args[i].id.len() && #[trigger] request.args[i].key(j) == key;
        assert(request.args[i].id[j] == route.id);
    }
    if exists|i: int, j: int|
        0 <= i < request.args.len() && 0 <= j < request.args[i].id.len()
            && #[trigger] request.args[i].id[j] == route.id && request.args[i].stream
            == route.stream {
        let (i, j) = choose|i: int, j: int|
            0 <= i < request.args.len() && 0 <= j < request.args[i].id.len()
                && #[trigger] request.args[i].id[j] == route.id && request.args[i].stream
                == route.stream;
        let key = request.args[i].key(j);
        assert(request.args[i].names(key));
        assert(request.names(key));
        assert(route_of(key) =~= route);
    }
}

/// Subscribing keeps every route that was held. A route that is not named keeps its noise
/// filter with all it remembers; one that is named starts anew at one of the thresholds
/// that name it, and at the one with the highest bits where several do.
pub proof fn law_subscribing_keeps_and_adds_routes(
    before: Map<RouteModel, Option<NoiseFilter>>,
    after: Map<RouteModel, Option<NoiseFilter>>,
    request: RequestModel,
    route: RouteModel,
)
    requires
        request.op == ControlOperation::Subscribe,
        FrameFilter::applied(before, after, request),
    ensures
        ({
            let named = exists|i: int, j: int|
                0 <= i < request.args.len() && 0 <= j < request.args[i].id.len()
                    && #[trigger] request.args[i].id[j] == route.id && request.args[i].stream
                    == route.stream;
            &&& after.contains_key(route) <==> before.contains_key(route) || named
            &&& !named && before.contains_key(route) ==> after[route] == before[route]
            &&& named && after[route] is Some ==> {
                &&& after[route]->0.last_published is None
                &&& after[route]->0.last_published_at is None
            }
            &&& named ==> exists|i: int, j: int|
                0 <= i < request.args.len() && 0 <= j < request.args[i].id.len()
                    && #[trigger] request.args[i].id[j] == route.id && request.args[i].stream
                    == route.stream && (match request.args[i].noise_filter_bps {
                    Some(threshold) => after[route] is Some && after[route]->0.threshold_bps
                        == threshold,
                    None => after[route] is None,
                })
            &&& forall|i: int, j: int|
                0 <= i < request.args.len() && 0 <= j < request.args[i].id.len()
                    && #[trigger] request.args[i].id[j] == route.id && request.args[i].stream
                    == route.stream && request.args[i].noise_filter_bps is Some
                    ==> after[route] is Some && request.args[i].noise_filter_bps->0.bits
                    <= after[route]->0.threshold_bps.bits
        }),
{
    law_routes_are_named_by_arguments(request, route);
    assert(after.contains_key(route) <==> before.contains_key(route) || FrameFilter::names_route(
        request,
        route,
    ));
    if FrameFilter::names_route(request, route) {
        let winner = choose|key: KeyModel| #[trigger]
            FrameFilter::wins(request, route, key) && after[route]
                == fresh_filter(key.threshold());
        assert(request.names(winner));
        let i = choose|i: int|
            0 <= i < request.args.len() && (#[trigger] request.args[i]).names(winner);
        let j = choose|j: int|
            0 <= j < request.args[i].id.len() && #[trigger] request.args[i].key(j) == winner;
        assert(request.args[i].id[j] == route.id);
        assert forall|m: int, n: int|
            0 <= m < request.args.len() && 0 <= n < request.args[m].id.len()
                && #[trigger] request.args[m].id[n] == route.id && request.args[m].stream
                == route.stream && request.args[m].noise_filter_bps is Some implies after[route]
            is Some && request.args[m].noise_filter_bps->0.bits
            <= after[route]->0.threshold_bps.bits by {
            let other = request.args[m].key(n);
            assert(request.args[m].names(other));
            assert(request.names(other));
            assert(route_of(other) =~= route);
            assert(!winner.less(other));
        }
    }
}

/// Unsubscribing keeps a route exactly where no argument names it, at whatever threshold,
/// and changes none that it keeps. Fetching again changes nothing.
pub proof fn law_unsubscribing_keeps_other_routes(
    before: Map<RouteModel, Option<NoiseFilter>>,
    after: Map<RouteModel, Option<NoiseFilter>>,
    request: RequestModel,
    route: RouteModel,
)
    requires
        FrameFilter::applied(before, after, request),
    ensures
        request.op == ControlOperation::Unsubscribe ==> {
            &&& after.contains_key(route) <==> before.contains_key(route) && !exists|
                i: int,
                j: int,
            |
                0 <= i < request.args.len() && 0 <= j < request.args[i].id.len()
                    && #[trigger] request.args[i].id[j] == route.id && request.args[i].stream
                    == route.stream
            &&& after.contains_key(route) ==> after[route] == before[route]
        },
        request.op == ControlOperation::RefetchBbo ==> after == before,
{
    law_routes_are_named_by_arguments(request, route);
}

/// Replacing subscriptions leaves exactly the routes of the new keys, each at the threshold
/// of the last key that names it and with nothing passed on yet.
pub proof fn law_replaced_subscriptions(
    keys: Seq<SubscriptionKey>,
    after: Map<RouteModel, Option<NoiseFilter>>,
    route: RouteModel,
    at: int,
)
    requires
        after == FrameFilter::added(Map::empty(), keys, keys.len() as int),
    ensures
        after.contains_key(route) ==> exists|i: int|
            0 <= i < keys.len() && (#[trigger] keys[i]).id == route.id && keys[i].stream@
                == route.stream,
        0 <= at < keys.len() && keys[at].id == route.id && keys[at].stream@ == route.stream && (
        forall|i: int|
            at < i < keys.len() ==> !((#[trigger] keys[i]).id == route.id && keys[i].stream@
                == route.stream)) ==> after.contains_key(route) && (match keys[at]@.threshold() {
            Some(threshold) => after[route] == Some(
                NoiseFilter { threshold_bps: threshold, last_published: None, last_published_at: None },
            ),
            None => after[route] is None,
        }),
{
    lemma_last_for(keys, keys.len() as int, route, at);
}

proof fn lemma_last_for(keys: Seq<SubscriptionKey>, count: int, route: RouteModel, at: int)
    requires
        0 <= count <= keys.len(),
    ensures
        FrameFilter::last_for(keys, count, route) is Some ==> exists|i: int|
            0 <= i < count && (#[trigger] keys[i]).id == route.id && keys[i].stream@
                == route.stream,
        0 <= at < count && keys[at].id == route.id && keys[at].stream@ == route.stream && (forall|
            i: int,
        |
            at < i < count ==> !((#[trigger] keys[i]).id == route.id && keys[i].stream@
                == route.stream)) ==> FrameFilter::last_for(keys, count, route) == Some(keys[at]@),
    decreases count,
{
    if count > 0 {
        let last = keys[count - 1];
        assert(route_of(last@) == route <==> last.id == route.id
            && last.stream@ == route.stream) by {
            if last.id == route.id && last.stream@ == route.stream {
                assert(route_of(last@) =~= route);
            }
        }
        lemma_last_for(keys, count - 1, route, at);
    }
}

proof fn lemma_messages_go_by_their_route<R: Fn(Float64, Float64, Float64) -> bool>(
    filter: FrameFilter,
    reaches: R,
    bytes: Seq<u8>,
    now: u128,
    accepted: bool,
    bbo: Bbo,
    trade: Trade,
    feature: FeatureBbo,
    book: OrderBookModel,
    status: MarketStatus,
)
    requires
        filter.may_accept(reaches, bytes, now, accepted),
    ensures
        bbo.wire_form(bytes) ==> {
            let route = RouteModel { id: bbo.market_id, stream: "bbo"@ };
            &&& !filter.routes@.contains_key(route) ==> !(accepted)
            &&& filter.routes@.contains_key(route) && filter.routes@[route] is None ==> accepted
        },
        trade.wire_form(bytes) ==> {
            let route = RouteModel { id: trade.market_id, stream: "trades"@ };
            &&& !filter.routes@.contains_key(route) ==> !(accepted)
            &&& filter.routes@.contains_key(route) && filter.routes@[route] is None ==> accepted
        },
        feature.wire_form(bytes) ==> {
            let route = RouteModel { id: feature.feature_id, stream: "feature"@ };
            &&& !filter.routes@.contains_key(route) ==> !(accepted)
            &&& filter.routes@.contains_key(route) && filter.routes@[route] is None ==> accepted
        },
        book.wire_form(bytes) ==> (accepted <==> filter.routes@.contains_key(
            RouteModel { id: book.market_id, stream: "orderbook."@ + decimal(book.depth as nat) },
        )),
        status.wire_form(bytes) ==> (accepted <==> exists|route: RouteModel| #[trigger]
            filter.routes@.contains_key(route) && route.id == status.market_id),
        bytes.len() == 0 || bytes[0] == 5 || bytes[0] > 6 ==> !(accepted),
{
    let after = filter.after_frame(bytes, now, accepted);
    if bbo.wire_form(bytes) {
        law_bbos_go_by_their_market(filter, after, reaches, bbo, bytes, now, accepted);
    }
    if trade.wire_form(bytes) {
        law_trades_go_by_their_market(filter, after, reaches, trade, bytes, now, accepted);
    }
    if feature.wire_form(bytes) {
        law_features_go_by_their_own_identifier(
            filter,
            after,
            reaches,
            feature,
            bytes,
            now,
            accepted,
        );
    }
    if book.wire_form(bytes) {
        law_order_books_go_by_their_depth(filter, after, reaches, book, bytes, now, accepted);
    }
    if status.wire_form(bytes) {
        law_statuses_go_to_the_whole_market(filter, after, reaches, status, bytes, now, accepted);
    }
    law_strange_bytes_never_pass(filter, reaches, bytes, now, accepted);
}

/// A frame passes, as the filter is asked, exactly where the route of its own identifier and
/// stream is held, where that route has no threshold; a status passes where anything of the
/// market is held.
pub proof fn law_accepts_at_goes_by_the_route<R: Fn(Float64, Float64, Float64) -> bool>(
    filter: &mut FrameFilter,
    bytes: &[u8],
    now: u128,
    reaches: &R,
    accepted: bool,
    bbo: Bbo,
    trade: Trade,
    feature: FeatureBbo,
    book: OrderBookModel,
    status: MarketStatus,
)
    requires
        old(filter).wf(),
        call_ensures(FrameFilter::accepts_at::<R>, (filter, bytes, now, reaches), accepted),
    ensures
        bbo.wire_form(bytes@) ==> {
            let route = RouteModel { id: bbo.market_id, stream: "bbo"@ };
            &&& !old(filter).routes@.contains_key(route) ==> !(accepted)
            &&& old(filter).routes@.contains_key(route) && old(filter).routes@[route] is None
                ==> accepted
        },
        trade.wire_form(bytes@) ==> {
            let route = RouteModel { id: trade.market_id, stream: "trades"@ };
            &&& !old(filter).routes@.contains_key(route) ==> !(accepted)
            &&& old(filter).routes@.contains_key(route) && old(filter).routes@[route] is None
                ==> accepted
        },
        feature.wire_form(bytes@) ==> {
            let route = RouteModel { id: feature.feature_id, stream: "feature"@ };
            &&& !old(filter).routes@.contains_key(route) ==> !(accepted)
            &&& old(filter).routes@.contains_key(route) && old(filter).routes@[route] is None
                ==> accepted
        },
        book.wire_form(bytes@) ==> (accepted <==> old(filter).routes@.contains_key(
            RouteModel { id: book.market_id, stream: "orderbook."@ + decimal(book.depth as nat) },
        )),
        status.wire_form(bytes@) ==> (accepted <==> exists|route: RouteModel| #[trigger]
            old(filter).routes@.contains_key(route) && route.id == status.market_id),
        bytes@.len() == 0 || bytes@[0] == 5 || bytes@[0] > 6 ==> !(accepted),
        final(filter).routes@.dom() == old(filter).routes@.dom(),
{
    lemma_messages_go_by_their_route(
        *old(filter),
        *reaches,
        bytes@,
        now,
        accepted,
        bbo,
        trade,
        feature,
        book,
        status,
    );
    assert(final(filter).routes@.dom() =~= old(filter).routes@.dom());
}

/// A frame passes, as the filter is asked, exactly where the route of its own identifier and
/// stream is held, where that route has no threshold; a status passes where anything of the
/// market is held.
pub proof fn law_accepts_goes_by_the_route<R: Fn(Float64, Float64, Float64) -> bool>(
    filter: &mut FrameFilter,
    bytes: &[u8],
    now: u128,
    reaches: &R,
    accepted: bool,
    bbo: Bbo,
    trade: Trade,
    feature: FeatureBbo,
    book: OrderBookModel,
    status: MarketStatus,
)
    requires
        old(filter).wf(),
        call_ensures(FrameFilter::accepts::<R>, (filter, bytes, now, reaches), accepted),
    ensures
        bbo.wire_form(bytes@) ==> {
            let route = RouteModel { id: bbo.market_id, stream: "bbo"@ };
            &&& !old(filter).routes@.contains_key(route) ==> !(accepted)
            &&& old(filter).routes@.contains_key(route) && old(filter).routes@[route] is None
                ==> accepted
        },
        trade.wire_form(bytes@) ==> {
            let route = RouteModel { id: trade.market_id, stream: "trades"@ };
            &&& !old(filter).routes@.contains_key(route) ==> !(accepted)
            &&& old(filter).routes@.contains_key(route) && old(filter).routes@[route] is None
                ==> accepted
        },
        feature.wire_form(bytes@) ==> {
            let route = RouteModel { id: feature.feature_id, stream: "feature"@ };
            &&& !old(filter).routes@.contains_key(route) ==> !(accepted)
            &&& old(filter).routes@.contains_key(route) && old(filter).routes@[route] is None
                ==> accepted
        },
        book.wire_form(bytes@) ==> (accepted <==> old(filter).routes@.contains_key(
            RouteModel { id: book.market_id, stream: "orderbook."@ + decimal(book.depth as nat) },
        )),
        status.wire_form(bytes@) ==> (accepted <==> exists|route: RouteModel| #[trigger]
            old(filter).routes@.contains_key(route) && route.id == status.market_id),
        bytes@.len() == 0 || bytes@[0] == 5 || bytes@[0] > 6 ==> !(accepted),
        final(filter).routes@.dom() == old(filter).routes@.dom(),
{
    lemma_messages_go_by_their_route(
        *old(filter),
        *reaches,
        bytes@,
        now,
        accepted,
        bbo,
        trade,
        feature,
        book,
        status,
    );
    assert(final(filter).routes@.dom() =~= old(filter).routes@.dom());
}

/// What a client takes in passes by the same routes, and comes out as it came.
pub proof fn law_receive_goes_by_the_route<R: Fn(Float64, Float64, Float64) -> bool>(
    client: &mut LinkClient,
    bytes: Vec<u8>,
    now: u128,
    reaches: &R,
    frame: Option<InboundFrame>,
    bbo: Bbo,
    trade: Trade,
    feature: FeatureBbo,
    book: OrderBookModel,
    status: MarketStatus,
)
    requires
        old(client).wf(),
        call_ensures(LinkClient::receive::<R>, (client, bytes, now, reaches), frame),
    ensures
        bbo.wire_form(bytes@) ==> {
            let route = RouteModel { id: bbo.market_id, stream: "bbo"@ };
            &&& !old(client).frame_filter.routes@.contains_key(route) ==> !(frame is Some)
            &&& old(client).frame_filter.routes@.contains_key(route)
                && old(client).frame_filter.routes@[route] is None ==> frame is Some
        },
        trade.wire_form(bytes@) ==> {
            let route = RouteModel { id: trade.market_id, stream: "trades"@ };
            &&& !old(client).frame_filter.routes@.contains_key(route) ==> !(frame is Some)
            &&& old(client).frame_filter.routes@.contains_key(route)
                && old(client).frame_filter.routes@[route] is None ==> frame is Some
        },
        feature.wire_form(bytes@) ==> {
            let route = RouteModel { id: feature.feature_id, stream: "feature"@ };
            &&& !old(client).frame_filter.routes@.contains_key(route) ==> !(frame is Some)
            &&& old(client).frame_filter.routes@.contains_key(route)
                && old(client).frame_filter.routes@[route] is None ==> frame is Some
        },
        book.wire_form(bytes@) ==> (frame is Some
            <==> old(client).frame_filter.routes@.contains_key(
            RouteModel { id: book.market_id, stream: "orderbook."@ + decimal(book.depth as nat) },
        )),
        status.wire_form(bytes@) ==> (frame is Some <==> exists|route: RouteModel| #[trigger]
            old(client).frame_filter.routes@.contains_key(route) && route.id == status.market_id),
        bytes@.len() == 0 || bytes@[0] == 5 || bytes@[0] > 6 ==> !(frame is Some),
        frame is Some ==> frame->0.bytes@ == bytes@ && frame->0.received_at == now,
        final(client).ref_counts == old(client).ref_counts,
{
    lemma_messages_go_by_their_route(
        old(client).frame_filter,
        *reaches,
        bytes@,
        now,
        frame is Some,
        bbo,
        trade,
        feature,
        book,
        status,
    );
}

/// Data that comes over the control connection passes by the same routes.
pub proof fn law_poll_control_goes_by_the_route<R: Fn(Float64, Float64, Float64) -> bool>(
    client: &mut LinkClient,
    bytes: Vec<u8>,
    now: u128,
    reaches: &R,
    step: ControlStep,
    bbo: Bbo,
    trade: Trade,
    feature: FeatureBbo,
    book: OrderBookModel,
    status: MarketStatus,
)
    requires
        old(client).wf(),
        call_ensures(
            LinkClient::poll_control::<R>,
            (client, Received::Frame(ControlFrame::Binary(bytes)), now, reaches),
            step,
        ),
    ensures
        bbo.wire_form(bytes@) ==> {
            let route = RouteModel { id: bbo.market_id, stream: "bbo"@ };
            &&& !old(client).frame_filter.routes@.contains_key(route) ==> !(step is Deliver)
            &&& old(client).frame_filter.routes@.contains_key(route)
                && old(client).frame_filter.routes@[route] is None ==> step is Deliver
        },
        trade.wire_form(bytes@) ==> {
            let route = RouteModel { id: trade.market_id, stream: "trades"@ };
            &&& !old(client).frame_filter.routes@.contains_key(route) ==> !(step is Deliver)
            &&& old(client).frame_filter.routes@.contains_key(route)
                && old(client).frame_filter.routes@[route] is None ==> step is Deliver
        },
        feature.wire_form(bytes@) ==> {
            let route = RouteModel { id: feature.feature_id, stream: "feature"@ };
            &&& !old(client).frame_filter.routes@.contains_key(route) ==> !(step is Deliver)
            &&& old(client).frame_filter.routes@.contains_key(route)
                && old(client).frame_filter.routes@[route] is None ==> step is Deliver
        },
        book.wire_form(bytes@) ==> (step is Deliver
            <==> old(client).frame_filter.routes@.contains_key(
            RouteModel { id: book.market_id, stream: "orderbook."@ + decimal(book.depth as nat) },
        )),
        status.wire_form(bytes@) ==> (step is Deliver <==> exists|route: RouteModel| #[trigger]
            old(client).frame_filter.routes@.contains_key(route) && route.id == status.market_id),
        bytes@.len() == 0 || bytes@[0] == 5 || bytes@[0] > 6 ==> !(step is Deliver),
        step is Deliver ==> step == ControlStep::Deliver(
            ClientEvent::Data(InboundFrame { bytes, received_at: now }),
        ),
        !(step is Deliver) ==> step is Skip,
{
    lemma_messages_go_by_their_route(
        old(client).frame_filter,
        *reaches,
        bytes@,
        now,
        step is Deliver,
        bbo,
        trade,
        feature,
        book,
        status,
    );
}

/// A client that blocks delivers data by the same routes, and reads on where it does not pass.
pub proof fn law_blocking_reads_filter_datagrams<T, R: Fn(Float64, Float64, Float64) -> bool>(
    link: &mut BlockingLink,
    bytes: Vec<u8>,
    now: u128,
    reaches: &R,
    step: ReadStep<T>,
    bbo: Bbo,
    trade: Trade,
    feature: FeatureBbo,
    book: OrderBookModel,
    status: MarketStatus,
)
    requires
        old(link).wf(),
        call_ensures(BlockingLink::read::<T, R>, (link, ReadLook::Datagram(Some(bytes)), now, reaches), step),
    ensures
        bbo.wire_form(bytes@) ==> {
            let route = RouteModel { id: bbo.market_id, stream: "bbo"@ };
            &&& !old(link).frame_filter.routes@.contains_key(route) ==> !(step is Deliver)
            &&& old(link).frame_filter.routes@.contains_key(route)
                && old(link).frame_filter.routes@[route] is None ==> step is Deliver
        },
        trade.wire_form(bytes@) ==> {
            let route = RouteModel { id: trade.market_id, stream: "trades"@ };
            &&& !old(link).frame_filter.routes@.contains_key(route) ==> !(step is Deliver)
            &&& old(link).frame_filter.routes@.contains_key(route)
                && old(link).frame_filter.routes@[route] is None ==> step is Deliver
        },
        feature.wire_form(bytes@) ==> {
            let route = RouteModel { id: feature.feature_id, stream: "feature"@ };
            &&& !old(link).frame_filter.routes@.contains_key(route) ==> !(step is Deliver)
            &&& old(link).frame_filter.routes@.contains_key(route)
                && old(link).frame_filter.routes@[route] is None ==> step is Deliver
        },
        book.wire_form(bytes@) ==> (step is Deliver
            <==> old(link).frame_filter.routes@.contains_key(
            RouteModel { id: book.market_id, stream: "orderbook."@ + decimal(book.depth as nat) },
        )),
        status.wire_form(bytes@) ==> (step is Deliver <==> exists|route: RouteModel| #[trigger]
            old(link).frame_filter.routes@.contains_key(route) && route.id == status.market_id),
        bytes@.len() == 0 || bytes@[0] == 5 || bytes@[0] > 6 ==> !(step is Deliver),
        step is Deliver ==> step == ReadStep::<T>::Deliver(ControlFrame::Binary(bytes)),
        !(step is Deliver) ==> step is ReadControl,
{
    lemma_messages_go_by_their_route(
        old(link).frame_filter,
        *reaches,
        bytes@,
        now,
        step is Deliver,
        bbo,
        trade,
        feature,
        book,
        status,
    );
}

/// A client that blocks delivers data by the same routes, and reads on where it does not pass.
pub proof fn law_blocking_reads_filter_frames<T, R: Fn(Float64, Float64, Float64) -> bool>(
    link: &mut BlockingLink,
    bytes: Vec<u8>,
    now: u128,
    reaches: &R,
    step: ReadStep<T>,
    bbo: Bbo,
    trade: Trade,
    feature: FeatureBbo,
    book: OrderBookModel,
    status: MarketStatus,
)
    requires
        old(link).wf(),
        call_ensures(BlockingLink::read::<T, R>, (link, ReadLook::Control(ControlFrame::Binary(bytes)), now, reaches), step),
    ensures
        bbo.wire_form(bytes@) ==> {
            let route = RouteModel { id: bbo.market_id, stream: "bbo"@ };
            &&& !old(link).frame_filter.routes@.contains_key(route) ==> !(step is Deliver)
            &&& old(link).frame_filter.routes@.contains_key(route)
                && old(link).frame_filter.routes@[route] is None ==> step is Deliver
        },
        trade.wire_form(bytes@) ==> {
            let route = RouteModel { id: trade.market_id, stream: "trades"@ };
            &&& !old(link).frame_filter.routes@.contains_key(route) ==> !(step is Deliver)
            &&& old(link).frame_filter.routes@.contains_key(route)
                && old(link).frame_filter.routes@[route] is None ==> step is Deliver
        },
        feature.wire_form(bytes@) ==> {
            let route = RouteModel { id: feature.feature_id, stream: "feature"@ };
            &&& !old(link).frame_filter.routes@.contains_key(route) ==> !(step is Deliver)
            &&& old(link).frame_filter.routes@.contains_key(route)
                && old(link).frame_filter.routes@[route] is None ==> step is Deliver
        },
        book.wire_form(bytes@) ==> (step is Deliver
            <==> old(link).frame_filter.routes@.contains_key(
            RouteModel { id: book.market_id, stream: "orderbook."@ + decimal(book.depth as nat) },
        )),
        status.wire_form(bytes@) ==> (step is Deliver <==> exists|route: RouteModel| #[trigger]
            old(link).frame_filter.routes@.contains_key(route) && route.id == status.market_id),
        bytes@.len() == 0 || bytes@[0] == 5 || bytes@[0] > 6 ==> !(step is Deliver),
        step is Deliver ==> step == ReadStep::<T>::Deliver(ControlFrame::Binary(bytes)),
        !(step is Deliver) ==> step is ReadControl,
{
    lemma_messages_go_by_their_route(
        old(link).frame_filter,
        *reaches,
        bytes@,
        now,
        step is Deliver,
        bbo,
        trade,
        feature,
        book,
        status,
    );
}

/// The noise filter, as it is asked about a quote: one side that has moved far enough is
/// enough, and it is measured against the quote that was passed on last.
pub proof fn law_allows_passes_quotes_by_either_side<R: Fn(Float64, Float64, Float64) -> bool>(
    filter: &mut NoiseFilter,
    previous_bid: Float64,
    previous_ask: Float64,
    bid: Float64,
    ask: Float64,
    now: u128,
    reaches: &R,
    allowed: bool,
)
    requires
        old(filter).last_published == Some(
            FilteredPrice::Bbo { bid: previous_bid, ask: previous_ask },
        ),
        call_ensures(
            NoiseFilter::allows::<R>,
            (filter, FilteredPrice::Bbo { bid, ask }, now, reaches),
            allowed,
        ),
    ensures
        !previous_bid.num_eq(bid) && !call_ensures(
            *reaches,
            (previous_bid, bid, old(filter).threshold_bps),
            false,
        ) ==> allowed,
        !previous_ask.num_eq(ask) && !call_ensures(
            *reaches,
            (previous_ask, ask, old(filter).threshold_bps),
            false,
        ) ==> allowed,
        old(filter).last_published_at is Some && now >= old(filter).last_published_at->0
            + 1_000_000_000 ==> allowed,
        previous_bid.num_eq(bid) && previous_ask.num_eq(ask) && !old(filter).threshold_bps.zero()
            && (old(filter).last_published_at is Some ==> now < old(filter).last_published_at->0
            + 1_000_000_000) ==> !allowed,
        allowed ==> final(filter).last_published == Some(FilteredPrice::Bbo { bid, ask })
            && final(filter).last_published_at == Some(now),
        !allowed ==> *final(filter) == *old(filter),
        final(filter).threshold_bps == old(filter).threshold_bps,
{
    law_either_side_moves_a_quote(
        *old(filter),
        *reaches,
        previous_bid,
        previous_ask,
        bid,
        ask,
        now,
        allowed,
    );
    law_noise_is_held_back_for_a_second(
        *old(filter),
        *reaches,
        previous_bid,
        previous_ask,
        bid,
        ask,
        now,
        allowed,
    );
}

/// The noise filter, as it is asked about a trade: the price alone decides, and the first
/// price always passes.
pub proof fn law_allows_passes_trades_by_their_price<R: Fn(Float64, Float64, Float64) -> bool>(
    filter: &mut NoiseFilter,
    price: Float64,
    now: u128,
    reaches: &R,
    allowed: bool,
)
    requires
        call_ensures(
            NoiseFilter::allows::<R>,
            (filter, FilteredPrice::Trade(price), now, reaches),
            allowed,
        ),
    ensures
        !(old(filter).last_published matches Some(FilteredPrice::Trade(_))) ==> allowed,
        old(filter).last_published matches Some(FilteredPrice::Trade(previous)) ==> {
            &&& previous.num_eq(price) ==> allowed == old(filter).threshold_bps.zero()
            &&& !previous.num_eq(price) && !call_ensures(
                *reaches,
                (previous, price, old(filter).threshold_bps),
                false,
            ) ==> allowed
            &&& !previous.num_eq(price) && !previous.zero() && previous.finite() && price.finite()
                && !call_ensures(*reaches, (previous, price, old(filter).threshold_bps), true)
                ==> !allowed
        },
        allowed ==> final(filter).last_published == Some(FilteredPrice::Trade(price)),
        !allowed ==> *final(filter) == *old(filter),
{
}

/// A price moves, as it is asked, where the ratio says so; where there is no ratio it moves
/// unless it is the same, and the same price moves only where every frame is wanted.
pub proof fn law_prices_move_by_their_ratio<R: Fn(Float64, Float64, Float64) -> bool>(
    previous: Float64,
    current: Float64,
    threshold_bps: Float64,
    reaches: &R,
    outcome: bool,
)
    requires
        call_ensures(
            price_moved_bps::<R>,
            (previous, current, threshold_bps, reaches),
            outcome,
        ),
    ensures
        previous.num_eq(current) ==> outcome == threshold_bps.zero(),
        !previous.num_eq(current) && (previous.zero() || !previous.finite() || !current.finite())
            ==> outcome,
        !previous.num_eq(current) && !previous.zero() && previous.finite() && current.finite()
            ==> call_ensures(*reaches, (previous, current, threshold_bps), outcome),
{
}

/// Changing a filter by a request, as it is called: subscribing keeps every route and adds
/// those that are named, unsubscribing keeps exactly those that are not, and a route that is
/// not named keeps what its noise filter remembers.
pub proof fn law_apply_changes_named_routes(
    filter: &mut FrameFilter,
    request: &ControlRequest,
    route: RouteModel,
)
    requires
        old(filter).wf(),
        call_ensures(FrameFilter::apply, (filter, request), ()),
    ensures
        ({
            let named = exists|i: int, j: int|
                0 <= i < request@.args.len() && 0 <= j < request@.args[i].id.len()
                    && #[trigger] request@.args[i].id[j] == route.id && request@.args[i].stream
                    == route.stream;
            let held = old(filter).routes@.contains_key(route);
            let holds = final(filter).routes@.contains_key(route);
            &&& request.op == ControlOperation::Subscribe ==> (holds <==> held || named)
            &&& request.op == ControlOperation::Unsubscribe ==> (holds <==> held && !named)
            &&& request.op == ControlOperation::RefetchBbo ==> *final(filter) == *old(filter)
            &&& held && !named ==> final(filter).routes@[route] == old(filter).routes@[route]
            &&& request.op == ControlOperation::Subscribe && named && final(filter).routes@[route]
                is Some ==> final(filter).routes@[route]->0.last_published is None
        }),
{
    if request.op == ControlOperation::Subscribe {
        law_subscribing_keeps_and_adds_routes(
            old(filter).routes@,
            final(filter).routes@,
            request@,
            route,
        );
    } else {
        law_unsubscribing_keeps_other_routes(
            old(filter).routes@,
            final(filter).routes@,
            request@,
            route,
        );
    }
}

/// Replacing the subscriptions of a filter, as it is called: exactly the routes of the keys
/// are held, and of several keys for one route the last decides over its threshold.
pub proof fn law_replace_subscriptions_leaves_the_new_routes(
    filter: &mut FrameFilter,
    keys: &Vec<SubscriptionKey>,
    route: RouteModel,
    at: int,
)
    requires
        old(filter).wf(),
        call_ensures(FrameFilter::replace_subscriptions, (filter, keys), ()),
    ensures
        final(filter).routes@.contains_key(route) ==> exists|i: int|
            0 <= i < keys@.len() && (#[trigger] keys@[i]).id == route.id && keys@[i].stream@
                == route.stream,
        0 <= at < keys@.len() && keys@[at].id == route.id && keys@[at].stream@ == route.stream && (
        forall|i: int|
            at < i < keys@.len() ==> !((#[trigger] keys@[i]).id == route.id && keys@[i].stream@
                == route.stream)) ==> final(filter).routes@.contains_key(route) && (
        match keys@[at].noise_filter_bps_bits {
            Some(bits) => final(filter).routes@[route] is Some
                && final(filter).routes@[route]->0.threshold_bps.bits == bits
                && final(filter).routes@[route]->0.last_published is None,
            None => final(filter).routes@[route] is None,
        }),
{
    law_replaced_subscriptions(keys@, final(filter).routes@, route, at);
}

} // verus!
