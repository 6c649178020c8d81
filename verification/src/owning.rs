//! Who owns subscriptions, and what a server hears of it.
use vstd::prelude::*;
use crate::blocking::BlockingLink;
use crate::client::{ChangePlan, Client, ClientError};
use crate::collections::{has_key, SameKey};
use crate::filtering::{
    law_replaced_subscriptions, law_subscribing_keeps_and_adds_routes,
    law_unsubscribing_keeps_other_routes,
};
use crate::float64::Float64;
use crate::link_client::{
    elapsed, law_resubscribing_restores_every_subscription, request_for, LinkClient,
    LinkClientConfig, LinkError,
};
use crate::protocol::{
    arg_models, law_key_as_arg_names_that_key, lemma_key_less_irreflexive, ArgModel, ControlOperation,
    ControlRequest, KeyModel, RequestModel, SubscriptionArg, SubscriptionKey,
};
use crate::ref_counts::{
    arg_keys, held_after, key_models, law_listed_subscriptions_have_owners,
    law_only_first_owners_subscribe, law_only_last_owners_unsubscribe, lemma_occurs, occurrences,
    RefCounts,
};
use crate::routes::RouteModel;
use crate::subscribing::{
    law_arguments_are_refused_for_a_reason, law_keys_are_named_by_arguments,
    law_ordinary_characters_are_no_white_space, law_requests_are_refused_for_a_reason,
};
use crate::text::text_less;

verus! {

/// An argument stands for one key per identifier, in order, each with the argument's stream
/// and threshold.
pub proof fn law_arguments_stand_for_their_keys(arg: ArgModel, at: int)
    ensures
        arg_keys(arg).len() == arg.id.len(),
        0 <= at < arg.id.len() ==> {
            let key = arg_keys(arg)[at];
            &&& key.id == arg.id[at]
            &&& key.stream == arg.stream
            &&& key.noise_filter_bps_bits is Some <==> arg.noise_filter_bps is Some
            &&& arg.noise_filter_bps is Some ==> key.noise_filter_bps_bits->0
                == arg.noise_filter_bps->0.bits
        },
{
}

/// Every occurrence of a key counts, and nothing else does.
pub proof fn law_every_occurrence_counts(keys: Seq<KeyModel>, more: KeyModel, key: KeyModel)
    ensures
        occurrences(Seq::<KeyModel>::empty(), key) == 0,
        occurrences(keys.push(more), key) == occurrences(keys, key) + if more == key {
            1int
        } else {
            0int
        },
        keys.contains(key) <==> occurrences(keys, key) > 0,
{
    assert(keys.push(more).drop_last() =~= keys);
    lemma_occurs(keys, key);
}

/// Acquiring adds an owner for every time, and releasing takes one for every time as long as
/// there are any.
pub proof fn law_owners_are_added_and_taken(before: nat, times: nat)
    ensures
        held_after(before, times, false) == before + times,
        times <= before ==> held_after(before, times, true) + times == before,
        times >= before ==> held_after(before, times, true) == 0,
{
}

/// The keys that have so many owners are picked in order, as often as they are listed.
pub proof fn law_keys_are_picked_by_their_owners(
    counts: RefCounts,
    keys: Seq<KeyModel>,
    owners: nat,
    key: KeyModel,
)
    ensures
        counts.with_owners(keys, owners).contains(key) <==> keys.contains(key) && counts.count(
            key,
        ) == owners,
        occurrences(counts.with_owners(keys, owners), key) == if counts.count(key) == owners {
            occurrences(keys, key)
        } else {
            0
        },
    decreases keys.len(),
{
    if keys.len() > 0 {
        let fewer = keys.drop_last();
        law_keys_are_picked_by_their_owners(counts, fewer, owners, key);
        if counts.count(keys.last()) == owners {
            assert(counts.with_owners(keys, owners).drop_last() =~= counts.with_owners(
                fewer,
                owners,
            ));
        }
    }
    lemma_occurs(keys, key);
    lemma_occurs(counts.with_owners(keys, owners), key);
}

/// A request for keys has one argument per key, in order, that names the key alone.
pub proof fn law_requests_name_one_key_per_argument(
    op: ControlOperation,
    keys: Seq<KeyModel>,
    at: int,
)
    ensures
        request_for(op, keys).op == op,
        request_for(op, keys).args.len() == keys.len(),
        0 <= at < keys.len() ==> {
            let arg = request_for(op, keys).args[at];
            &&& arg.id == seq![keys[at].id]
            &&& arg.stream == keys[at].stream
            &&& arg.noise_filter_bps is Some <==> keys[at].noise_filter_bps_bits is Some
            &&& arg.noise_filter_bps is Some ==> arg.noise_filter_bps->0.bits
                == keys[at].noise_filter_bps_bits->0
        },
{
}

/// The server is asked for a key exactly where the key is acquired and had no owner, once;
/// what others own already is not asked for again.
pub proof fn law_first_owners_ask(counts: RefCounts, arg: ArgModel, at: int)
    requires
        0 <= at < arg.id.len(),
    ensures
        ({
            let keys = arg_keys(arg);
            let asked = counts.newly_held(keys);
            &&& counts.count(keys[at]) == 0 ==> asked.contains(keys[at]) && occurrences(
                asked,
                keys[at],
            ) == 1
            &&& counts.count(keys[at]) > 0 ==> !asked.contains(keys[at])
            &&& forall|key: KeyModel| #[trigger] asked.contains(key) ==> keys.contains(key)
        }),
{
    let keys = arg_keys(arg);
    let asked = counts.newly_held(keys);
    assert(keys.contains(keys[at]));
    law_only_first_owners_subscribe(counts, keys, keys[at]);
    lemma_occurs(asked, keys[at]);
    assert forall|key: KeyModel| #[trigger] asked.contains(key) implies keys.contains(key) by {
        law_only_first_owners_subscribe(counts, keys, key);
    }
}

/// The server is told of a key exactly where its owners are all gone, once; what others
/// still own stays subscribed.
pub proof fn law_last_owners_tell(counts: RefCounts, arg: ArgModel, key: KeyModel)
    ensures
        ({
            let keys = arg_keys(arg);
            let told = counts.newly_free(keys);
            &&& told.contains(key) <==> counts.count(key) > 0 && held_after(
                counts.count(key),
                occurrences(keys, key),
                true,
            ) == 0 && keys.contains(key)
            &&& occurrences(told, key) <= 1
        }),
{
    let keys = arg_keys(arg);
    law_only_last_owners_unsubscribe(counts, keys, key);
    lemma_occurs(keys, key);
}

/// A request is refused exactly where the transport is not ready or a rule is broken, and
/// the transport is looked at first.
pub proof fn law_requests_are_refused_by_the_client(client: LinkClient, request: RequestModel)
    ensures
        client.refusal(request) is None <==> client.transport_ready && request.error() is None,
        !client.transport_ready ==> client.refusal(request) == Some(LinkError::NotReady),
        client.transport_ready && request.error() is Some ==> client.refusal(request) == Some(
            LinkError::Protocol(request.error()->0),
        ),
{
}

/// A ping is due once the interval has passed since something was sent, and not before.
pub proof fn law_pings_are_due_after_the_interval(sent_at: u128, now: u128, interval: u128)
    requires
        interval > 0,
    ensures
        elapsed(sent_at, now) >= interval <==> now >= sent_at + interval,
{
}

/// A request for keys names those keys and no others.
pub proof fn law_requests_name_their_keys(
    op: ControlOperation,
    keys: Seq<KeyModel>,
    key: KeyModel,
)
    ensures
        request_for(op, keys).names(key) <==> keys.contains(key),
{
    let request = request_for(op, keys);
    if request.names(key) {
        let i = choose|i: int|
            0 <= i < request.args.len() && (#[trigger] request.args[i]).names(key);
        law_key_as_arg_names_that_key(keys[i]);
        assert(keys[i] == key);
    }
    if keys.contains(key) {
        let i = choose|i: int| 0 <= i < keys.len() && keys[i] == key;
        law_key_as_arg_names_that_key(keys[i]);
        assert(request.args[i].names(key));
    }
}

/// One owner more or less, as it is called: the count of that key moves by one, no other
/// moves, and the last owner is told so.
pub proof fn law_counts_move_by_one(
    more: &mut RefCounts,
    less: &mut RefCounts,
    key: &SubscriptionKey,
    last: bool,
    other: KeyModel,
)
    requires
        old(more).wf(),
        old(less).wf(),
        old(more).count(key@) < usize::MAX,
        call_ensures(RefCounts::acquire_one, (more, key), ()),
        call_ensures(RefCounts::release_one, (less, key), last),
        other != key@,
    ensures
        final(more).count(key@) == old(more).count(key@) + 1,
        final(more).count(other) == old(more).count(other),
        old(less).count(key@) > 0 ==> final(less).count(key@) + 1 == old(less).count(key@),
        old(less).count(key@) == 0 ==> final(less).count(key@) == 0,
        final(less).count(other) == old(less).count(other),
        last <==> old(less).count(key@) == 1,
{
}

/// Acquiring, as it is called: every key of the argument gets an owner for each time it is
/// named, whether the request can be sent or not. The request asks for exactly those keys
/// that had no owner; there is none where all had one.
pub proof fn law_acquire_asks_for_new_keys(
    client: &mut LinkClient,
    arg: &SubscriptionArg,
    result: Result<Option<ControlRequest>, LinkError>,
    key: KeyModel,
)
    requires
        old(client).wf(),
        arg@.error() is None,
        old(client).ref_counts.has_room(arg_keys(arg@)),
        call_ensures(LinkClient::acquire, (client, arg), result),
    ensures
        final(client).ref_counts.count(key) == old(client).ref_counts.count(key) + occurrences(
            arg_keys(arg@),
            key,
        ),
        result matches Ok(Some(request)) ==> {
            &&& request.op == ControlOperation::Subscribe
            &&& request@.names(key) <==> arg_keys(arg@).contains(key)
                && old(client).ref_counts.count(key) == 0
            &&& old(client).transport_ready
        },
        result matches Ok(None) ==> (arg_keys(arg@).contains(key)
            ==> old(client).ref_counts.count(key) > 0),
        arg_keys(arg@).contains(key) && old(client).ref_counts.count(key) == 0
            && !old(client).transport_ready ==> result
            == Err::<Option<ControlRequest>, _>(LinkError::NotReady),
        final(client).config == old(client).config,
        final(client).has_udp_socket == old(client).has_udp_socket,
        final(client).frame_filter == old(client).frame_filter,
        final(client).last_message_sent == old(client).last_message_sent,
        final(client).transport_ready == old(client).transport_ready,
{
    let keys = arg_keys(arg@);
    let first = old(client).ref_counts.newly_held(keys);
    law_only_first_owners_subscribe(old(client).ref_counts, keys, key);
    law_requests_name_their_keys(ControlOperation::Subscribe, first, key);
    if first.len() == 0 {
        assert(!first.contains(key));
    }
}

/// Releasing, as it is called: every key of the argument loses an owner for each time it is
/// named, as far as it has any. The request gives up exactly those keys that have none left.
pub proof fn law_release_gives_up_free_keys(
    client: &mut LinkClient,
    arg: &SubscriptionArg,
    result: Result<Option<ControlRequest>, LinkError>,
    key: KeyModel,
)
    requires
        old(client).wf(),
        arg@.error() is None,
        call_ensures(LinkClient::release, (client, arg), result),
    ensures
        ({
            let times = occurrences(arg_keys(arg@), key);
            let before = old(client).ref_counts.count(key);
            let after = final(client).ref_counts.count(key);
            &&& times <= before ==> after + times == before
            &&& times > before ==> after == 0
            &&& result matches Ok(Some(request)) ==> {
                &&& request.op == ControlOperation::Unsubscribe
                &&& request@.names(key) <==> before > 0 && after == 0
            }
            &&& result matches Ok(None) ==> !(before > 0 && after == 0)
            &&& before > 0 && after == 0 && !old(client).transport_ready ==> result == Err::<
                Option<ControlRequest>,
                _,
            >(LinkError::NotReady)
        }),
        final(client).config == old(client).config,
        final(client).has_udp_socket == old(client).has_udp_socket,
        final(client).frame_filter == old(client).frame_filter,
        final(client).last_message_sent == old(client).last_message_sent,
        final(client).transport_ready == old(client).transport_ready,
{
    let keys = arg_keys(arg@);
    let last = old(client).ref_counts.newly_free(keys);
    law_only_last_owners_unsubscribe(old(client).ref_counts, keys, key);
    law_requests_name_their_keys(ControlOperation::Unsubscribe, last, key);
    law_owners_are_added_and_taken(old(client).ref_counts.count(key), occurrences(keys, key));
    assert(final(client).ref_counts.count(key) == held_after(
        old(client).ref_counts.count(key),
        occurrences(keys, key),
        true,
    ));
    if last.len() == 0 {
        assert(!last.contains(key));
    }
}

/// Acquiring and then releasing the same argument leaves every count as it was.
pub proof fn law_release_undoes_acquire_of_an_argument(
    first: &mut LinkClient,
    second: &mut LinkClient,
    arg: &SubscriptionArg,
    acquired: Result<Option<ControlRequest>, LinkError>,
    released: Result<Option<ControlRequest>, LinkError>,
    key: KeyModel,
)
    requires
        old(first).wf(),
        arg@.error() is None,
        old(first).ref_counts.has_room(arg_keys(arg@)),
        call_ensures(LinkClient::acquire, (first, arg), acquired),
        *old(second) == *final(first),
        call_ensures(LinkClient::release, (second, arg), released),
    ensures
        final(second).ref_counts.count(key) == old(first).ref_counts.count(key),
        acquired is Ok && acquired->Ok_0 is Some && released is Ok && released->Ok_0 is Some ==> (
        acquired->Ok_0->0@.names(key) <==> released->Ok_0->0@.names(key)),
{
    law_acquire_asks_for_new_keys(first, arg, acquired, key);
    law_release_gives_up_free_keys(second, arg, released, key);
    lemma_occurs(arg_keys(arg@), key);
}

/// Subscribing anew, as it is called: the request names exactly the keys that have owners,
/// and there is one exactly where there are such keys.
pub proof fn law_resubscribe_asks_for_owned_keys(
    client: &LinkClient,
    result: Result<Option<ControlRequest>, LinkError>,
    key: KeyModel,
)
    requires
        client.wf(),
        call_ensures(LinkClient::resubscribe, (client,), result),
    ensures
        result matches Ok(Some(request)) ==> request.op == ControlOperation::Subscribe && (
        request@.names(key) <==> client.ref_counts.count(key) > 0),
        result matches Ok(None) ==> client.ref_counts.count(key) == 0,
        client.ref_counts.count(key) > 0 && !client.transport_ready ==> result == Err::<
            Option<ControlRequest>,
            _,
        >(LinkError::NotReady),
{
    law_resubscribing_restores_every_subscription(client.ref_counts, key);
    law_listed_subscriptions_have_owners(client.ref_counts, key);
}

/// The same holds of a client that waits for its replies: it plans to ask for keys without
/// owners and to give up keys with one, and changes nothing before the server has agreed.
pub proof fn law_plans_ask_for_new_keys(
    client: &Client,
    arg: &SubscriptionArg,
    acquired: Result<ChangePlan, ClientError>,
    released: Result<ChangePlan, ClientError>,
    key: KeyModel,
)
    requires
        client.wf(),
        arg@.error() is None,
        call_ensures(Client::acquire, (client, arg), acquired),
        call_ensures(Client::release, (client, arg), released),
    ensures
        acquired is Ok && released is Ok,
        key_models(acquired->Ok_0.keys@) == arg_keys(arg@),
        key_models(released->Ok_0.keys@) == arg_keys(arg@),
        !acquired->Ok_0.release && released->Ok_0.release,
        acquired->Ok_0.request matches Some(request) ==> request.op == ControlOperation::Subscribe
            && (request@.names(key) <==> arg_keys(arg@).contains(key) && client.ref_counts.count(
            key,
        ) == 0),
        acquired->Ok_0.request is None ==> !(arg_keys(arg@).contains(key)
            && client.ref_counts.count(key) == 0),
        released->Ok_0.request matches Some(request) ==> request.op
            == ControlOperation::Unsubscribe && (request@.names(key) <==> arg_keys(
            arg@,
        ).contains(key) && client.ref_counts.count(key) == 1),
        released->Ok_0.request is None ==> !(arg_keys(arg@).contains(key)
            && client.ref_counts.count(key) == 1),
{
    let keys = arg_keys(arg@);
    let first = client.ref_counts.with_owners(keys, 0);
    let last = client.ref_counts.with_owners(keys, 1);
    law_keys_are_picked_by_their_owners(client.ref_counts, keys, 0, key);
    law_keys_are_picked_by_their_owners(client.ref_counts, keys, 1, key);
    law_requests_name_their_keys(ControlOperation::Subscribe, first, key);
    law_requests_name_their_keys(ControlOperation::Unsubscribe, last, key);
    if first.len() == 0 {
        assert(!first.contains(key));
    }
    if last.len() == 0 {
        assert(!last.contains(key));
    }
}

/// A planned change is made exactly where the server has agreed, and by as many owners as
/// the plan names.
pub proof fn law_conclude_follows_the_server(
    client: &mut Client,
    plan: &ChangePlan,
    acknowledged: Result<(), ClientError>,
    result: Result<(), ClientError>,
    key: KeyModel,
)
    requires
        old(client).wf(),
        call_ensures(Client::conclude, (client, plan, acknowledged), result),
    ensures
        result == acknowledged,
        acknowledged is Err ==> *final(client) == *old(client),
        acknowledged is Ok && !plan.release ==> final(client).ref_counts.count(key)
            == old(client).ref_counts.count(key) + occurrences(key_models(plan.keys@), key),
        acknowledged is Ok && plan.release
            && occurrences(key_models(plan.keys@), key) <= old(client).ref_counts.count(key)
            ==> final(client).ref_counts.count(key) + occurrences(
            key_models(plan.keys@),
            key,
        ) == old(client).ref_counts.count(key),
        final(client).pending_events == old(client).pending_events,
        final(client).next_request_id == old(client).next_request_id,
{
    if acknowledged is Ok {
        assert(final(client).ref_counts.count(key) == held_after(
            old(client).ref_counts.count(key),
            occurrences(key_models(plan.keys@), key),
            plan.release,
        ));
    }
}

/// A client that waits for its replies asks for the same when it is to subscribe anew.
pub proof fn law_waiting_clients_resubscribe_owned_keys(
    client: &Client,
    request: Option<ControlRequest>,
    key: KeyModel,
)
    requires
        client.wf(),
        call_ensures(Client::resubscribe, (client,), request),
    ensures
        request matches Some(request) ==> request.op == ControlOperation::Subscribe && (
        request@.names(key) <==> client.ref_counts.count(key) > 0),
        request is None ==> client.ref_counts.count(key) == 0,
{
    law_resubscribing_restores_every_subscription(client.ref_counts, key);
    law_listed_subscriptions_have_owners(client.ref_counts, key);
}

/// Whoever takes over subscriptions has exactly their owners and filters by exactly their
/// routes.
pub proof fn law_take_over_filters_by_the_owned_keys(
    client: &mut LinkClient,
    ref_counts: RefCounts,
    route: RouteModel,
    key: KeyModel,
)
    requires
        old(client).wf(),
        ref_counts.wf(),
        call_ensures(LinkClient::take_over, (client, ref_counts), ()),
    ensures
        final(client).ref_counts == ref_counts,
        final(client).frame_filter.routes@.contains_key(route) ==> exists|owned: KeyModel|
         #[trigger]
            ref_counts.count(owned) > 0 && owned.id == route.id && owned.stream == route.stream,
        final(client).transport_ready == old(client).transport_ready,
{
    let keys = ref_counts.counts.keys@;
    law_replaced_subscriptions(keys, final(client).frame_filter.routes@, route, 0);
    if final(client).frame_filter.routes@.contains_key(route) {
        let i = choose|i: int|
            0 <= i < keys.len() && (#[trigger] keys[i]).id == route.id && keys[i].stream@
                == route.stream;
        assert(has_key(keys, keys[i]@));
        law_listed_subscriptions_have_owners(ref_counts, keys[i]@);
        assert(ref_counts.count(keys[i]@) > 0);
    }
}

/// A ping is due, as it is asked, once the interval has passed since something was sent.
pub proof fn law_ping_due_after_the_interval(
    link: &LinkClient,
    waiting: &Client,
    now: u128,
    link_due: bool,
    waiting_due: bool,
)
    requires
        link.config.keepalive_interval > 0,
        waiting.config.keepalive_interval > 0,
        call_ensures(LinkClient::ping_due, (link, now), link_due),
        call_ensures(Client::ping_due, (waiting, now), waiting_due),
    ensures
        link_due <==> now >= link.last_message_sent + link.config.keepalive_interval,
        waiting_due <==> now >= waiting.last_message_sent + waiting.config.keepalive_interval,
{
}

/// The keys of an argument, as they are asked for: one per identifier, in order, each with the
/// argument's stream and threshold.
pub proof fn law_keys_lists_identifiers(
    arg: &SubscriptionArg,
    keys: Vec<SubscriptionKey>,
    at: int,
)
    requires
        call_ensures(SubscriptionArg::keys, (arg,), keys),
    ensures
        keys@.len() == arg.id@.len(),
        0 <= at < keys@.len() ==> {
            &&& keys@[at].id == arg.id@[at]
            &&& keys@[at].stream@ == arg.stream@
            &&& keys@[at].noise_filter_bps_bits is Some <==> arg.noise_filter_bps is Some
            &&& arg.noise_filter_bps is Some ==> keys@[at].noise_filter_bps_bits->0
                == arg.noise_filter_bps->0.bits
        },
{
    if 0 <= at < keys@.len() {
        assert(keys@[at]@ == arg@.key(at));
    }
}

/// The keys of a request, as they are asked for: every key that an argument names and no
/// other, each once, by identifier first.
pub proof fn law_keys_lists_named_keys(
    request: &ControlRequest,
    keys: Vec<SubscriptionKey>,
    key: KeyModel,
    left: int,
    right: int,
)
    requires
        call_ensures(ControlRequest::keys, (request,), keys),
    ensures
        has_key(keys@, key) <==> exists|i: int, j: int|
            0 <= i < request@.args.len() && 0 <= j < request@.args[i].id.len()
                && #[trigger] request@.args[i].id[j] == key.id && request@.args[i].stream
                == key.stream && (match request@.args[i].noise_filter_bps {
                Some(threshold) => key.noise_filter_bps_bits == Some(threshold.bits),
                None => key.noise_filter_bps_bits is None,
            }),
        0 <= left < right < keys@.len() ==> keys@[left].id <= keys@[right].id && keys@[left]@
            != keys@[right]@,
{
    law_keys_are_named_by_arguments(request@, key);
    assert(has_key(keys@, key) <==> request@.names(key));
    if 0 <= left < right < keys@.len() {
        assert(keys@[left]@.less(keys@[right]@));
        lemma_key_less_irreflexive(keys@[left]@);
    }
}

/// Keys, as they are compared: by identifier first, then by stream, and a key without a
/// threshold comes before the same one with a threshold.
pub proof fn law_keys_are_ordered(
    left: &SubscriptionKey,
    right: &SubscriptionKey,
    less: bool,
    same: bool,
)
    requires
        call_ensures(SubscriptionKey::is_less, (left, right), less),
        call_ensures(SubscriptionKey::same, (left, right), same),
    ensures
        left.id != right.id ==> less == (left.id < right.id),
        left.id == right.id && left.stream@ != right.stream@ ==> less == text_less(
            left.stream@,
            right.stream@,
        ),
        left.id == right.id && left.stream@ == right.stream@ ==> {
            &&& left.noise_filter_bps_bits is None && right.noise_filter_bps_bits is Some ==> less
            &&& right.noise_filter_bps_bits is None ==> !less
            &&& left.noise_filter_bps_bits is Some && right.noise_filter_bps_bits is Some
                ==> less == (left.noise_filter_bps_bits->0 < right.noise_filter_bps_bits->0)
        },
        same <==> left.id == right.id && left.stream@ == right.stream@
            && left.noise_filter_bps_bits == right.noise_filter_bps_bits,
        !(less && same),
{
    lemma_key_less_irreflexive(left@);
}

/// A key and the argument that names it alone say the same.
pub proof fn law_keys_and_arguments_agree(
    key: &SubscriptionKey,
    arg: SubscriptionArg,
    threshold: Option<Float64>,
    id: i32,
    stream: &String,
    routes: bool,
)
    requires
        call_ensures(SubscriptionKey::as_arg, (key,), arg),
        call_ensures(SubscriptionKey::noise_filter_bps, (key,), threshold),
        call_ensures(SubscriptionKey::is_route_of, (key, id, stream), routes),
    ensures
        arg.id@ == seq![key.id],
        arg.stream@ == key.stream@,
        arg.noise_filter_bps == threshold,
        threshold is Some <==> key.noise_filter_bps_bits is Some,
        threshold is Some ==> threshold->0.bits == key.noise_filter_bps_bits->0,
        routes <==> key.id == id && key.stream@ == stream@,
{
    assert(arg@ == key@.arg());
}

/// What is asked for by a filter follows what was sent: subscribing keeps and adds routes,
/// unsubscribing keeps those that are not named, and owners are not touched.
pub proof fn law_request_sent_moves_the_filter(
    client: &mut LinkClient,
    request: &ControlRequest,
    route: RouteModel,
)
    requires
        old(client).wf(),
        call_ensures(LinkClient::request_sent, (client, request), ()),
    ensures
        ({
            let named = exists|i: int, j: int|
                0 <= i < request@.args.len() && 0 <= j < request@.args[i].id.len()
                    && #[trigger] request@.args[i].id[j] == route.id && request@.args[i].stream
                    == route.stream;
            let held = old(client).frame_filter.routes@.contains_key(route);
            let holds = final(client).frame_filter.routes@.contains_key(route);
            &&& request.op == ControlOperation::Subscribe ==> (holds <==> held || named)
            &&& request.op == ControlOperation::Unsubscribe ==> (holds <==> held && !named)
            &&& request.op == ControlOperation::RefetchBbo ==> (holds <==> held)
        }),
        final(client).ref_counts == old(client).ref_counts,
        final(client).transport_ready == old(client).transport_ready,
{
    if request.op == ControlOperation::Subscribe {
        law_subscribing_keeps_and_adds_routes(
            old(client).frame_filter.routes@,
            final(client).frame_filter.routes@,
            request@,
            route,
        );
    } else {
        law_unsubscribing_keeps_other_routes(
            old(client).frame_filter.routes@,
            final(client).frame_filter.routes@,
            request@,
            route,
        );
    }
}

/// The same of a client that blocks, which sends requests and other messages.
pub proof fn law_blocking_sends_move_the_filter(
    link: &mut BlockingLink,
    sent: Option<ControlRequest>,
    route: RouteModel,
)
    requires
        old(link).wf(),
        call_ensures(BlockingLink::send, (link, sent), ()),
    ensures
        sent is None ==> *final(link) == *old(link),
        sent matches Some(request) ==> {
            let named = exists|i: int, j: int|
                0 <= i < request@.args.len() && 0 <= j < request@.args[i].id.len()
                    && #[trigger] request@.args[i].id[j] == route.id && request@.args[i].stream
                    == route.stream;
            let held = old(link).frame_filter.routes@.contains_key(route);
            let holds = final(link).frame_filter.routes@.contains_key(route);
            &&& request.op == ControlOperation::Subscribe ==> (holds <==> held || named)
            &&& request.op == ControlOperation::Unsubscribe ==> (holds <==> held && !named)
            &&& request.op == ControlOperation::RefetchBbo ==> (holds <==> held)
        },
        final(link).has_udp == old(link).has_udp,
{
    if let Some(request) = sent {
        if request.op == ControlOperation::Subscribe {
            law_subscribing_keeps_and_adds_routes(
                old(link).frame_filter.routes@,
                final(link).frame_filter.routes@,
                request@,
                route,
            );
        } else {
            law_unsubscribing_keeps_other_routes(
                old(link).frame_filter.routes@,
                final(link).frame_filter.routes@,
                request@,
                route,
            );
        }
    }
}

/// A client starts without subscriptions, without routes and before its transport; it cannot
/// be had for an Aeron stream where Aeron is not enabled.
pub proof fn law_clients_start_empty(
    config: LinkClientConfig,
    has_udp_socket: bool,
    now: u128,
    result: Result<LinkClient, LinkError>,
    key: KeyModel,
    route: RouteModel,
)
    requires
        call_ensures(LinkClient::new, (config, has_udp_socket, now), result),
    ensures
        result is Err <==> (config.transport is AeronIpc || config.transport is AeronUdp)
            && !config.aeron_enabled,
        result is Err ==> result->Err_0 is AeronDisabled,
        result matches Ok(client) ==> {
            &&& client.ref_counts.count(key) == 0
            &&& !client.frame_filter.routes@.contains_key(route)
            &&& !client.transport_ready
            &&& client.has_udp_socket == has_udp_socket
            &&& client.last_message_sent == now
        },
{
}

/// Sending a request and fetching again, as they are called: both are refused exactly where
/// the transport is not ready or a rule is broken.
pub proof fn law_requests_need_a_ready_transport(
    client: &LinkClient,
    request: &ControlRequest,
    sent: Result<(), LinkError>,
    ids: Vec<i32>,
    refetched: Result<ControlRequest, LinkError>,
)
    requires
        call_ensures(LinkClient::send_request, (client, request), sent),
        call_ensures(LinkClient::refetch_bbo, (client, ids), refetched),
    ensures
        sent is Ok <==> client.transport_ready && request@.error() is None,
        !client.transport_ready ==> sent == Err::<(), _>(LinkError::NotReady) && refetched
            is Err,
        refetched matches Ok(fetch) ==> {
            &&& fetch.op == ControlOperation::RefetchBbo
            &&& fetch@.args.len() == 1
            &&& fetch@.args[0].id == ids@
            &&& fetch@.args[0].stream == "bbo"@
        },
        client.transport_ready && ids@.len() > 0 ==> refetched is Ok,
        ids@.len() == 0 ==> refetched is Err,
{
    let fetch = RequestModel {
        op: ControlOperation::RefetchBbo,
        args: seq![ArgModel { id: ids@, stream: "bbo"@, noise_filter_bps: None }],
    };
    reveal_strlit("bbo");
    law_arguments_are_refused_for_a_reason(fetch.args[0]);
    law_requests_are_refused_for_a_reason(fetch, 0);
    law_ordinary_characters_are_no_white_space('b');
    assert(fetch.args[0].stream[0] == 'b');
    if ids@.len() > 0 {
        assert(fetch.args[0].error() is None);
        assert forall|i: int| 0 <= i < fetch.args.len() implies (#[trigger] fetch.args[i]).error()
            is None by {}
        assert(fetch.error() is None);
    }
}

/// Acquiring and releasing many keys, as they are called: each counts as often as it is
/// listed, and the arguments that come back name exactly the keys that got their first owner
/// or lost their last.
pub proof fn law_many_keys_are_acquired_and_released(
    more: &mut RefCounts,
    less: &mut RefCounts,
    keys: &Vec<SubscriptionKey>,
    first: Vec<SubscriptionArg>,
    last: Vec<SubscriptionArg>,
    key: KeyModel,
)
    requires
        old(more).wf(),
        old(less).wf(),
        old(more).has_room(key_models(keys@)),
        call_ensures(RefCounts::acquire_all, (more, keys), first),
        call_ensures(RefCounts::release_all, (less, keys), last),
    ensures
        ({
            let listed = key_models(keys@);
            let times = occurrences(listed, key);
            let asked = RequestModel { op: ControlOperation::Subscribe, args: arg_models(first@) };
            let told = RequestModel { op: ControlOperation::Unsubscribe, args: arg_models(last@) };
            &&& final(more).count(key) == old(more).count(key) + times
            &&& asked.names(key) <==> listed.contains(key) && old(more).count(key) == 0
            &&& times <= old(less).count(key) ==> final(less).count(key) + times
                == old(less).count(key)
            &&& times > old(less).count(key) ==> final(less).count(key) == 0
            &&& told.names(key) <==> old(less).count(key) > 0 && final(less).count(key) == 0
                && listed.contains(key)
        }),
{
    let listed = key_models(keys@);
    law_only_first_owners_subscribe(*old(more), listed, key);
    law_only_last_owners_unsubscribe(*old(less), listed, key);
    law_requests_name_their_keys(
        ControlOperation::Subscribe,
        old(more).newly_held(listed),
        key,
    );
    law_requests_name_their_keys(
        ControlOperation::Unsubscribe,
        old(less).newly_free(listed),
        key,
    );
    lemma_occurs(listed, key);
    assert(final(less).count(key) == held_after(
        old(less).count(key),
        occurrences(listed, key),
        true,
    ));
}

/// Picking keys by their owners and listing all, as they are called.
pub proof fn law_keys_are_listed_by_their_owners(
    counts: &RefCounts,
    keys: &Vec<SubscriptionKey>,
    owners: usize,
    selected: Vec<SubscriptionArg>,
    all: Vec<SubscriptionArg>,
    copy: RefCounts,
    key: KeyModel,
)
    requires
        counts.wf(),
        call_ensures(RefCounts::select, (counts, keys, owners), selected),
        call_ensures(RefCounts::all_args, (counts,), all),
        call_ensures(RefCounts::duplicate, (counts,), copy),
    ensures
        (RequestModel { op: ControlOperation::Subscribe, args: arg_models(selected@) }).names(key)
            <==> key_models(keys@).contains(key) && counts.count(key) == owners,
        (RequestModel { op: ControlOperation::Subscribe, args: arg_models(all@) }).names(key)
            <==> counts.count(key) > 0,
        copy.count(key) == counts.count(key),
{
    let listed = key_models(keys@);
    law_keys_are_picked_by_their_owners(*counts, listed, owners as nat, key);
    law_requests_name_their_keys(
        ControlOperation::Subscribe,
        counts.with_owners(listed, owners as nat),
        key,
    );
    law_resubscribing_restores_every_subscription(*counts, key);
}

/// The owners of a key, as they are asked for.
pub proof fn law_owners_are_counted(
    counts: &RefCounts,
    link: &LinkClient,
    waiting: &Client,
    key: &SubscriptionKey,
    count: usize,
    link_count: usize,
    waiting_count: usize,
)
    requires
        counts.wf(),
        link.wf(),
        waiting.wf(),
        call_ensures(RefCounts::get, (counts, key), count),
        call_ensures(LinkClient::subscription_count, (link, key), link_count),
        call_ensures(Client::subscription_count, (waiting, key), waiting_count),
    ensures
        count == 0 <==> !counts.counts@.contains_key(key@),
        counts.counts@.contains_key(key@) ==> count == counts.counts@[key@],
        link_count == link.ref_counts.count(key@),
        waiting_count == waiting.ref_counts.count(key@),
{
}

} // verus!
