//! Which groups a hub sends frames to, and what it hands to its worker.
use vstd::prelude::*;
use crate::aeron_hub::{
    conclude_join, conclude_publish, concluded, failed_offers, frames_for, is_lowest, join_result,
    remembered, wishes, AeronStreamHub, FailedOffer, FrameKeyModel, HubError, HubState, JoinStep,
    LowestThreshold, Worker,
};
use crate::aeron_publisher::PublicationOffer;
use crate::collections::{distinct, has_key, lemma_models_len, models};
use crate::float64::Float64;
use crate::protocol::{
    AeronConfig, AeronConfigModel, ControlOperation, ControlRequest, KeyModel, SubscriptionKey,
};
use crate::routes::{
    members_want, members_want_market, subscribed, subscribed_market, RouteModel, StreamKey,
};
use crate::subscribing::law_changes_keep_what_is_not_named;
use crate::worker_link::{may_join, CommandModel, SendOutcome};

verus! {

/// A frame is for a group exactly if one of its clients holds a subscription to its
/// identifier and stream, at whatever threshold; a market status is for everyone who holds
/// any subscription to the market.
pub proof fn law_groups_get_what_their_clients_follow(
    state: HubState,
    group: AeronConfigModel,
    key: KeyModel,
)
    requires
        state.wf(),
    ensures
        state.matches(group, key) <==> exists|client: u64, held: KeyModel| #[trigger]
            state.subscriptions@[client]@.contains(held) && held.id == key.id && (held.stream
                == key.stream || key.stream == "market_status"@)
                && state.client_groups@.contains_key(client) && state.client_groups@[client]@
                == group,
{
    let members = state.groups@[group].members@;
    let route = RouteModel { id: key.id, stream: key.stream };
    if state.matches(group, key) {
        if key.stream == "market_status"@ {
            assert(members_want_market(members, state.subscriptions@, key.id));
            let client = choose|client: u64| #[trigger]
                members.contains(client) && state.subscriptions@.contains_key(client)
                    && subscribed_market(state.subscriptions@[client]@, key.id);
            let held = choose|held: KeyModel| #[trigger]
                state.subscriptions@[client]@.contains(held) && held.id == key.id;
            assert(state.groups@[group].members@.contains(client));
            assert(state.subscriptions@[client]@.contains(held));
        } else {
            assert(members_want(members, state.subscriptions@, route));
            let client = choose|client: u64| #[trigger]
                members.contains(client) && state.subscriptions@.contains_key(client)
                    && subscribed(state.subscriptions@[client]@, route);
            let held = choose|held: KeyModel| #[trigger]
                state.subscriptions@[client]@.contains(held) && held.routes(
                    route.id,
                    route.stream,
                );
            assert(state.groups@[group].members@.contains(client));
            assert(state.subscriptions@[client]@.contains(held));
        }
    }
    if exists|client: u64, held: KeyModel| #[trigger]
        state.subscriptions@[client]@.contains(held) && held.id == key.id && (held.stream
            == key.stream || key.stream == "market_status"@)
            && state.client_groups@.contains_key(client) && state.client_groups@[client]@
            == group {
        let (client, held) = choose|client: u64, held: KeyModel| #[trigger]
            state.subscriptions@[client]@.contains(held) && held.id == key.id && (held.stream
                == key.stream || key.stream == "market_status"@)
                && state.client_groups@.contains_key(client) && state.client_groups@[client]@
                == group;
        assert(state.groups@[group].members@.contains(client));
        assert(state.subscriptions@.contains_key(client));
        assert(subscribed_market(state.subscriptions@[client]@, key.id));
        if held.stream == key.stream {
            assert(held.routes(route.id, route.stream));
            assert(subscribed(state.subscriptions@[client]@, route));
        }
    }
}

/// A frame is sent to a group that follows it unless the same bytes were sent on the same
/// route of that group lately. What is sent is remembered there and nowhere else, so that
/// the same frame is not sent a second time.
pub proof fn law_frames_are_sent_once(
    before: HubState,
    after: HubState,
    key: KeyModel,
    bytes: Seq<u8>,
    group: AeronConfigModel,
    other: FrameKeyModel,
)
    requires
        before.took_frame(after, key, bytes),
    ensures
        ({
            let own = FrameKeyModel { group, id: key.id, stream: key.stream };
            let sent = before.fresh_groups(key, bytes).contains(group);
            &&& sent <==> before.matches(group, key) && !before.recent(own).contains(bytes)
            &&& sent ==> after.recent(own).len() > 0 && after.recent(own).last() == bytes
            &&& sent && before.recent(own).len() < 256 ==> after.recent(own)
                == before.recent(own).push(bytes)
            &&& sent && before.recent(own).len() == 256 ==> after.recent(own)
                == before.recent(own).skip(1).push(bytes)
            &&& !sent ==> after.recent(own) == before.recent(own)
            &&& !after.fresh_groups(key, bytes).contains(group)
        }),
        other.id != key.id || other.stream != key.stream ==> after.recent(other) == before.recent(
            other,
        ),
        after.groups == before.groups,
        after.client_groups == before.client_groups,
        after.subscriptions == before.subscriptions,
{
    let own = FrameKeyModel { group, id: key.id, stream: key.stream };
    assert(after.recent(own) == if before.fresh_groups(key, bytes).contains(group) {
        remembered(before.recent(own), bytes)
    } else {
        before.recent(own)
    });
    if before.fresh_groups(key, bytes).contains(group) {
        let now = after.recent(own);
        assert(now[now.len() - 1] == bytes);
        assert(now.contains(bytes));
        assert(before.recent(own).drop_first() =~= before.recent(own).skip(1));
    }
    assert(after.matches(group, key) == before.matches(group, key));
}

/// Publishing hands the worker one command with the bytes and exactly the groups that
/// follow the frame and have not been sent it lately; its answer decides what the caller
/// is told.
pub proof fn law_publishing_hands_over_one_command(
    before: AeronStreamHub,
    after: AeronStreamHub,
    key: KeyModel,
    bytes: Seq<u8>,
    outcome: SendOutcome,
    result: Result<usize, HubError>,
    group: AeronConfigModel,
)
    requires
        before.sent_frame(after, key, bytes, outcome),
        concluded(before.state.fresh_groups(key, bytes).len(), outcome, result),
    ensures
        after.commands().len() == before.commands().len() + 1,
        after.commands().drop_last() == before.commands(),
        after.commands().last().1 == outcome,
        after.commands().last().0 matches CommandModel::Publish {
            groups,
            count,
            bytes: handed,
        } && handed == bytes && count == groups.len() && (groups.contains(group)
            <==> before.state.matches(group, key) && !before.state.recent(
            FrameKeyModel { group, id: key.id, stream: key.stream },
        ).contains(bytes)) && (result matches Ok(delivered) ==> delivered == count),
        result is Ok <==> outcome is Sent,
        outcome is Full ==> result == Err::<usize, _>(HubError::QueueFull),
        outcome is Stopped ==> result == Err::<usize, _>(HubError::WorkerStopped),
{
    assert(after.commands().drop_last() =~= before.commands());
}

/// A join succeeds exactly where the worker was there and answered that it has the
/// publication.
pub proof fn law_joins_need_the_worker(sent: bool, reply: Option<Result<(), String>>)
    ensures
        join_result(sent, reply) is Ok <==> sent && reply is Some && reply->0 is Ok,
        !sent ==> join_result(sent, reply) == Err::<(), _>(HubError::WorkerStopped),
        sent && reply is None ==> join_result(sent, reply) == Err::<(), _>(HubError::ReplyDropped),
        sent ==> (reply matches Some(Err(message)) ==> join_result(sent, reply) == Err::<(), _>(
            HubError::Publication { message },
        )),
{
}

/// Whoever joins a hub is a member of that stream's group and has no subscriptions yet;
/// everyone else stays as they were, and nothing that was sent is forgotten.
pub proof fn law_joining_a_hub_enters_one_client(
    before: AeronStreamHub,
    after: AeronStreamHub,
    client_id: u64,
    key: AeronConfigModel,
    other: u64,
)
    requires
        before.wf(),
        before.joined(after, client_id, key),
        other != client_id,
    ensures
        after.state.client_groups@.contains_key(client_id),
        after.state.client_groups@[client_id]@ == key,
        after.state.groups@[key].members@.contains(client_id),
        after.state.subscriptions@[client_id]@ == Set::<KeyModel>::empty(),
        after.state.client_groups@.contains_key(other)
            <==> before.state.client_groups@.contains_key(
            other,
        ),
        before.state.client_groups@.contains_key(other) ==> {
            &&& after.state.client_groups@[other] == before.state.client_groups@[other]
            &&& after.state.subscriptions@[other] == before.state.subscriptions@[other]
            &&& after.state.groups@.contains_key(before.state.client_groups@[other]@)
            &&& after.state.groups@[before.state.client_groups@[other]@].members@.contains(other)
        },
        after.state.recent_frames == before.state.recent_frames,
{
    assert(after.state.client_groups@.remove(client_id).contains_key(other)
        == after.state.client_groups@.contains_key(other));
    if before.state.client_groups@.contains_key(other) {
        let own = before.state.client_groups@[other]@;
        assert(after.state.client_groups@.remove(client_id)[other]
            == after.state.client_groups@[other]);
        assert(before.state.subscriptions@.contains_key(other));
        assert(after.state.subscriptions@.remove(client_id).contains_key(other));
        assert(after.state.subscriptions@.remove(client_id)[other]
            == after.state.subscriptions@[other]);
        assert(before.state.groups@.contains_key(own));
        assert(before.state.groups@[own].members@.contains(other));
        if own != key {
            assert(before.state.groups@.remove(key).contains_key(own));
            assert(after.state.groups@.remove(key).contains_key(own));
            assert(after.state.groups@.remove(key)[own] == after.state.groups@[own]);
            assert(before.state.groups@.remove(key)[own] == before.state.groups@[own]);
        }
    }
}

/// The threshold that a group is served at is one that a member has asked for, and no
/// member has asked for a lower one. There is none where a member wants every frame, and
/// nothing at all exactly where nobody follows the stream.
pub proof fn law_groups_are_served_at_a_threshold_of_theirs(
    state: HubState,
    group: AeronConfigModel,
    id: i32,
    stream: Seq<char>,
    lowest: LowestThreshold,
)
    requires
        state.wf(),
        is_lowest(state.group_wishes(group, RouteModel { id, stream }), lowest),
    ensures
        ({
            let followed = exists|client: u64, key: KeyModel| #[trigger]
                state.subscriptions@[client]@.contains(key) && key.id == id && key.stream
                    == stream && state.client_groups@.contains_key(client)
                    && state.client_groups@[client]@ == group;
            let wanted_in_full = exists|client: u64, key: KeyModel| #[trigger]
                state.subscriptions@[client]@.contains(key) && key.id == id && key.stream
                    == stream && key.noise_filter_bps_bits is None
                    && state.client_groups@.contains_key(client)
                    && state.client_groups@[client]@ == group;
            &&& lowest is Nobody <==> !followed
            &&& lowest is Unfiltered <==> wanted_in_full
            &&& lowest matches LowestThreshold::At(threshold) ==> exists|
                client: u64,
                key: KeyModel,
            | #[trigger]
                state.subscriptions@[client]@.contains(key) && key.id == id && key.stream
                    == stream && key.noise_filter_bps_bits == Some(threshold.bits)
                    && state.client_groups@.contains_key(client)
                    && state.client_groups@[client]@ == group
            &&& lowest matches LowestThreshold::At(threshold) ==> forall|
                client: u64,
                key: KeyModel,
            | #[trigger]
                state.subscriptions@[client]@.contains(key) && key.id == id && key.stream
                    == stream && state.client_groups@.contains_key(client)
                    && state.client_groups@[client]@ == group ==> key.noise_filter_bps_bits is Some
                    && !(Float64 { bits: key.noise_filter_bps_bits->0 }).num_lt(threshold)
        }),
{
    let route = RouteModel { id, stream };
    let wishes_of_group = state.group_wishes(group, route);
    assert forall|wish: Option<Float64>| #[trigger] wishes_of_group.contains(wish) <==> exists|
        client: u64,
        key: KeyModel,
    | #[trigger]
        state.subscriptions@[client]@.contains(key) && key.id == id && key.stream == stream
            && key.threshold() == wish && state.client_groups@.contains_key(client)
            && state.client_groups@[client]@ == group by {
        lemma_wishes(state, group, route, wish);
    }
    assert forall|client: u64, key: KeyModel| #[trigger]
        state.subscriptions@[client]@.contains(key) && key.id == id && key.stream == stream
            && state.client_groups@.contains_key(client) && state.client_groups@[client]@
            == group implies wishes_of_group.contains(key.threshold()) by {}
    match lowest {
        LowestThreshold::Unfiltered => {
            assert(wishes_of_group.contains(None));
        },
        LowestThreshold::At(threshold) => {
            assert(wishes_of_group.contains(Some(threshold)));
            assert forall|client: u64, key: KeyModel| #[trigger]
                state.subscriptions@[client]@.contains(key) && key.id == id && key.stream
                    == stream && state.client_groups@.contains_key(client)
                    && state.client_groups@[client]@ == group implies key.noise_filter_bps_bits
                is Some && !(Float64 { bits: key.noise_filter_bps_bits->0 }).num_lt(threshold) by {
                let wish = key.threshold();
                assert(wishes_of_group.contains(wish));
                if wish is Some {
                    assert(wishes_of_group.contains(Some(wish->0)));
                }
            }
        },
        LowestThreshold::Nobody => {},
    }
}

proof fn lemma_wishes(
    state: HubState,
    group: AeronConfigModel,
    route: RouteModel,
    wish: Option<Float64>,
)
    requires
        state.wf(),
    ensures
        state.group_wishes(group, route).contains(wish) <==> exists|client: u64, key: KeyModel|
         #[trigger]
            state.subscriptions@[client]@.contains(key) && key.id == route.id && key.stream
                == route.stream && key.threshold() == wish
                && state.client_groups@.contains_key(client) && state.client_groups@[client]@
                == group,
{
    if state.group_wishes(group, route).contains(wish) {
        let client = choose|client: u64| #[trigger]
            state.groups@[group].members@.contains(client) && wishes(
                state.subscriptions@[client]@,
                route,
            ).contains(wish);
        let key = choose|key: KeyModel| #[trigger]
            state.subscriptions@[client]@.contains(key) && key.routes(route.id, route.stream)
                && key.threshold() == wish;
        assert(state.subscriptions@[client]@.contains(key));
    }
    if exists|client: u64, key: KeyModel| #[trigger]
        state.subscriptions@[client]@.contains(key) && key.id == route.id && key.stream
            == route.stream && key.threshold() == wish && state.client_groups@.contains_key(client)
            && state.client_groups@[client]@ == group {
        let (client, key) = choose|client: u64, key: KeyModel| #[trigger]
            state.subscriptions@[client]@.contains(key) && key.id == route.id && key.stream
                == route.stream && key.threshold() == wish
                && state.client_groups@.contains_key(client) && state.client_groups@[client]@
                == group;
        assert(state.groups@[group].members@.contains(client));
        assert(key.routes(route.id, route.stream));
        assert(wishes(state.subscriptions@[client]@, route).contains(wish));
    }
}

/// The worker offers a frame once on a stream that is listed and that it has a publication
/// for, and not at all on one that is not listed.
pub proof fn law_workers_offer_to_listed_streams<C, P: PublicationOffer>(
    before: Worker<C, P>,
    after: Worker<C, P>,
    groups: Seq<StreamKey>,
    bytes: &[u8],
    results: Seq<i64>,
    at: int,
    other: AeronConfigModel,
)
    requires
        before.offered(after, groups, bytes, results),
        distinct(groups),
    ensures
        0 <= at < groups.len() && before.publishers@.contains_key(groups[at]@)
            ==> after.publishers@[groups[at]@].offers()
            == before.publishers@[groups[at]@].offers().push((bytes@, results[at])),
        before.publishers@.contains_key(other) && (forall|i: int|
            0 <= i < groups.len() ==> (#[trigger] groups[i])@ != other)
            ==> after.publishers@[other].offers() == before.publishers@[other].offers(),
        after.publishers@.dom() == before.publishers@.dom(),
{
    if 0 <= at < groups.len() && before.publishers@.contains_key(groups[at]@) {
        let key = groups[at]@;
        lemma_frames_for(key, groups, bytes@, results, at);
        assert(before.publishers@[key].offers() + seq![(bytes@, results[at])]
            =~= before.publishers@[key].offers().push((bytes@, results[at])));
    }
    if before.publishers@.contains_key(other) && (forall|i: int|
        0 <= i < groups.len() ==> (#[trigger] groups[i])@ != other) {
        lemma_frames_for(other, groups, bytes@, results, -1);
        assert(before.publishers@[other].offers() + Seq::<(Seq<u8>, i64)>::empty()
            =~= before.publishers@[other].offers());
    }
}

proof fn lemma_frames_for(
    key: AeronConfigModel,
    groups: Seq<StreamKey>,
    bytes: Seq<u8>,
    results: Seq<i64>,
    at: int,
)
    requires
        results.len() == groups.len(),
        distinct(groups),
    ensures
        0 <= at < groups.len() && groups[at]@ == key ==> frames_for(key, groups, bytes, results)
            == seq![(bytes, results[at])],
        (forall|i: int| 0 <= i < groups.len() ==> (#[trigger] groups[i])@ != key) ==> frames_for(
            key,
            groups,
            bytes,
            results,
        ) == Seq::<(Seq<u8>, i64)>::empty(),
    decreases groups.len(),
{
    if groups.len() > 0 {
        let fewer = groups.drop_last();
        assert forall|i: int, j: int| 0 <= i < j < fewer.len() implies (#[trigger] fewer[i])@ != (
        #[trigger] fewer[j])@ by {
            assert(groups[i]@ != groups[j]@);
        }
        lemma_frames_for(key, fewer, bytes, results.drop_last(), at);
        if groups.last()@ == key {
            assert forall|i: int| 0 <= i < fewer.len() implies (#[trigger] fewer[i])@ != key by {
                assert(groups[i]@ != groups[groups.len() - 1]@);
            }
            assert(frames_for(key, fewer, bytes, results.drop_last()) =~= Seq::empty());
            assert(frames_for(key, groups, bytes, results) =~= seq![(bytes, results.last())]);
            if 0 <= at < groups.len() - 1 && groups[at]@ == key {
                assert(fewer[at]@ != key);
            }
        } else if forall|i: int| 0 <= i < groups.len() ==> (#[trigger] groups[i])@ != key {
            assert forall|i: int| 0 <= i < fewer.len() implies (#[trigger] fewer[i])@ != key by {
                assert(groups[i]@ != key);
            }
        }
    }
}

/// The failures that a worker lists are exactly the offers that gave a negative number.
pub proof fn law_workers_list_failed_offers<C, P: PublicationOffer>(
    worker: Worker<C, P>,
    groups: Seq<StreamKey>,
    results: Seq<i64>,
    key: AeronConfigModel,
    result: i64,
)
    requires
        results.len() == groups.len(),
    ensures
        worker.failures(groups, results).contains((key, result)) <==> result < 0
            && worker.publishers@.contains_key(key) && exists|i: int|
            0 <= i < groups.len() && (#[trigger] groups[i])@ == key && results[i] == result,
        worker.failures(groups, results).len() <= groups.len(),
    decreases groups.len(),
{
    if groups.len() > 0 {
        let fewer = groups.drop_last();
        let known = results.drop_last();
        let earlier = worker.failures(fewer, known);
        let all = worker.failures(groups, results);
        let last = groups.len() - 1;
        law_workers_list_failed_offers(worker, fewer, known, key, result);
        if all.contains((key, result)) {
            let i = choose|i: int| 0 <= i < all.len() && all[i] == (key, result);
            if i < earlier.len() {
                assert(earlier[i] == (key, result));
                let j = choose|j: int|
                    0 <= j < fewer.len() && (#[trigger] fewer[j])@ == key && known[j] == result;
                assert(groups[j]@ == key && results[j] == result);
            } else {
                assert(groups[last]@ == key && results[last] == result);
            }
        }
        if result < 0 && worker.publishers@.contains_key(key) && exists|i: int|
            0 <= i < groups.len() && (#[trigger] groups[i])@ == key && results[i] == result {
            let i = choose|i: int|
                0 <= i < groups.len() && (#[trigger] groups[i])@ == key && results[i] == result;
            if i < last {
                assert(fewer[i]@ == key && known[i] == result);
                let j = choose|j: int| 0 <= j < earlier.len() && earlier[j] == (key, result);
                assert(all[j] == (key, result));
            } else {
                assert(all[all.len() - 1] == (key, result));
            }
        }
    }
}

/// Publishing on a hub, as it is called: where some group follows the frame and has not been
/// sent it lately, the worker is handed one command with the bytes for all such groups and
/// no others, and the caller learns how many they are; otherwise nothing is handed over.
pub proof fn law_publish_hands_frames_to_followers(
    hub: &mut AeronStreamHub,
    key: &SubscriptionKey,
    bytes: &[u8],
    result: Result<usize, HubError>,
    group: AeronConfigModel,
)
    requires
        old(hub).wf(),
        call_ensures(AeronStreamHub::publish, (hub, key, bytes), result),
    ensures
        ({
            let follows = exists|client: u64, held: KeyModel| #[trigger]
                old(hub).state.subscriptions@[client]@.contains(held) && held.id == key.id && (
                held.stream == key.stream@ || key.stream@ == "market_status"@)
                    && old(hub).state.client_groups@.contains_key(client)
                    && old(hub).state.client_groups@[client]@ == group;
            let own = FrameKeyModel { group, id: key.id, stream: key.stream@ };
            let fresh = follows && !old(hub).state.recent(own).contains(bytes@);
            &&& fresh ==> {
                &&& final(hub).commands().len() == old(hub).commands().len() + 1
                &&& final(hub).commands().drop_last() == old(hub).commands()
                &&& final(hub).commands().last().0 matches CommandModel::Publish {
                    groups,
                    count,
                    bytes: handed,
                }
                &&& groups.contains(group)
                &&& handed == bytes@
                &&& final(hub).state.recent(own).last() == bytes@
                &&& result matches Ok(delivered) ==> delivered > 0
                &&& result is Ok <==> final(hub).commands().last().1 is Sent
            }
            &&& !fresh ==> final(hub).state.recent(own) == old(hub).state.recent(own)
            &&& !fresh && final(hub).commands() != old(hub).commands()
                ==> (final(hub).commands().last().0 matches CommandModel::Publish { groups, .. } && !groups.contains(
                group,
            ))
            &&& result == Ok::<usize, HubError>(0) ==> final(hub).commands() == old(hub).commands()
        }),
        final(hub).state.subscriptions == old(hub).state.subscriptions,
        final(hub).state.client_groups == old(hub).state.client_groups,
        final(hub).state.groups == old(hub).state.groups,
        final(hub).enabled == old(hub).enabled,
        final(hub).worker is Some <==> old(hub).worker is Some,
        old(hub).worker is Some ==> final(hub).worker->0.end() == old(hub).worker->0.end(),
{
    let before = *old(hub);
    let after = *final(hub);
    let fresh = before.state.fresh_groups(key@, bytes@);
    law_groups_get_what_their_clients_follow(before.state, group, key@);
    law_frames_are_sent_once(
        before.state,
        after.state,
        key@,
        bytes@,
        group,
        FrameKeyModel { group, id: key.id, stream: key.stream@ },
    );
    lemma_fresh_groups_are_finite(before.state, key@, bytes@);
    if fresh.len() > 0 {
        let outcome = choose|outcome: SendOutcome|
            #[trigger] before.sent_frame(after, key@, bytes@, outcome) && concluded(
                fresh.len(),
                outcome,
                result,
            );
        law_publishing_hands_over_one_command(
            before,
            after,
            key@,
            bytes@,
            outcome,
            result,
            group,
        );
    } else {
        assert(fresh =~= Set::empty());
    }
}

proof fn lemma_fresh_groups_are_finite(state: HubState, key: KeyModel, bytes: Seq<u8>)
    requires
        state.wf(),
    ensures
        state.fresh_groups(key, bytes).finite(),
{
    let known = models(state.groups.keys@);
    lemma_models_len(state.groups.keys@);
    assert forall|group: AeronConfigModel| #[trigger] state.fresh_groups(key, bytes).contains(
        group,
    ) implies known.contains(group) by {
        assert(state.groups@.contains_key(group));
        assert(has_key(state.groups.keys@, group));
    }
    vstd::set_lib::lemma_set_subset_finite(known, state.fresh_groups(key, bytes));
}

/// Publishing the same frame a second time hands nothing to the worker and reports nobody.
pub proof fn law_second_publish_sends_nothing(
    first: &mut AeronStreamHub,
    second: &mut AeronStreamHub,
    key: &SubscriptionKey,
    bytes: &[u8],
    first_result: Result<usize, HubError>,
    second_result: Result<usize, HubError>,
)
    requires
        old(first).wf(),
        call_ensures(AeronStreamHub::publish, (first, key, bytes), first_result),
        *old(second) == *final(first),
        call_ensures(AeronStreamHub::publish, (second, key, bytes), second_result),
    ensures
        second_result == Ok::<usize, HubError>(0),
        final(second).commands() == old(second).commands(),
{
    let before = old(first).state;
    let between = final(first).state;
    assert forall|group: AeronConfigModel| !between.fresh_groups(key@, bytes@).contains(group) by {
        law_frames_are_sent_once(
            before,
            between,
            key@,
            bytes@,
            group,
            FrameKeyModel { group, id: key.id, stream: key.stream@ },
        );
    }
    assert(between.fresh_groups(key@, bytes@) =~= Set::empty());
}

/// Joining a hub, as it is called: whoever joins is in the group of the stream asked for
/// without subscriptions, the worker is asked only for a stream that has no group, and nobody
/// else is touched.
pub proof fn law_join_enters_one_client(
    hub: &mut AeronStreamHub,
    client_id: u64,
    config: AeronConfig,
    result: Result<(), HubError>,
    other: u64,
)
    requires
        old(hub).wf(),
        call_ensures(AeronStreamHub::join, (hub, client_id, config), result),
        other != client_id,
    ensures
        !old(hub).enabled ==> result == Err::<(), _>(HubError::Disabled) && *final(hub)
            == *old(hub),
        result is Ok ==> final(hub).state.client_groups@.contains_key(client_id)
            && final(hub).state.client_groups@[client_id]@ == config@,
        result is Ok && !old(hub).state.client_groups@.contains_key(client_id)
            ==> final(hub).state.subscriptions@[client_id]@ == Set::<KeyModel>::empty(),
        result is Err ==> final(hub).state == old(hub).state,
        old(hub).enabled && old(hub).state.client_groups@.contains_key(client_id)
            && old(hub).state.client_groups@[client_id]@ != config@ ==> result == Err::<(), _>(
            HubError::AnotherStream { client_id },
        ),
        old(hub).state.client_groups@.contains_key(client_id)
            || old(hub).state.groups@.contains_key(config@) ==> final(hub).commands()
            == old(hub).commands(),
        old(hub).enabled && !old(hub).state.client_groups@.contains_key(client_id)
            && !old(hub).state.groups@.contains_key(config@) ==> final(hub).commands().len()
            == old(hub).commands().len() + 1 && final(hub).commands().last().0
            == (CommandModel::Join {
            key: config@,
        }),
        final(hub).state.client_groups@.contains_key(other)
            <==> old(hub).state.client_groups@.contains_key(other),
        old(hub).state.client_groups@.contains_key(other)
            ==> final(hub).state.client_groups@[other] == old(hub).state.client_groups@[other]
            && final(hub).state.subscriptions@[other] == old(hub).state.subscriptions@[other],
        final(hub).enabled == old(hub).enabled,
        final(hub).worker is Some <==> old(hub).worker is Some,
        old(hub).worker is Some ==> final(hub).worker->0.end() == old(hub).worker->0.end(),
        old(hub).enabled && !old(hub).state.client_groups@.contains_key(client_id)
            && !old(hub).state.groups@.contains_key(config@) ==> {
            &&& final(hub).commands().last().1 is Stopped <==> result == Err::<(), _>(
                HubError::WorkerStopped,
            )
            &&& final(hub).commands().last().1 is Sent || final(hub).commands().last().1 is Stopped
            &&& exists|sent: bool, received: Option<Result<(), String>>|
                #[trigger] may_join(old(hub).worker->0.end(), config@, sent, received) && (
                result is Ok <==> sent && received is Some && received->0 is Ok)
        },
{
    if old(hub).enabled && !old(hub).state.client_groups@.contains_key(client_id) && result is Ok {
        law_joining_a_hub_enters_one_client(
            *old(hub),
            *final(hub),
            client_id,
            config@,
            other,
        );
    }
}

/// Changing the subscriptions of a hub's client, as it is called.
pub proof fn law_apply_changes_one_client(
    hub: &mut AeronStreamHub,
    client_id: u64,
    request: &ControlRequest,
    result: Result<(), HubError>,
    other: u64,
    key: KeyModel,
)
    requires
        old(hub).wf(),
        call_ensures(AeronStreamHub::apply, (hub, client_id, request), result),
    ensures
        result is Ok,
        !old(hub).state.client_groups@.contains_key(client_id) ==> *final(hub) == *old(hub),
        old(hub).state.client_groups@.contains_key(client_id) ==> {
            let held = old(hub).state.subscriptions@[client_id]@.contains(key);
            let holds = final(hub).state.subscriptions@[client_id]@.contains(key);
            let dropped = exists|i: int, j: int|
                0 <= i < request@.args.len() && 0 <= j < request@.args[i].id.len()
                    && #[trigger] request@.args[i].id[j] == key.id && request@.args[i].stream
                    == key.stream;
            &&& request.op == ControlOperation::Subscribe ==> (holds <==> held || request@.names(
                key,
            ))
            &&& request.op == ControlOperation::Unsubscribe ==> (holds <==> held && !dropped)
            &&& request.op == ControlOperation::RefetchBbo ==> (holds <==> held)
        },
        other != client_id && old(hub).state.subscriptions@.contains_key(other)
            ==> final(hub).state.subscriptions@.contains_key(other)
            && final(hub).state.subscriptions@[other] == old(hub).state.subscriptions@[other],
        final(hub).state.client_groups == old(hub).state.client_groups,
        final(hub).commands() == old(hub).commands(),
{
    if old(hub).state.client_groups@.contains_key(client_id) {
        law_changes_keep_what_is_not_named(
            old(hub).state.subscriptions@[client_id]@,
            final(hub).state.subscriptions@[client_id]@,
            request@,
            key,
        );
    }
}

/// Leaving a hub, as it is called: the client is gone with all it had, everyone else stays,
/// and the worker is told exactly where nobody else uses the stream; then, and only then, what
/// was sent on it is forgotten.
pub proof fn law_disconnect_removes_one_client(
    hub: &mut AeronStreamHub,
    client_id: u64,
    other: u64,
    frame: FrameKeyModel,
)
    requires
        old(hub).wf(),
        call_ensures(AeronStreamHub::disconnect, (hub, client_id), ()),
        other != client_id,
    ensures
        !final(hub).state.client_groups@.contains_key(client_id),
        !final(hub).state.subscriptions@.contains_key(client_id),
        final(hub).state.client_groups@.contains_key(other)
            <==> old(hub).state.client_groups@.contains_key(other),
        old(hub).state.client_groups@.contains_key(other) ==> {
            let stream = old(hub).state.client_groups@[other]@;
            &&& final(hub).state.client_groups@[other] == old(hub).state.client_groups@[other]
            &&& final(hub).state.subscriptions@[other] == old(hub).state.subscriptions@[other]
            &&& final(hub).state.groups@.contains_key(stream)
            &&& final(hub).state.groups@[stream].members@.contains(other)
            &&& frame.group == stream ==> final(hub).state.recent(frame) == old(hub).state.recent(
                frame,
            )
        },
        old(hub).state.client_groups@.contains_key(client_id) ==> {
            let stream = old(hub).state.client_groups@[client_id]@;
            let alone = forall|rest: u64| #[trigger]
                old(hub).state.groups@[stream].members@.contains(rest) ==> rest == client_id;
            &&& alone ==> final(hub).commands().len() == old(hub).commands().len() + 1
                && final(hub).commands().last().0 == (CommandModel::Leave { key: stream })
            &&& alone && frame.group == stream ==> final(hub).state.recent(frame).len() == 0
            &&& !alone ==> final(hub).commands() == old(hub).commands()
            &&& !alone || frame.group != stream ==> final(hub).state.recent(frame)
                == old(hub).state.recent(frame)
        },
        !old(hub).state.client_groups@.contains_key(client_id) ==> *final(hub) == *old(hub),
{
    let before = *old(hub);
    let after = *final(hub);
    if before.state.client_groups@.contains_key(client_id) {
        let stream = before.state.client_groups@[client_id]@;
        let members = before.state.groups@[stream].members@;
        assert(before.state.groups@.contains_key(stream));
        assert(members.contains(client_id));
        if forall|rest: u64| #[trigger] members.contains(rest) ==> rest == client_id {
            assert(members =~= set![client_id]);
        } else {
            let rest = choose|rest: u64| #[trigger] members.contains(rest) && rest != client_id;
            assert(!set![client_id].contains(rest));
            assert(members != set![client_id]);
        }
        assert(after.state.recent(frame) == if members == set![client_id] && frame.group == stream {
            Seq::<Seq<u8>>::empty()
        } else {
            before.state.recent(frame)
        });
        if before.state.client_groups@.contains_key(other) {
            let own = before.state.client_groups@[other]@;
            assert(before.state.groups@.contains_key(own));
            assert(before.state.groups@[own].members@.contains(other));
            assert(before.state.subscriptions@.contains_key(other));
            if own != stream {
                assert(before.state.groups@.remove(stream).contains_key(own));
                assert(after.state.groups@.remove(stream).contains_key(own));
                assert(after.state.groups@.remove(stream)[own] == after.state.groups@[own]);
                assert(before.state.groups@.remove(stream)[own] == before.state.groups@[own]);
            } else {
                assert(!set![client_id].contains(other));
            }
        }
    } else {
        if before.state.subscriptions@.contains_key(client_id) {
            assert(before.state.client_groups@.contains_key(client_id));
        }
        if before.state.client_groups@.contains_key(other) {
            assert(before.state.groups@.contains_key(before.state.client_groups@[other]@));
        }
    }
}

/// Remembering a frame, as it is called: it is new exactly where the same bytes are not
/// remembered for the same group, identifier and stream; a new one is the youngest, the
/// oldest of more than 256 is forgotten, and nothing else changes.
pub proof fn law_record_if_new_remembers(
    state: &mut HubState,
    stream_key: &StreamKey,
    key: &SubscriptionKey,
    bytes: &[u8],
    new: bool,
    other: FrameKeyModel,
)
    requires
        old(state).wf(),
        call_ensures(HubState::record_if_new, (state, stream_key, key, bytes), new),
    ensures
        ({
            let own = FrameKeyModel { group: stream_key@, id: key.id, stream: key.stream@ };
            let before = old(state).recent(own);
            let after = final(state).recent(own);
            &&& new <==> !before.contains(bytes@)
            &&& !new ==> after == before
            &&& new && before.len() < 256 ==> after == before.push(bytes@)
            &&& new && before.len() == 256 ==> after == before.skip(1).push(bytes@)
            &&& other != own ==> final(state).recent(other) == old(state).recent(other)
        }),
        final(state).groups == old(state).groups,
        final(state).subscriptions == old(state).subscriptions,
{
    let own = FrameKeyModel { group: stream_key@, id: key.id, stream: key.stream@ };
    assert(old(state).recent(own).drop_first() =~= old(state).recent(own).skip(1)) by {
        if old(state).recent(own).len() == 0 {
            assert(old(state).recent(own) =~= Seq::empty());
        }
    }
    assert(final(state).recent(own) == if new {
        remembered(old(state).recent(own), bytes@)
    } else {
        old(state).recent(own)
    });
    assert(final(state).recent(other) == if other == own && new {
        remembered(old(state).recent(own), bytes@)
    } else {
        old(state).recent(other)
    });
}

/// The threshold of a group, as it is asked for: none where nobody follows the stream, no
/// threshold where a member wants every frame, and else one that a member asked for and no
/// member undercuts.
pub proof fn law_effective_noise_filter_is_the_lowest(
    state: &HubState,
    group: &StreamKey,
    id: i32,
    stream: &str,
    filter: Option<Option<Float64>>,
    client: u64,
    key: KeyModel,
)
    requires
        state.wf(),
        call_ensures(HubState::effective_noise_filter, (state, group, id, stream), filter),
    ensures
        state.subscriptions@[client]@.contains(key) && key.id == id && key.stream == stream@
            && state.client_groups@.contains_key(client) && state.client_groups@[client]@
            == group@ ==> {
            &&& filter is Some
            &&& key.noise_filter_bps_bits is None ==> filter->0 is None
            &&& filter->0 is Some ==> key.noise_filter_bps_bits is Some && !(Float64 {
                bits: key.noise_filter_bps_bits->0,
            }).num_lt(filter->0->0)
        },
        filter matches Some(Some(threshold)) ==> exists|member: u64, held: KeyModel| #[trigger]
            state.subscriptions@[member]@.contains(held) && held.id == id && held.stream == stream@
                && held.noise_filter_bps_bits == Some(threshold.bits)
                && state.client_groups@.contains_key(member) && state.client_groups@[member]@
                == group@,
        filter is Some ==> exists|member: u64, held: KeyModel| #[trigger]
            state.subscriptions@[member]@.contains(held) && held.id == id && held.stream == stream@
                && state.client_groups@.contains_key(member) && state.client_groups@[member]@
                == group@,
{
    let lowest = match filter {
        None => LowestThreshold::Nobody,
        Some(None) => LowestThreshold::Unfiltered,
        Some(Some(threshold)) => LowestThreshold::At(threshold),
    };
    law_groups_are_served_at_a_threshold_of_theirs(*state, group@, id, stream@, lowest);
}

/// The groups that a frame is for, as they are asked for: exactly those with a client that
/// follows it.
pub proof fn law_matching_groups_follow_the_frame(
    state: &HubState,
    key: &SubscriptionKey,
    groups: Vec<StreamKey>,
    group: AeronConfigModel,
)
    requires
        state.wf(),
        call_ensures(HubState::matching_groups, (state, key), groups),
    ensures
        has_key(groups@, group) <==> exists|client: u64, held: KeyModel| #[trigger]
            state.subscriptions@[client]@.contains(held) && held.id == key.id && (held.stream
                == key.stream@ || key.stream@ == "market_status"@)
                && state.client_groups@.contains_key(client) && state.client_groups@[client]@
                == group,
        distinct(groups@),
{
    law_groups_get_what_their_clients_follow(*state, group, key@);
    assert(has_key(groups@, group) <==> state.matches(group, key@));
}

/// The groups that a frame is sent to, as they are asked for: those that follow it and have
/// not been sent it lately, each once; asking again gives none of them.
pub proof fn law_take_frame_gives_fresh_groups(
    state: &mut HubState,
    key: &SubscriptionKey,
    bytes: &[u8],
    groups: Vec<StreamKey>,
    group: AeronConfigModel,
)
    requires
        old(state).wf(),
        call_ensures(HubState::take_frame, (state, key, bytes), groups),
    ensures
        has_key(groups@, group) <==> old(state).matches(group, key@) && !old(state).recent(
            FrameKeyModel { group, id: key.id, stream: key.stream@ },
        ).contains(bytes@),
        has_key(groups@, group) ==> final(state).recent(
            FrameKeyModel { group, id: key.id, stream: key.stream@ },
        ).last() == bytes@,
        !final(state).fresh_groups(key@, bytes@).contains(group),
        distinct(groups@),
{
    law_frames_are_sent_once(
        *old(state),
        *final(state),
        key@,
        bytes@,
        group,
        FrameKeyModel { group, id: key.id, stream: key.stream@ },
    );
    assert(models(groups@).contains(group) <==> has_key(groups@, group));
}

/// A worker, as it is asked to offer a frame on streams that are listed once each: every one
/// that it has a publication for is offered the frame once, no other is, and exactly the
/// offers that gave a negative number are listed as failed.
pub proof fn law_worker_offers_once_per_stream<C, P: PublicationOffer>(
    worker: &mut Worker<C, P>,
    groups: &Vec<StreamKey>,
    bytes: &[u8],
    failed: Vec<FailedOffer>,
    key: AeronConfigModel,
)
    requires
        old(worker).wf(),
        distinct(groups@),
        call_ensures(Worker::<C, P>::offer, (worker, groups, bytes), failed),
        old(worker).publishers@.contains_key(key),
    ensures
        ({
            let before = old(worker).publishers@[key].offers();
            let after = final(worker).publishers@[key].offers();
            let listed = exists|i: int| 0 <= i < groups@.len() && (#[trigger] groups@[i])@ == key;
            &&& final(worker).publishers@.contains_key(key)
            &&& final(worker).publishers@[key].end() == old(worker).publishers@[key].end()
            &&& final(worker).client == old(worker).client
            &&& listed ==> {
                &&& call_ensures(
                    P::offer,
                    (&old(worker).publishers@[key].end(), bytes),
                    after.last().1,
                )
                &&& after.len() == before.len() + 1
                &&& after.drop_last() == before
                &&& after.last().0 == bytes@
                &&& after.last().1 < 0 <==> exists|i: int|
                    0 <= i < failed@.len() && (#[trigger] failed@[i]).key@ == key
                &&& forall|i: int|
                    0 <= i < failed@.len() && (#[trigger] failed@[i]).key@ == key
                        ==> failed@[i].result == after.last().1
            }
            &&& !listed ==> after == before && forall|i: int|
                0 <= i < failed@.len() ==> (#[trigger] failed@[i]).key@ != key
        }),
{
    let before = *old(worker);
    let after = *final(worker);
    let results = choose|results: Seq<i64>|
        #[trigger] before.offered(after, groups@, bytes, results) && failed_offers(failed@)
            == before.failures(groups@, results);
    let all = failed_offers(failed@);
    assert(after.publishers@.dom().contains(key));
    if exists|i: int| 0 <= i < groups@.len() && (#[trigger] groups@[i])@ == key {
        let at = choose|i: int| 0 <= i < groups@.len() && (#[trigger] groups@[i])@ == key;
        law_workers_offer_to_listed_streams(before, after, groups@, bytes, results, at, key);
        assert(after.publishers@[key].offers().drop_last() =~= before.publishers@[key].offers());
        law_workers_list_failed_offers(before, groups@, results, key, results[at]);
        assert forall|i: int| 0 <= i < failed@.len() && (#[trigger] failed@[i]).key@
            == key implies failed@[i].result == results[at] && results[at] < 0 by {
            assert(all[i] == (key, failed@[i].result));
            law_workers_list_failed_offers(before, groups@, results, key, failed@[i].result);
            let j = choose|j: int|
                0 <= j < groups@.len() && (#[trigger] groups@[j])@ == key && results[j]
                    == failed@[i].result;
            if j != at {
                assert(groups@[j]@ != groups@[at]@);
            }
        }
        if results[at] < 0 {
            let i = choose|i: int| 0 <= i < all.len() && all[i] == (key, results[at]);
            assert(failed@[i].key@ == key);
        }
    } else {
        law_workers_offer_to_listed_streams(before, after, groups@, bytes, results, -1, key);
        assert forall|i: int| 0 <= i < failed@.len() implies (#[trigger] failed@[i]).key@
            != key by {
            if failed@[i].key@ == key {
                assert(all[i] == (key, failed@[i].result));
                law_workers_list_failed_offers(before, groups@, results, key, failed@[i].result);
            }
        }
    }
}

/// What a worker does for a join, as it is asked: the connection first, then the publication,
/// and nothing once both are there. A publication that is given up has to be created again.
pub proof fn law_workers_connect_then_create<C, P: PublicationOffer>(
    worker: &Worker<C, P>,
    key: &StreamKey,
    step: JoinStep,
    leaving: &mut Worker<C, P>,
    other: AeronConfigModel,
)
    requires
        worker.wf(),
        old(leaving).wf(),
        call_ensures(Worker::<C, P>::next_join_step, (worker, key), step),
        call_ensures(Worker::<C, P>::leave, (leaving, key), ()),
        other != key@,
    ensures
        step is Connect <==> worker.client is None,
        step is CreatePublication <==> worker.client is Some && !worker.publishers@.contains_key(
            key@,
        ),
        step is Ready <==> worker.client is Some && worker.publishers@.contains_key(key@),
        !final(leaving).publishers@.contains_key(key@),
        final(leaving).publishers@.contains_key(other)
            <==> old(leaving).publishers@.contains_key(other),
        old(leaving).publishers@.contains_key(other) ==> final(leaving).publishers@[other]
            == old(leaving).publishers@[other],
        final(leaving).client == old(leaving).client,
{
}

/// What a hub makes of its worker, as it is asked.
pub proof fn law_hubs_conclude_from_their_worker(
    delivered: usize,
    outcome: SendOutcome,
    published: Result<usize, HubError>,
    sent: bool,
    reply: Option<Result<(), String>>,
    joined: Result<(), HubError>,
)
    requires
        call_ensures(conclude_publish, (delivered, outcome), published),
        call_ensures(conclude_join, (sent, reply), joined),
    ensures
        outcome is Sent ==> published == Ok::<usize, HubError>(delivered),
        outcome is Full ==> published == Err::<usize, _>(HubError::QueueFull),
        outcome is Stopped ==> published == Err::<usize, _>(HubError::WorkerStopped),
        joined is Ok <==> sent && reply is Some && reply->0 is Ok,
        !sent ==> joined == Err::<(), _>(HubError::WorkerStopped),
        sent && reply is None ==> joined == Err::<(), _>(HubError::ReplyDropped),
{
}

} // verus!
