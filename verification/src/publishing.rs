//! Which streams a publisher offers frames to, and what becomes of its clients.
use vstd::prelude::*;
use crate::aeron_publisher::{
    alike, completed_among, end_wait, failed_among, has_client, law_work_keeps_clients_that_do_not_fail,
    refused_among, some_unready, AeronFrame, AeronPublishReport, AeronPublisher, AeronRoute,
    JoinCompletion, JoinError, JoinStatus, OfferOutcome, PublicationFactory, PublicationOffer,
    StreamGroup,
};
use crate::collections::{has_key, lemma_models_len, models, VecSet};
use crate::protocol::{
    AeronConfig, AeronConfigModel, ControlOperation, ControlRequest, KeyModel,
};
use crate::publication::{Progress, PublicationState, Settlement};
use crate::routes::{subscribed, subscribed_market, RouteModel};
use crate::subscribing::law_changes_keep_what_is_not_named;

verus! {

/// A market status goes to a stream exactly if one of the stream's clients holds a
/// subscription to the market, whichever stream of the market it is to.
pub proof fn law_statuses_go_to_whoever_follows_the_market<F: PublicationFactory>(
    publisher: AeronPublisher<F>,
    market_id: i32,
    destination: AeronConfigModel,
)
    requires
        publisher.wf(),
    ensures
        publisher.destinations(AeronRoute::MarketStatus { market_id }).contains(destination)
            <==> exists|client_id: u64, key: KeyModel| #[trigger]
            publisher.subscriptions@[client_id]@.contains(key) && key.id == market_id
                && publisher.client_groups@.contains_key(client_id)
                && publisher.client_groups@[client_id]@ == destination,
        publisher.wants_market(destination, market_id) <==> publisher.destinations(
            AeronRoute::MarketStatus { market_id },
        ).contains(destination),
{
    if publisher.wants_market(destination, market_id) {
        let members = publisher.groups@[destination].members@;
        let client_id = choose|client: u64| #[trigger]
            members.contains(client) && publisher.subscriptions@.contains_key(client)
                && subscribed_market(publisher.subscriptions@[client]@, market_id);
        let key = choose|key: KeyModel| #[trigger]
            publisher.subscriptions@[client_id]@.contains(key) && key.id == market_id;
        assert(publisher.groups@[destination].members@.contains(client_id));
        assert(publisher.subscriptions@[client_id]@.contains(key));
    }
    if exists|client_id: u64, key: KeyModel| #[trigger]
        publisher.subscriptions@[client_id]@.contains(key) && key.id == market_id
            && publisher.client_groups@.contains_key(client_id)
            && publisher.client_groups@[client_id]@ == destination {
        let (client_id, key) = choose|client_id: u64, key: KeyModel| #[trigger]
            publisher.subscriptions@[client_id]@.contains(key) && key.id == market_id
                && publisher.client_groups@.contains_key(client_id)
                && publisher.client_groups@[client_id]@ == destination;
        assert(publisher.groups@[destination].members@.contains(client_id));
        assert(publisher.subscriptions@.contains_key(client_id));
        assert(subscribed_market(publisher.subscriptions@[client_id]@, market_id));
    }
}

/// A frame of a market's stream goes to an Aeron stream exactly if one of its clients holds
/// a subscription to that market and that stream, at whatever threshold.
pub proof fn law_frames_go_to_whoever_follows_the_stream<F: PublicationFactory>(
    publisher: AeronPublisher<F>,
    id: i32,
    stream: &str,
    destination: AeronConfigModel,
)
    requires
        publisher.wf(),
    ensures
        publisher.destinations(AeronRoute::Stream { id, stream }).contains(destination)
            <==> exists|client_id: u64, key: KeyModel| #[trigger]
            publisher.subscriptions@[client_id]@.contains(key) && key.id == id && key.stream
                == stream@ && publisher.client_groups@.contains_key(client_id)
                && publisher.client_groups@[client_id]@ == destination,
        publisher.wants(destination, RouteModel { id, stream: stream@ })
            <==> publisher.destinations(AeronRoute::Stream { id, stream }).contains(destination),
{
    let route = RouteModel { id, stream: stream@ };
    if publisher.wants(destination, route) {
        let members = publisher.groups@[destination].members@;
        let client_id = choose|client: u64| #[trigger]
            members.contains(client) && publisher.subscriptions@.contains_key(client)
                && subscribed(publisher.subscriptions@[client]@, route);
        let key = choose|key: KeyModel| #[trigger]
            publisher.subscriptions@[client_id]@.contains(key) && key.routes(
                route.id,
                route.stream,
            );
        assert(publisher.groups@[destination].members@.contains(client_id));
        assert(publisher.subscriptions@[client_id]@.contains(key));
    }
    if exists|client_id: u64, key: KeyModel| #[trigger]
        publisher.subscriptions@[client_id]@.contains(key) && key.id == id && key.stream
            == stream@ && publisher.client_groups@.contains_key(client_id)
            && publisher.client_groups@[client_id]@ == destination {
        let (client_id, key) = choose|client_id: u64, key: KeyModel| #[trigger]
            publisher.subscriptions@[client_id]@.contains(key) && key.id == id && key.stream
                == stream@ && publisher.client_groups@.contains_key(client_id)
                && publisher.client_groups@[client_id]@ == destination;
        assert(publisher.groups@[destination].members@.contains(client_id));
        assert(publisher.subscriptions@.contains_key(client_id));
        assert(key.routes(id, stream@));
        assert(subscribed(publisher.subscriptions@[client_id]@, route));
    }
}

/// Publishing a market status offers it once on the stream of every client that follows
/// something of the market, where that stream is ready.
pub proof fn law_statuses_are_offered_to_whoever_follows_the_market<F: PublicationFactory>(
    before: AeronPublisher<F>,
    after: AeronPublisher<F>,
    market_id: i32,
    bytes: &[u8],
    outcomes: Map<AeronConfigModel, OfferOutcome>,
    report: AeronPublishReport,
    client_id: u64,
    key: KeyModel,
)
    requires
        before.wf(),
        before.published(
            after,
            before.destinations(AeronRoute::MarketStatus { market_id }),
            bytes,
            outcomes,
            report,
        ),
        before.client_groups@.contains_key(client_id),
        before.subscriptions@[client_id]@.contains(key),
        key.id == market_id,
    ensures
        ({
            let stream = before.client_groups@[client_id]@;
            let old_log = before.groups@[stream].publication.offers();
            let new_log = after.groups@[stream].publication.offers();
            &&& after.groups@.contains_key(stream)
            &&& before.groups@[stream].publication@ is Ready ==> {
                &&& new_log.len() == old_log.len() + 1
                &&& new_log.drop_last() == old_log
                &&& new_log.last().0 == bytes@
            }
        }),
{
    let stream = before.client_groups@[client_id]@;
    law_statuses_go_to_whoever_follows_the_market(before, market_id, stream);
    assert(before.groups@.contains_key(stream));
    law_destinations_are_offered_once(
        before,
        after,
        before.destinations(AeronRoute::MarketStatus { market_id }),
        bytes,
        outcomes,
        report,
        stream,
    );
}

/// Publishing a frame offers it once on the stream of every client that follows its market
/// and stream, where that Aeron stream is ready.
pub proof fn law_frames_are_offered_to_whoever_follows_the_stream<F: PublicationFactory>(
    before: AeronPublisher<F>,
    after: AeronPublisher<F>,
    id: i32,
    stream: &str,
    bytes: &[u8],
    outcomes: Map<AeronConfigModel, OfferOutcome>,
    report: AeronPublishReport,
    client_id: u64,
    key: KeyModel,
)
    requires
        before.wf(),
        before.published(
            after,
            before.destinations(AeronRoute::Stream { id, stream }),
            bytes,
            outcomes,
            report,
        ),
        before.client_groups@.contains_key(client_id),
        before.subscriptions@[client_id]@.contains(key),
        key.id == id,
        key.stream == stream@,
    ensures
        ({
            let own = before.client_groups@[client_id]@;
            let old_log = before.groups@[own].publication.offers();
            let new_log = after.groups@[own].publication.offers();
            &&& after.groups@.contains_key(own)
            &&& before.groups@[own].publication@ is Ready ==> {
                &&& new_log.len() == old_log.len() + 1
                &&& new_log.drop_last() == old_log
                &&& new_log.last().0 == bytes@
            }
        }),
{
    let own = before.client_groups@[client_id]@;
    law_frames_go_to_whoever_follows_the_stream(before, id, stream, own);
    assert(before.groups@.contains_key(own));
    law_destinations_are_offered_once(
        before,
        after,
        before.destinations(AeronRoute::Stream { id, stream }),
        bytes,
        outcomes,
        report,
        own,
    );
}

/// A frame or status that no client of a stream follows leaves that stream as it was.
pub proof fn law_streams_without_followers_are_left_alone<F: PublicationFactory>(
    before: AeronPublisher<F>,
    after: AeronPublisher<F>,
    route: AeronRoute,
    bytes: &[u8],
    outcomes: Map<AeronConfigModel, OfferOutcome>,
    report: AeronPublishReport,
    other: AeronConfigModel,
)
    requires
        before.wf(),
        before.published(after, before.destinations(route), bytes, outcomes, report),
        before.groups@.contains_key(other),
        forall|client_id: u64, key: KeyModel| #[trigger]
            before.subscriptions@[client_id]@.contains(key)
                && before.client_groups@.contains_key(client_id)
                && before.client_groups@[client_id]@ == other ==> match route {
                AeronRoute::Stream { id, stream } => key.id != id || key.stream != stream@,
                AeronRoute::MarketStatus { market_id } => key.id != market_id,
            },
    ensures
        after.groups@.contains_key(other),
        after.groups@[other] == before.groups@[other],
{
    match route {
        AeronRoute::Stream { id, stream } => {
            law_frames_go_to_whoever_follows_the_stream(before, id, stream, other);
        },
        AeronRoute::MarketStatus { market_id } => {
            law_statuses_go_to_whoever_follows_the_market(before, market_id, other);
        },
    }
    assert(after.groups@.contains_key(other));
}

/// A stream that a frame is for is offered it once if it is ready and not at all otherwise.
/// Its clients stay, and only an answer below -3 gives the publication up.
pub proof fn law_destinations_are_offered_once<F: PublicationFactory>(
    before: AeronPublisher<F>,
    after: AeronPublisher<F>,
    destinations: Set<AeronConfigModel>,
    bytes: &[u8],
    outcomes: Map<AeronConfigModel, OfferOutcome>,
    report: AeronPublishReport,
    stream: AeronConfigModel,
)
    requires
        before.published(after, destinations, bytes, outcomes, report),
        before.groups@.contains_key(stream),
        destinations.contains(stream),
    ensures
        ({
            let old_group = before.groups@[stream];
            let new_group = after.groups@[stream];
            let old_log = old_group.publication.offers();
            let new_log = new_group.publication.offers();
            &&& after.groups@.contains_key(stream)
            &&& new_group.members == old_group.members
            &&& new_group.waiters == old_group.waiters
            &&& !(old_group.publication@ is Ready) ==> new_group.publication
                == old_group.publication && outcomes[stream] is Unavailable
            &&& old_group.publication@ is Ready ==> {
                &&& new_log.len() == old_log.len() + 1
                &&& new_log.drop_last() == old_log
                &&& new_log.last().0 == bytes@
                &&& new_log.last().1 >= 0 <==> outcomes[stream] is Offered
                &&& new_log.last().1 == -1 <==> outcomes[stream] is NotConnected
                &&& new_log.last().1 == -2 <==> outcomes[stream] is Backpressured
                &&& new_log.last().1 == -3 <==> outcomes[stream] is AdminAction
                &&& new_log.last().1 < -3 <==> outcomes[stream] is Fatal
                &&& new_log.last().1 >= -3 ==> new_group.publication@
                    == old_group.publication@
                &&& new_log.last().1 < -3 ==> new_group.publication@ is Unavailable
                &&& call_ensures(
                    F::Publication::offer,
                    (&old_group.publication@->Ready_0, bytes),
                    new_log.last().1,
                )
                &&& new_group.publication.polls() == old_group.publication.polls()
            }
        }),
{
    assert(after.groups@.contains_key(stream));
    let old_group = before.groups@[stream];
    let new_group = after.groups@[stream];
    if old_group.publication@ is Ready {
        let publication = old_group.publication@->Ready_0;
        let position = choose|position: i64|
            {
                &&& call_ensures(F::Publication::offer, (&publication, bytes), position)
                &&& outcomes[stream] == #[trigger] OfferOutcome::meaning(position)
                &&& new_group.publication.offers() == old_group.publication.offers().push(
                    (bytes@, position),
                )
                &&& new_group.publication.polls() == old_group.publication.polls()
                &&& new_group.publication@ == (if outcomes[stream] is Fatal {
                    PublicationState::Unavailable
                } else {
                    old_group.publication@
                })
            };
        assert(new_group.publication.offers().drop_last() =~= old_group.publication.offers());
    }
}

/// The report counts every stream that a frame is for, once, and splits them into those
/// that took it, those that were not ready and those that did not take it. The counters
/// grow by the same numbers, and by nothing else.
pub proof fn law_reports_count_streams<F: PublicationFactory>(
    before: AeronPublisher<F>,
    after: AeronPublisher<F>,
    destinations: Set<AeronConfigModel>,
    bytes: &[u8],
    outcomes: Map<AeronConfigModel, OfferOutcome>,
    report: AeronPublishReport,
)
    requires
        before.wf(),
        before.published(after, destinations, bytes, outcomes, report),
    ensures
        report.matched == destinations.len(),
        report.offered == destinations.filter(
            |key: AeronConfigModel| outcomes[key] == OfferOutcome::Offered,
        ).len(),
        report.unavailable == destinations.filter(
            |key: AeronConfigModel| outcomes[key] == OfferOutcome::Unavailable,
        ).len(),
        report.offered + report.unavailable + report.failed == report.matched,
        after.stats.offered - before.stats.offered == report.offered,
        after.stats.attempted - before.stats.attempted == report.offered + report.failed,
        after.stats.not_connected - before.stats.not_connected == destinations.filter(
            |key: AeronConfigModel| outcomes[key] == OfferOutcome::NotConnected,
        ).len(),
        after.stats.backpressured - before.stats.backpressured == destinations.filter(
            |key: AeronConfigModel| outcomes[key] == OfferOutcome::Backpressured,
        ).len(),
        after.stats.admin_action - before.stats.admin_action == destinations.filter(
            |key: AeronConfigModel| outcomes[key] == OfferOutcome::AdminAction,
        ).len(),
        after.stats.fatal - before.stats.fatal == destinations.filter(
            |key: AeronConfigModel| outcomes[key] == OfferOutcome::Fatal,
        ).len(),
        after.stats.registrations == before.stats.registrations,
        after.stats.registration_failures == before.stats.registration_failures,
{
    assert(destinations.filter(|key: AeronConfigModel| outcomes[key] == OfferOutcome::Offered)
        =~= alike(destinations, outcomes, OfferOutcome::Offered));
    assert(destinations.filter(|key: AeronConfigModel| outcomes[key] == OfferOutcome::Unavailable)
        =~= alike(destinations, outcomes, OfferOutcome::Unavailable));
    assert(destinations.filter(|key: AeronConfigModel| outcomes[key] == OfferOutcome::NotConnected)
        =~= alike(destinations, outcomes, OfferOutcome::NotConnected));
    assert(destinations.filter(|key: AeronConfigModel| outcomes[key] == OfferOutcome::Backpressured)
        =~= alike(destinations, outcomes, OfferOutcome::Backpressured));
    assert(destinations.filter(|key: AeronConfigModel| outcomes[key] == OfferOutcome::AdminAction)
        =~= alike(destinations, outcomes, OfferOutcome::AdminAction));
    assert(destinations.filter(|key: AeronConfigModel| outcomes[key] == OfferOutcome::Fatal)
        =~= alike(destinations, outcomes, OfferOutcome::Fatal));
}

/// The number that an offer gives says what became of the frame.
pub proof fn law_positions_tell_outcomes(position: i64)
    ensures
        OfferOutcome::meaning(position) is Offered <==> position >= 0,
        OfferOutcome::meaning(position) is NotConnected <==> position == -1,
        OfferOutcome::meaning(position) is Backpressured <==> position == -2,
        OfferOutcome::meaning(position) is AdminAction <==> position == -3,
        OfferOutcome::meaning(position) is Fatal <==> position < -3,
        OfferOutcome::meaning(position).failed() <==> position < 0,
        !OfferOutcome::Unavailable.failed(),
{
}

/// Whoever joins is a member of the stream asked for and of no other, and has no
/// subscriptions yet; everyone else stays as they were. The factory is asked only where
/// the stream has no group, and then once.
pub proof fn law_joining_enters_one_client<F: PublicationFactory>(
    before: AeronPublisher<F>,
    after: AeronPublisher<F>,
    client_id: u64,
    config: AeronConfigModel,
    now: u128,
    result: Result<JoinStatus, JoinError>,
    other: u64,
)
    requires
        before.wf(),
        before.client_added(after, client_id, config, now, result),
        other != client_id,
    ensures
        !before.enabled ==> result == Err::<JoinStatus, _>(JoinError::Disabled) && after == before,
        before.enabled && before.client_groups@.contains_key(client_id)
            && before.client_groups@[client_id]@ != config ==> result == Err::<JoinStatus, _>(
            JoinError::AnotherStream { client_id },
        ) && after == before,
        result matches Ok(status) ==> {
            &&& after.client_groups@.contains_key(client_id)
            &&& after.client_groups@[client_id]@ == config
            &&& after.groups@[config].members@.contains(client_id)
            &&& status is Ready <==> after.groups@[config].publication@ is Ready
            &&& status is Pending && !before.client_groups@.contains_key(client_id)
                ==> after.groups@[config].waiters@.contains(client_id)
            &&& !before.client_groups@.contains_key(client_id) ==> after.subscriptions@[client_id]@
                == Set::<KeyModel>::empty()
            &&& before.client_groups@.contains_key(client_id) ==> after == before
        },
        result is Err ==> after.client_groups@ == before.client_groups@ && after.subscriptions@
            == before.subscriptions@ && after.groups@ == before.groups@,
        after.client_groups@.contains_key(other) <==> before.client_groups@.contains_key(other),
        before.client_groups@.contains_key(other) ==> after.client_groups@[other]
            == before.client_groups@[other] && after.subscriptions@[other]
            == before.subscriptions@[other],
        before.enabled && !before.client_groups@.contains_key(client_id)
            && !before.groups@.contains_key(config) ==> after.started() == before.started().push(
            config,
        ),
        before.groups@.contains_key(config) ==> after.started() == before.started(),
        after.enabled == before.enabled,
        after.stats == before.stats,
        forall|stream: AeronConfigModel| #[trigger]
            before.groups@.contains_key(stream) && stream != config ==> after.groups@.contains_key(
                stream,
            ) && after.groups@[stream] == before.groups@[stream],
        before.groups@.contains_key(config) ==> after.groups@[config].publication
            == before.groups@[config].publication,
        result is Ok && !before.groups@.contains_key(config) ==> {
            let publication = after.groups@[config].publication;
            &&& publication@ is Registering
            &&& publication@->started_at == now
            &&& publication.offers().len() == 0
            &&& publication.polls() == 0
            &&& F::may_begin(config, Ok(publication@->registration))
        },
        result matches Err(JoinError::Registration { message }) ==> F::may_begin(
            config,
            Err(message),
        ) && before.enabled && !before.groups@.contains_key(config),
        result is Err && before.enabled && !before.client_groups@.contains_key(client_id)
            ==> result->Err_0 is Registration && !before.groups@.contains_key(config),
{
    if before.client_groups@.contains_key(client_id) {
        assert(before.groups@.contains_key(before.client_groups@[client_id]@));
    }
    if before.enabled && !before.client_groups@.contains_key(client_id) && result is Ok {
        assert(after.client_groups@.remove(client_id).contains_key(other)
            == after.client_groups@.contains_key(other));
        assert(after.client_groups@.remove(client_id)[other] == after.client_groups@[other]
            || !after.client_groups@.contains_key(other));
        assert(after.subscriptions@.contains_key(other)
            == after.subscriptions@.remove(client_id).contains_key(other));
        if before.client_groups@.contains_key(other) {
            assert(before.subscriptions@.contains_key(other));
            assert(after.subscriptions@.remove(client_id).contains_key(other));
            assert(after.subscriptions@.remove(client_id)[other] == after.subscriptions@[other]);
            assert(after.client_groups@.remove(client_id).contains_key(other));
            assert(after.client_groups@.remove(client_id)[other] == after.client_groups@[other]);
        }
    }
}

/// Whoever leaves is gone with all subscriptions; everyone else stays, and a stream is
/// given up exactly where nobody else uses it.
pub proof fn law_leaving_removes_one_client<F: PublicationFactory>(
    before: AeronPublisher<F>,
    after: AeronPublisher<F>,
    client_id: u64,
    other: u64,
)
    requires
        before.wf(),
        after.wf(),
        before.client_removed(after, client_id),
        other != client_id,
    ensures
        !after.client_groups@.contains_key(client_id),
        !after.subscriptions@.contains_key(client_id),
        after.client_groups@.contains_key(other) <==> before.client_groups@.contains_key(other),
        before.client_groups@.contains_key(other) ==> {
            let stream = before.client_groups@[other]@;
            &&& after.client_groups@[other] == before.client_groups@[other]
            &&& after.subscriptions@[other] == before.subscriptions@[other]
            &&& after.groups@.contains_key(stream)
            &&& after.groups@[stream].members@.contains(other)
            &&& after.groups@[stream].publication == before.groups@[stream].publication
            &&& after.groups@[stream].waiters@.contains(other)
                == before.groups@[stream].waiters@.contains(other)
        },
        before.client_groups@.contains_key(client_id) ==> (after.groups@.contains_key(
            before.client_groups@[client_id]@,
        ) <==> exists|rest: u64|
            rest != client_id && #[trigger] before.groups@[
                before.client_groups@[client_id]@
            ].members@.contains(rest)),
        after.stats == before.stats,
        after.started() == before.started(),
        after.enabled == before.enabled,
{
    if before.client_groups@.contains_key(client_id) {
        let key = before.client_groups@[client_id]@;
        let members = before.groups@[key].members@;
        assert(before.groups@.contains_key(key));
        assert(members.contains(client_id));
        if exists|rest: u64| rest != client_id && #[trigger] members.contains(rest) {
            let rest = choose|rest: u64| rest != client_id && #[trigger] members.contains(rest);
            assert(!set![client_id].contains(rest));
            assert(members != set![client_id]);
        } else {
            assert(members =~= set![client_id]);
        }
        if before.client_groups@.contains_key(other) {
            let stream = before.client_groups@[other]@;
            assert(before.groups@.contains_key(stream));
            assert(before.groups@[stream].members@.contains(other));
            assert(after.client_groups@.contains_key(other));
            assert(after.groups@.contains_key(after.client_groups@[other]@));
            assert(before.subscriptions@.contains_key(other));
            if stream != key {
                assert(before.groups@.remove(key).contains_key(stream));
                assert(before.groups@.remove(key)[stream] == before.groups@[stream]);
                assert(after.groups@.remove(key)[stream] == after.groups@[stream]);
            }
        }
    } else if before.client_groups@.contains_key(other) {
        assert(before.groups@.contains_key(before.client_groups@[other]@));
    }
    if before.subscriptions@.contains_key(client_id) {
        assert(before.client_groups@.contains_key(client_id));
    }
}

/// A stream that has not become ready within five seconds fails whoever waits for it: they
/// are told so and let go, and the registration is not asked again.
pub proof fn law_registrations_time_out<F: PublicationFactory>(
    before: AeronPublisher<F>,
    after: AeronPublisher<F>,
    now: u128,
    settlements: Map<AeronConfigModel, Settlement<F::Publication>>,
    restarts: Map<AeronConfigModel, Result<F::Registration, String>>,
    completions: Seq<JoinCompletion>,
    client_id: u64,
)
    requires
        before.wf(),
        before.worked(after, now, settlements, restarts),
        before.all_told(settlements, completions),
        before.client_groups@.contains_key(client_id),
        before.groups@[before.client_groups@[client_id]@].waiters@.contains(client_id),
        before.groups@[before.client_groups@[client_id]@].publication@ is Registering,
        now >= before.groups@[before.client_groups@[client_id]@].publication@->started_at
            + 5_000_000_000,
    ensures
        !after.client_groups@.contains_key(client_id),
        exists|i: int|
            0 <= i < completions.len() && (#[trigger] completions[i]).client_id == client_id
                && completions[i].result is Err && completions[i].result->Err_0@
                == "Aeron publication registration timed out"@,
{
    let key = before.client_groups@[client_id]@;
    assert(before.groups@.contains_key(key));
    assert(settlements[key] is Failed);
    assert(before.told(settlements, client_id));
    assert(before.gone(settlements, client_id));
    assert(has_client(completions, client_id));
    let i = choose|i: int|
        0 <= i < completions.len() && (#[trigger] completions[i]).client_id == client_id;
    assert(before.told_rightly(settlements, completions[i]));
}

/// A registration that has time left is asked once how far it is, and its answer decides:
/// ready ends the wait well, a fault ends it badly, and nothing leaves it as it was. A
/// stream that is ready is left alone.
pub proof fn law_work_settles_registrations<F: PublicationFactory>(
    before: AeronPublisher<F>,
    after: AeronPublisher<F>,
    now: u128,
    settlements: Map<AeronConfigModel, Settlement<F::Publication>>,
    restarts: Map<AeronConfigModel, Result<F::Registration, String>>,
    stream: AeronConfigModel,
)
    requires
        before.wf(),
        after.wf(),
        before.worked(after, now, settlements, restarts),
        before.groups@.contains_key(stream),
    ensures
        ({
            let old_group = before.groups@[stream];
            let new_group = after.groups@[stream];
            &&& old_group.publication@ is Ready ==> {
                &&& after.groups@.contains_key(stream)
                &&& new_group.publication@ == old_group.publication@
                &&& new_group.members@ == old_group.members@
            }
            &&& settlements[stream] is Idle ==> after.groups@.contains_key(stream)
                && new_group.members@ == old_group.members@ && new_group.waiters@
                == old_group.waiters@
            &&& settlements[stream] matches Settlement::Completed(publication) ==> {
                &&& after.groups@.contains_key(stream)
                &&& new_group.publication@ == PublicationState::<F>::Ready(publication)
                &&& new_group.members@ == old_group.members@
                &&& new_group.waiters@ == Set::<u64>::empty()
            }
            &&& settlements[stream] is Failed ==> (after.groups@.contains_key(stream) <==> exists|
                member: u64,
            |
                #[trigger] old_group.members@.contains(member) && !old_group.waiters@.contains(
                    member,
                ))
            &&& settlements[stream] is Failed && after.groups@.contains_key(stream) ==> {
                &&& forall|member: u64| #[trigger]
                    new_group.members@.contains(member) <==> old_group.members@.contains(member)
                        && !old_group.waiters@.contains(member)
                &&& new_group.waiters@ == Set::<u64>::empty()
                &&& !(new_group.publication@ is Ready)
            }
            &&& after.groups@.contains_key(stream) ==> new_group.publication.offers()
                == old_group.publication.offers()
            &&& old_group.publication@ is Registering && now
                < old_group.publication@->started_at + 5_000_000_000
                && after.groups@.contains_key(stream) ==> new_group.publication.polls()
                    == old_group.publication.polls() + 1
        }),
{
    let old_group = before.groups@[stream];
    assert(old_group.wf());
    if settlements[stream] is Failed {
        if exists|member: u64| #[trigger]
            old_group.members@.contains(member) && !old_group.waiters@.contains(member) {
            assert(old_group.members@ != old_group.waiters@);
        } else {
            assert(old_group.members@ =~= old_group.waiters@);
        }
    }
    assert(after.groups@.contains_key(stream) <==> before.survives(settlements, stream));
}

/// Clients are told exactly once, in their own words: those of a stream that has become
/// ready that it has, those of one that failed why it has. Nobody is told who did not wait.
pub proof fn law_clients_are_told_what_was_found<F: PublicationFactory>(
    before: AeronPublisher<F>,
    settlements: Map<AeronConfigModel, Settlement<F::Publication>>,
    completions: Seq<JoinCompletion>,
    at: int,
    other: int,
)
    requires
        before.all_told(settlements, completions),
        0 <= at < completions.len(),
        0 <= other < completions.len(),
    ensures
        ({
            let client_id = completions[at].client_id;
            let stream = before.client_groups@[client_id]@;
            &&& before.client_groups@.contains_key(client_id)
            &&& before.groups@[stream].waiters@.contains(client_id)
            &&& completions[at].result is Ok <==> settlements[stream] is Completed
            &&& completions[at].result matches Err(text) ==> settlements[stream]
                matches Settlement::Failed(message) && message@ == text@
        }),
        at != other ==> completions[at].client_id != completions[other].client_id,
{
    assert(before.told_rightly(settlements, completions[at]));
}

/// A stream without a publication is started again exactly where it keeps members, once
/// each time.
pub proof fn law_lost_streams_are_started_again<F: PublicationFactory>(
    before: AeronPublisher<F>,
    after: AeronPublisher<F>,
    now: u128,
    settlements: Map<AeronConfigModel, Settlement<F::Publication>>,
    restarts: Map<AeronConfigModel, Result<F::Registration, String>>,
    stream: AeronConfigModel,
)
    requires
        before.wf(),
        before.worked(after, now, settlements, restarts),
    ensures
        before.groups@.contains_key(stream) && before.groups@[stream].publication@ is Unavailable
            ==> after.groups@.contains_key(stream) && after.started().skip(
            before.started().len() as int,
        ).contains(stream) && (after.groups@[stream].publication@ is Registering
            || after.groups@[stream].publication@ is Unavailable),
        after.groups@.contains_key(stream) && after.groups@[stream].publication@ is Registering
            && before.groups@[stream].publication@ is Unavailable
            ==> after.groups@[stream].publication@->started_at == now,
        before.groups@.contains_key(stream) && before.groups@[stream].publication@ is Ready
            ==> !after.started().skip(before.started().len() as int).contains(stream),
        !before.groups@.contains_key(stream) ==> !after.started().skip(
            before.started().len() as int,
        ).contains(stream),
        !after.groups@.contains_key(stream) ==> !after.started().skip(
            before.started().len() as int,
        ).contains(stream),
        before.started().len() <= after.started().len(),
        after.started().take(before.started().len() as int) == before.started(),
        after.started().skip(before.started().len() as int).no_duplicates(),
        before.groups@.contains_key(stream) && before.groups@[stream].publication@ is Unavailable
            && after.groups@[stream].publication@ is Registering ==> F::may_begin(
            stream,
            Ok(after.groups@[stream].publication@->registration),
        ),
        after.enabled == before.enabled,
{
    let fresh = after.started().skip(before.started().len() as int);
    let lost = Set::new(|key: AeronConfigModel| before.restarts(settlements, key));
    assert(fresh.to_set() == lost);
    assert(fresh.contains(stream) <==> fresh.to_set().contains(stream));
    if before.groups@.contains_key(stream) {
        assert(crate::publication::may_find(
            before.groups@[stream].publication@,
            now,
            settlements[stream],
        ));
        assert(after.groups@.contains_key(stream) <==> before.survives(settlements, stream));
        if before.restarts(settlements, stream) {
            assert(F::may_begin(stream, restarts[stream]));
        }
    }
}

/// The counters of registrations grow by the streams that have become ready and by those
/// that failed or could not be started again; the counters of frames stay.
pub proof fn law_work_counts_registrations<F: PublicationFactory>(
    before: AeronPublisher<F>,
    after: AeronPublisher<F>,
    now: u128,
    settlements: Map<AeronConfigModel, Settlement<F::Publication>>,
    restarts: Map<AeronConfigModel, Result<F::Registration, String>>,
)
    requires
        before.wf(),
        before.can_count_work(),
        before.worked(after, now, settlements, restarts),
    ensures
        after.stats.registrations - before.stats.registrations == before.groups@.dom().filter(
            |stream: AeronConfigModel| settlements[stream] is Completed,
        ).len(),
        after.stats.registration_failures - before.stats.registration_failures
            == before.groups@.dom().filter(
            |stream: AeronConfigModel| settlements[stream] is Failed,
        ).len() + Set::new(
            |stream: AeronConfigModel| before.restarts(settlements, stream),
        ).filter(|stream: AeronConfigModel| restarts[stream] is Err).len(),
        after.stats.attempted == before.stats.attempted,
        after.stats.offered == before.stats.offered,
        after.stats.fatal == before.stats.fatal,
        after.stats.not_connected == before.stats.not_connected,
        after.stats.backpressured == before.stats.backpressured,
        after.stats.admin_action == before.stats.admin_action,
{
    let keys = before.groups@.dom();
    let lost = Set::new(|stream: AeronConfigModel| before.restarts(settlements, stream));
    lemma_models_len(before.groups.keys@);
    assert(keys =~= models(before.groups.keys@)) by {
        assert forall|key: AeronConfigModel| #[trigger] keys.contains(key) <==> models(
            before.groups.keys@,
        ).contains(key) by {
            assert(before.groups@.contains_key(key) == has_key(before.groups.keys@, key));
        }
    }
    assert(lost.subset_of(keys));
    let completed = keys.filter(|stream: AeronConfigModel| settlements[stream] is Completed);
    let failed = keys.filter(|stream: AeronConfigModel| settlements[stream] is Failed);
    let refused = lost.filter(|stream: AeronConfigModel| restarts[stream] is Err);
    assert(completed =~= completed_among(keys, settlements));
    assert(failed =~= failed_among(keys, settlements));
    assert(refused =~= refused_among(lost, restarts));
    vstd::set_lib::lemma_len_subset(completed, keys);
    vstd::set_lib::lemma_len_subset(failed, keys);
    vstd::set_lib::lemma_len_subset(refused, keys);
}

/// Publishing a market status, as it is called: the stream of every client that follows
/// something of the market is offered the status once if it is ready, every other stream is
/// left alone, and nobody's subscriptions change.
pub proof fn law_publish_offers_statuses<F: PublicationFactory>(
    publisher: &mut AeronPublisher<F>,
    frame: AeronFrame<'_>,
    market_id: i32,
    report: AeronPublishReport,
    client_id: u64,
    key: KeyModel,
    other: AeronConfigModel,
)
    requires
        old(publisher).wf(),
        frame.route == (AeronRoute::MarketStatus { market_id }),
        call_ensures(AeronPublisher::<F>::publish, (publisher, frame), report),
    ensures
        old(publisher).client_groups@.contains_key(client_id)
            && old(publisher).subscriptions@[client_id]@.contains(key) && key.id == market_id ==> {
            let stream = old(publisher).client_groups@[client_id]@;
            let old_log = old(publisher).groups@[stream].publication.offers();
            let new_log = final(publisher).groups@[stream].publication.offers();
            &&& report.matched > 0
            &&& old(publisher).groups@[stream].publication@ is Ready ==> new_log.len()
                == old_log.len() + 1 && new_log.drop_last() == old_log && new_log.last().0
                == frame.bytes@
        },
        old(publisher).groups@.contains_key(other) && (forall|member: u64, held: KeyModel|
         #[trigger]
            old(publisher).subscriptions@[member]@.contains(held)
                && old(publisher).client_groups@.contains_key(member)
                && old(publisher).client_groups@[member]@ == other
                ==> held.id != market_id) ==> final(publisher).groups@[other]
                    == old(publisher).groups@[other],
        final(publisher).subscriptions == old(publisher).subscriptions,
        final(publisher).client_groups == old(publisher).client_groups,
{
    let before = *old(publisher);
    let after = *final(publisher);
    let destinations = before.destinations(frame.route);
    let outcomes = choose|outcomes: Map<AeronConfigModel, OfferOutcome>| #[trigger]
        before.published(after, destinations, frame.bytes, outcomes, report);
    if before.client_groups@.contains_key(client_id) && before.subscriptions@[client_id]@.contains(
        key,
    ) && key.id == market_id {
        law_statuses_are_offered_to_whoever_follows_the_market(
            before,
            after,
            market_id,
            frame.bytes,
            outcomes,
            report,
            client_id,
            key,
        );
        law_statuses_go_to_whoever_follows_the_market(
            before,
            market_id,
            before.client_groups@[client_id]@,
        );
        lemma_destinations_are_finite(before, frame.route);
        lemma_some(destinations, before.client_groups@[client_id]@);
    }
    if before.groups@.contains_key(other) && (forall|member: u64, held: KeyModel| #[trigger]
        before.subscriptions@[member]@.contains(held) && before.client_groups@.contains_key(member)
            && before.client_groups@[member]@ == other ==> held.id != market_id) {
        law_streams_without_followers_are_left_alone(
            before,
            after,
            frame.route,
            frame.bytes,
            outcomes,
            report,
            other,
        );
    }
}

/// Publishing a frame of a market's stream, as it is called: the Aeron stream of every client
/// that follows the market and the stream is offered the frame once if it is ready, and
/// every other Aeron stream is left alone.
pub proof fn law_publish_offers_frames<F: PublicationFactory>(
    publisher: &mut AeronPublisher<F>,
    frame: AeronFrame<'_>,
    id: i32,
    stream: &str,
    report: AeronPublishReport,
    client_id: u64,
    key: KeyModel,
    other: AeronConfigModel,
)
    requires
        old(publisher).wf(),
        frame.route == (AeronRoute::Stream { id, stream }),
        call_ensures(AeronPublisher::<F>::publish, (publisher, frame), report),
    ensures
        old(publisher).client_groups@.contains_key(client_id)
            && old(publisher).subscriptions@[client_id]@.contains(key) && key.id == id
            && key.stream == stream@ ==> {
            let own = old(publisher).client_groups@[client_id]@;
            let old_log = old(publisher).groups@[own].publication.offers();
            let new_log = final(publisher).groups@[own].publication.offers();
            &&& report.matched > 0
            &&& old(publisher).groups@[own].publication@ is Ready ==> new_log.len()
                == old_log.len() + 1 && new_log.drop_last() == old_log && new_log.last().0
                == frame.bytes@
        },
        old(publisher).groups@.contains_key(other) && (forall|member: u64, held: KeyModel|
         #[trigger]
            old(publisher).subscriptions@[member]@.contains(held)
                && old(publisher).client_groups@.contains_key(member)
                && old(publisher).client_groups@[member]@ == other
                ==> held.id != id || held.stream != stream@) ==> final(publisher).groups@[other]
            == old(publisher).groups@[other],
        final(publisher).subscriptions == old(publisher).subscriptions,
        final(publisher).client_groups == old(publisher).client_groups,
{
    let before = *old(publisher);
    let after = *final(publisher);
    let destinations = before.destinations(frame.route);
    let outcomes = choose|outcomes: Map<AeronConfigModel, OfferOutcome>| #[trigger]
        before.published(after, destinations, frame.bytes, outcomes, report);
    if before.client_groups@.contains_key(client_id) && before.subscriptions@[client_id]@.contains(
        key,
    ) && key.id == id && key.stream == stream@ {
        law_frames_are_offered_to_whoever_follows_the_stream(
            before,
            after,
            id,
            stream,
            frame.bytes,
            outcomes,
            report,
            client_id,
            key,
        );
        law_frames_go_to_whoever_follows_the_stream(
            before,
            id,
            stream,
            before.client_groups@[client_id]@,
        );
        lemma_destinations_are_finite(before, frame.route);
        lemma_some(destinations, before.client_groups@[client_id]@);
    }
    if before.groups@.contains_key(other) && (forall|member: u64, held: KeyModel| #[trigger]
        before.subscriptions@[member]@.contains(held) && before.client_groups@.contains_key(member)
            && before.client_groups@[member]@ == other ==> held.id != id || held.stream
            != stream@) {
        law_streams_without_followers_are_left_alone(
            before,
            after,
            frame.route,
            frame.bytes,
            outcomes,
            report,
            other,
        );
    }
}

proof fn lemma_destinations_are_finite<F: PublicationFactory>(
    publisher: AeronPublisher<F>,
    route: AeronRoute,
)
    requires
        publisher.wf(),
    ensures
        publisher.destinations(route).finite(),
{
    let keys = models(publisher.groups.keys@);
    lemma_models_len(publisher.groups.keys@);
    assert(publisher.destinations(route).subset_of(keys)) by {
        assert forall|key: AeronConfigModel| #[trigger] publisher.destinations(route).contains(
            key,
        ) implies keys.contains(key) by {
            assert(publisher.groups@.contains_key(key));
            assert(has_key(publisher.groups.keys@, key));
        }
    }
    vstd::set_lib::lemma_set_subset_finite(keys, publisher.destinations(route));
}

proof fn lemma_some(keys: Set<AeronConfigModel>, key: AeronConfigModel)
    requires
        keys.finite(),
        keys.contains(key),
    ensures
        keys.len() > 0,
{
    if keys.len() == 0 {
        assert(keys =~= Set::empty());
    }
}

/// A frame for one client goes to that client's stream, once, and to no other; one for
/// nobody goes nowhere.
pub proof fn law_publish_to_client_group_offers_to_one_stream<F: PublicationFactory>(
    publisher: &mut AeronPublisher<F>,
    client_id: u64,
    frame: AeronFrame<'_>,
    report: AeronPublishReport,
    other: AeronConfigModel,
)
    requires
        old(publisher).wf(),
        call_ensures(
            AeronPublisher::<F>::publish_to_client_group,
            (publisher, client_id, frame),
            report,
        ),
    ensures
        !old(publisher).client_groups@.contains_key(client_id) ==> *final(publisher)
            == *old(publisher) && report.matched == 0 && report.offered == 0
            && report.unavailable == 0
            && report.failed == 0,
        old(publisher).client_groups@.contains_key(client_id) ==> {
            let stream = old(publisher).client_groups@[client_id]@;
            let old_log = old(publisher).groups@[stream].publication.offers();
            let new_log = final(publisher).groups@[stream].publication.offers();
            &&& report.matched == 1
            &&& old(publisher).groups@[stream].publication@ is Ready ==> new_log.len()
                == old_log.len() + 1 && new_log.drop_last() == old_log && new_log.last().0
                == frame.bytes@ && report.unavailable == 0
            &&& other != stream && old(publisher).groups@.contains_key(other)
                ==> final(publisher).groups@[other] == old(publisher).groups@[other]
        },
        final(publisher).subscriptions == old(publisher).subscriptions,
        final(publisher).client_groups == old(publisher).client_groups,
{
    let before = *old(publisher);
    let after = *final(publisher);
    if before.client_groups@.contains_key(client_id) {
        let stream = before.client_groups@[client_id]@;
        let destinations = set![stream];
        let outcomes = choose|outcomes: Map<AeronConfigModel, OfferOutcome>| #[trigger]
            before.published(after, destinations, frame.bytes, outcomes, report);
        assert(before.groups@.contains_key(stream));
        law_destinations_are_offered_once(
            before,
            after,
            destinations,
            frame.bytes,
            outcomes,
            report,
            stream,
        );
        law_reports_count_streams(before, after, destinations, frame.bytes, outcomes, report);
        assert(destinations.len() == 1);
        if before.groups@[stream].publication@ is Ready {
            assert(destinations.filter(
                |key: AeronConfigModel| outcomes[key] == OfferOutcome::Unavailable,
            ) =~= Set::empty());
        }
        if other != stream && before.groups@.contains_key(other) {
            assert(after.groups@.contains_key(other));
        }
    }
}

/// Changing the subscriptions of a client, as it is called: subscribing keeps what it has and
/// adds what is named, unsubscribing keeps what no argument names, and nobody else's change.
/// A client that has not joined has none to change.
pub proof fn law_update_subscriptions_changes_one_client<F: PublicationFactory>(
    publisher: &mut AeronPublisher<F>,
    client_id: u64,
    request: &ControlRequest,
    result: Result<(), JoinError>,
    other: u64,
    key: KeyModel,
)
    requires
        old(publisher).wf(),
        call_ensures(
            AeronPublisher::<F>::update_subscriptions,
            (publisher, client_id, request),
            result,
        ),
    ensures
        result is Ok,
        other != client_id && old(publisher).subscriptions@.contains_key(other)
            ==> final(publisher).subscriptions@.contains_key(other)
            && final(publisher).subscriptions@[other] == old(publisher).subscriptions@[other],
        !old(publisher).client_groups@.contains_key(client_id) ==> *final(publisher)
            == *old(publisher),
        old(publisher).client_groups@.contains_key(client_id) ==> {
            let held = old(publisher).subscriptions@[client_id]@.contains(key);
            let holds = final(publisher).subscriptions@[client_id]@.contains(key);
            let dropped = exists|i: int, j: int|
                0 <= i < request@.args.len() && 0 <= j < request@.args[i].id.len()
                    && #[trigger] request@.args[i].id[j] == key.id && request@.args[i].stream
                    == key.stream;
            &&& request.op == ControlOperation::Subscribe ==> (holds <==> held || request@.names(
                key,
            ))
            &&& request.op == ControlOperation::Unsubscribe ==> (holds <==> held && !dropped)
            &&& request.op == ControlOperation::RefetchBbo ==> (holds <==> held)
        },
        final(publisher).groups == old(publisher).groups,
        final(publisher).client_groups == old(publisher).client_groups,
{
    if old(publisher).client_groups@.contains_key(client_id) {
        law_changes_keep_what_is_not_named(
            old(publisher).subscriptions@[client_id]@,
            final(publisher).subscriptions@[client_id]@,
            request@,
            key,
        );
    }
}

/// There is a way for frames of a stream exactly where some client follows it, and for the
/// status of a market exactly where some client follows anything of the market.
pub proof fn law_routes_are_there_for_followers<F: PublicationFactory>(
    publisher: &AeronPublisher<F>,
    id: i32,
    stream: &str,
    held: bool,
    market_held: bool,
)
    requires
        publisher.wf(),
        call_ensures(AeronPublisher::<F>::has_route, (publisher, id, stream), held),
        call_ensures(AeronPublisher::<F>::has_market_route, (publisher, id), market_held),
    ensures
        held <==> exists|client_id: u64, key: KeyModel| #[trigger]
            publisher.subscriptions@[client_id]@.contains(key) && key.id == id && key.stream
                == stream@ && publisher.client_groups@.contains_key(client_id),
        market_held <==> exists|client_id: u64, key: KeyModel| #[trigger]
            publisher.subscriptions@[client_id]@.contains(key) && key.id == id
                && publisher.client_groups@.contains_key(client_id),
        held ==> market_held,
{
    assert(held == publisher.is_wanted(RouteModel { id, stream: stream@ }));
    assert(market_held == publisher.is_market_wanted(id));
    let route = RouteModel { id, stream: stream@ };
    if held {
        let destination = choose|key: AeronConfigModel| #[trigger] publisher.wants(key, route);
        law_frames_go_to_whoever_follows_the_stream(*publisher, id, stream, destination);
        let (client_id, key) = choose|client_id: u64, key: KeyModel| #[trigger]
            publisher.subscriptions@[client_id]@.contains(key) && key.id == id && key.stream
                == stream@ && publisher.client_groups@.contains_key(client_id)
                && publisher.client_groups@[client_id]@ == destination;
        assert(publisher.subscriptions@[client_id]@.contains(key));
    }
    if market_held {
        let destination = choose|key: AeronConfigModel| #[trigger] publisher.wants_market(key, id);
        law_statuses_go_to_whoever_follows_the_market(*publisher, id, destination);
        let (client_id, key) = choose|client_id: u64, key: KeyModel| #[trigger]
            publisher.subscriptions@[client_id]@.contains(key) && key.id == id
                && publisher.client_groups@.contains_key(client_id)
                && publisher.client_groups@[client_id]@ == destination;
        assert(publisher.subscriptions@[client_id]@.contains(key));
    }
    if exists|client_id: u64, key: KeyModel| #[trigger]
        publisher.subscriptions@[client_id]@.contains(key) && key.id == id && key.stream == stream@
            && publisher.client_groups@.contains_key(client_id) {
        let (client_id, key) = choose|client_id: u64, key: KeyModel| #[trigger]
            publisher.subscriptions@[client_id]@.contains(key) && key.id == id && key.stream
                == stream@ && publisher.client_groups@.contains_key(client_id);
        let destination = publisher.client_groups@[client_id]@;
        law_frames_go_to_whoever_follows_the_stream(*publisher, id, stream, destination);
        assert(publisher.wants(destination, route));
    }
    if exists|client_id: u64, key: KeyModel| #[trigger]
        publisher.subscriptions@[client_id]@.contains(key) && key.id == id
            && publisher.client_groups@.contains_key(client_id) {
        let (client_id, key) = choose|client_id: u64, key: KeyModel| #[trigger]
            publisher.subscriptions@[client_id]@.contains(key) && key.id == id
                && publisher.client_groups@.contains_key(client_id);
        let destination = publisher.client_groups@[client_id]@;
        law_statuses_go_to_whoever_follows_the_market(*publisher, id, destination);
        assert(publisher.wants_market(destination, id));
    }
}

/// Joining and leaving, as they are called: the client is a member of the stream asked for
/// afterwards, or is gone with all it had, and nobody else is touched.
pub proof fn law_add_client_touches_one_client<F: PublicationFactory>(
    publisher: &mut AeronPublisher<F>,
    client_id: u64,
    config: AeronConfig,
    now: u128,
    result: Result<JoinStatus, JoinError>,
    other: u64,
)
    requires
        old(publisher).wf(),
        call_ensures(
            AeronPublisher::<F>::add_client,
            (publisher, client_id, config, now),
            result,
        ),
        other != client_id,
    ensures
        result is Ok ==> final(publisher).client_groups@.contains_key(client_id)
            && final(publisher).client_groups@[client_id]@ == config@,
        result matches Ok(status) ==> (status is Ready
            <==> final(publisher).groups@[config@].publication@ is Ready),
        result is Err ==> final(publisher).client_groups@ == old(publisher).client_groups@,
        !old(publisher).enabled ==> result == Err::<JoinStatus, _>(JoinError::Disabled),
        final(publisher).client_groups@.contains_key(other)
            <==> old(publisher).client_groups@.contains_key(other),
        old(publisher).client_groups@.contains_key(other)
            ==> final(publisher).client_groups@[other] == old(publisher).client_groups@[other]
            && final(publisher).subscriptions@[other] == old(publisher).subscriptions@[other],
{
    law_joining_enters_one_client(
        *old(publisher),
        *final(publisher),
        client_id,
        config@,
        now,
        result,
        other,
    );
}

/// Letting a client go, as it is called.
pub proof fn law_remove_client_touches_one_client<F: PublicationFactory>(
    publisher: &mut AeronPublisher<F>,
    client_id: u64,
    other: u64,
)
    requires
        old(publisher).wf(),
        call_ensures(AeronPublisher::<F>::remove_client, (publisher, client_id), ()),
        other != client_id,
    ensures
        !final(publisher).client_groups@.contains_key(client_id),
        !final(publisher).subscriptions@.contains_key(client_id),
        final(publisher).client_groups@.contains_key(other)
            <==> old(publisher).client_groups@.contains_key(other),
        old(publisher).client_groups@.contains_key(other)
            ==> final(publisher).client_groups@[other] == old(publisher).client_groups@[other]
            && final(publisher).subscriptions@[other] == old(publisher).subscriptions@[other]
            && final(publisher).groups@[old(publisher).client_groups@[other]@].publication
            == old(publisher).groups@[old(publisher).client_groups@[other]@].publication,
{
    law_leaving_removes_one_client(*old(publisher), *final(publisher), client_id, other);
}

/// Working on registrations, as it is called: without pending work nothing happens; whoever
/// waits for a stream that has been set up for five seconds is told that it timed out and is
/// let go; a ready stream, its clients and what they follow are left alone.
pub proof fn law_do_work_at_ends_waits<F: PublicationFactory>(
    publisher: &mut AeronPublisher<F>,
    now: u128,
    completions: Vec<JoinCompletion>,
    client_id: u64,
)
    requires
        old(publisher).wf(),
        call_ensures(AeronPublisher::<F>::do_work_at, (publisher, now), completions),
        old(publisher).client_groups@.contains_key(client_id),
    ensures
        ({
            let stream = old(publisher).client_groups@[client_id]@;
            let group = old(publisher).groups@[stream];
            &&& group.publication@ is Ready ==> {
                &&& final(publisher).client_groups@.contains_key(client_id)
                &&& final(publisher).client_groups@[client_id]@ == stream
                &&& final(publisher).subscriptions@[client_id]
                    == old(publisher).subscriptions@[client_id]
                &&& final(publisher).groups@[stream].publication@ == group.publication@
                &&& final(publisher).groups@[stream].publication.offers()
                    == group.publication.offers()
            }
            &&& group.publication@ is Registering && group.waiters@.contains(client_id) && now
                >= group.publication@->started_at + 5_000_000_000 ==> {
                &&& !final(publisher).client_groups@.contains_key(client_id)
                &&& exists|i: int|
                    0 <= i < completions@.len() && (#[trigger] completions@[i]).client_id
                        == client_id && completions@[i].result is Err
                        && completions@[i].result->Err_0@
                        == "Aeron publication registration timed out"@
            }
            &&& !group.waiters@.contains(client_id)
                ==> final(publisher).client_groups@.contains_key(
                client_id,
            ) && !has_client(completions@, client_id)
        }),
{
    let before = *old(publisher);
    let after = *final(publisher);
    let stream = before.client_groups@[client_id]@;
    let group = before.groups@[stream];
    assert(before.groups@.contains_key(stream));
    assert(group.wf());
    if before.work_pending {
        let (settlements, restarts) = choose|
            settlements: Map<AeronConfigModel, Settlement<F::Publication>>,
            restarts: Map<AeronConfigModel, Result<F::Registration, String>>,
        |
            #[trigger] before.worked(after, now, settlements, restarts) && before.all_told(
                settlements,
                completions@,
            );
        law_work_keeps_clients_that_do_not_fail(
            before,
            after,
            now,
            settlements,
            restarts,
            client_id,
        );
        if group.publication@ is Ready {
            law_work_settles_registrations(before, after, now, settlements, restarts, stream);
        }
        if group.publication@ is Registering && group.waiters@.contains(client_id) && now
            >= group.publication@->started_at + 5_000_000_000 {
            law_registrations_time_out(
                before,
                after,
                now,
                settlements,
                restarts,
                completions@,
                client_id,
            );
        }
        if has_client(completions@, client_id) {
            let i = choose|i: int|
                0 <= i < completions@.len() && (#[trigger] completions@[i]).client_id == client_id;
            law_clients_are_told_what_was_found(before, settlements, completions@, i, i);
        }
    } else {
        assert(group.publication@ is Ready) by {
            if !(group.publication@ is Ready) {
                assert(some_unready(before.groups@));
            }
        }
    }
}

/// Whoever is told of a completion, as work is called: with success they stay and their
/// stream is ready, with failure they are gone with all they had. Whoever waits and is not
/// told waits on.
pub proof fn law_do_work_at_tells_what_became_of_clients<F: PublicationFactory>(
    publisher: &mut AeronPublisher<F>,
    now: u128,
    completions: Vec<JoinCompletion>,
    at: int,
    client_id: u64,
)
    requires
        old(publisher).wf(),
        call_ensures(AeronPublisher::<F>::do_work_at, (publisher, now), completions),
    ensures
        0 <= at < completions@.len() ==> {
            let told = completions@[at].client_id;
            let stream = old(publisher).client_groups@[told]@;
            &&& old(publisher).client_groups@.contains_key(told)
            &&& old(publisher).groups@[stream].waiters@.contains(told)
            &&& completions@[at].result is Ok ==> final(publisher).client_groups@.contains_key(
                told,
            ) && final(publisher).groups@[stream].publication@ is Ready
                && final(publisher).groups@[stream].members@.contains(told)
            &&& completions@[at].result is Err ==> !final(publisher).client_groups@.contains_key(
                told,
            ) && !final(publisher).subscriptions@.contains_key(told)
        },
        old(publisher).client_groups@.contains_key(client_id)
            && old(publisher).groups@[old(publisher).client_groups@[client_id]@].waiters@.contains(client_id) && !has_client(
            completions@,
            client_id,
        ) ==> final(publisher).client_groups@.contains_key(client_id)
            && final(publisher).client_groups@[client_id]
            == old(publisher).client_groups@[client_id]
            && final(publisher).groups@[old(publisher).client_groups@[client_id]@].waiters@.contains(client_id),
        final(publisher).client_groups@.contains_key(client_id)
            ==> old(publisher).client_groups@.contains_key(client_id)
            && final(publisher).subscriptions@[client_id]
            == old(publisher).subscriptions@[client_id],
{
    let before = *old(publisher);
    let after = *final(publisher);
    if before.work_pending {
        let (settlements, restarts) = choose|
            settlements: Map<AeronConfigModel, Settlement<F::Publication>>,
            restarts: Map<AeronConfigModel, Result<F::Registration, String>>,
        |
            #[trigger] before.worked(after, now, settlements, restarts) && before.all_told(
                settlements,
                completions@,
            );
        if 0 <= at < completions@.len() {
            let told = completions@[at].client_id;
            let stream = before.client_groups@[told]@;
            law_clients_are_told_what_was_found(before, settlements, completions@, at, at);
            assert(before.groups@.contains_key(stream));
            law_work_settles_registrations(before, after, now, settlements, restarts, stream);
            assert(after.client_groups@.contains_key(told) <==> !before.gone(settlements, told));
            if after.subscriptions@.contains_key(told) {
                assert(after.client_groups@.contains_key(told));
            }
        }
        if before.client_groups@.contains_key(client_id) {
            let stream = before.client_groups@[client_id]@;
            assert(before.groups@.contains_key(stream));
            law_work_settles_registrations(before, after, now, settlements, restarts, stream);
            assert(before.told(settlements, client_id) ==> has_client(completions@, client_id));
            assert(after.client_groups@.contains_key(client_id) <==> !before.gone(
                settlements,
                client_id,
            ));
        }
    }
    if after.client_groups@.contains_key(client_id) && before.work_pending {
        assert(before.client_groups@.contains_key(client_id));
    }
}

/// Streams that have lost their publication, as work is called: each that has members is
/// started again once, and nothing is started that is ready.
pub proof fn law_do_work_at_starts_lost_streams<F: PublicationFactory>(
    publisher: &mut AeronPublisher<F>,
    now: u128,
    completions: Vec<JoinCompletion>,
    stream: AeronConfigModel,
)
    requires
        old(publisher).wf(),
        call_ensures(AeronPublisher::<F>::do_work_at, (publisher, now), completions),
        old(publisher).groups@.contains_key(stream),
    ensures
        ({
            let fresh = final(publisher).started().skip(old(publisher).started().len() as int);
            &&& old(publisher).groups@[stream].publication@ is Unavailable ==> fresh.contains(
                stream,
            ) && final(publisher).groups@.contains_key(stream)
            &&& old(publisher).groups@[stream].publication@ is Ready ==> !fresh.contains(stream)
            &&& fresh.no_duplicates()
            &&& final(publisher).started().take(old(publisher).started().len() as int)
                == old(publisher).started()
        }),
        final(publisher).enabled == old(publisher).enabled,
        final(publisher).stats.attempted == old(publisher).stats.attempted,
        final(publisher).stats.offered == old(publisher).stats.offered,
{
    let before = *old(publisher);
    let after = *final(publisher);
    if before.work_pending {
        let (settlements, restarts) = choose|
            settlements: Map<AeronConfigModel, Settlement<F::Publication>>,
            restarts: Map<AeronConfigModel, Result<F::Registration, String>>,
        |
            #[trigger] before.worked(after, now, settlements, restarts) && before.all_told(
                settlements,
                completions@,
            );
        law_lost_streams_are_started_again(before, after, now, settlements, restarts, stream);
    } else {
        assert(after.started().skip(before.started().len() as int) =~= Seq::empty());
        assert(after.started().take(before.started().len() as int) =~= before.started());
        if !(before.groups@[stream].publication@ is Ready) {
            assert(some_unready(before.groups@));
        }
    }
}

/// Progress on registrations is the same work.
pub proof fn law_progress_registration_ends_waits<F: PublicationFactory>(
    publisher: &mut AeronPublisher<F>,
    now: u128,
    completions: Vec<JoinCompletion>,
    client_id: u64,
)
    requires
        old(publisher).wf(),
        call_ensures(AeronPublisher::<F>::progress_registration, (publisher, now), completions),
        old(publisher).client_groups@.contains_key(client_id),
        old(publisher).groups@[old(publisher).client_groups@[client_id]@].publication@
            is Registering,
        old(publisher).groups@[old(publisher).client_groups@[client_id]@].waiters@.contains(
            client_id,
        ),
        now >= old(publisher).groups@[old(publisher).client_groups@[client_id]@].publication@->started_at + 5_000_000_000,
    ensures
        !final(publisher).client_groups@.contains_key(client_id),
        has_client(completions@, client_id),
{
    let before = *old(publisher);
    let after = *final(publisher);
    let stream = before.client_groups@[client_id]@;
    assert(before.groups@.contains_key(stream));
    assert(some_unready(before.groups@));
    let (settlements, restarts) = choose|
        settlements: Map<AeronConfigModel, Settlement<F::Publication>>,
        restarts: Map<AeronConfigModel, Result<F::Registration, String>>,
    |
        #[trigger] before.worked(after, now, settlements, restarts) && before.all_told(
            settlements,
            completions@,
        );
    law_registrations_time_out(
        before,
        after,
        now,
        settlements,
        restarts,
        completions@,
        client_id,
    );
}

/// Who has joined and how many streams there are, as it is asked.
pub proof fn law_publisher_knows_its_clients<F: PublicationFactory>(
    publisher: &AeronPublisher<F>,
    client_id: u64,
    held: bool,
    count: usize,
)
    requires
        publisher.wf(),
        call_ensures(AeronPublisher::<F>::has_client, (publisher, client_id), held),
        call_ensures(AeronPublisher::<F>::group_count, (publisher,), count),
    ensures
        held <==> publisher.client_groups@.contains_key(client_id),
        held ==> count > 0,
        count == publisher.groups.keys@.len(),
{
    lemma_models_len(publisher.groups.keys@);
    assert(publisher.groups@.dom() =~= models(publisher.groups.keys@)) by {
        assert forall|key: AeronConfigModel| #[trigger] publisher.groups@.contains_key(key)
            <==> models(publisher.groups.keys@).contains(key) by {
            assert(publisher.groups@.contains_key(key) == has_key(publisher.groups.keys@, key));
        }
    }
    if held {
        let stream = publisher.client_groups@[client_id]@;
        assert(publisher.groups@.contains_key(stream));
        lemma_some(models(publisher.groups.keys@), stream);
    }
}

/// A publisher starts without clients, streams or counts.
pub proof fn law_publishers_start_empty<F: PublicationFactory>(
    factory: F,
    publisher: AeronPublisher<F>,
    client_id: u64,
)
    requires
        call_ensures(AeronPublisher::<F>::with_factory, (factory,), publisher),
    ensures
        publisher.enabled,
        !publisher.client_groups@.contains_key(client_id),
        publisher.started().len() == 0,
        publisher.stats.attempted == 0 && publisher.stats.offered == 0 && publisher.stats.fatal
            == 0 && publisher.stats.not_connected == 0 && publisher.stats.backpressured == 0
            && publisher.stats.admin_action == 0 && publisher.stats.registrations == 0
            && publisher.stats.registration_failures == 0,
{
}

/// Frames, as they are built, are about what they are built for.
pub proof fn law_frames_are_about_what_they_are_built_for<'a>(
    id: i32,
    stream: &'a str,
    bytes: &'a [u8],
    frame: AeronFrame<'a>,
    status: AeronFrame<'a>,
    position: i64,
    outcome: OfferOutcome,
)
    requires
        call_ensures(AeronFrame::<'a>::new, (id, stream, bytes), frame),
        call_ensures(AeronFrame::<'a>::market_status, (id, bytes), status),
        call_ensures(OfferOutcome::of_position, (position,), outcome),
    ensures
        frame.route == (AeronRoute::Stream { id, stream }) && frame.bytes == bytes,
        status.route == (AeronRoute::MarketStatus { market_id: id }) && status.bytes == bytes,
        outcome is Offered <==> position >= 0,
        outcome is NotConnected <==> position == -1,
        outcome is Backpressured <==> position == -2,
        outcome is AdminAction <==> position == -3,
        outcome is Fatal <==> position < -3,
{
}

/// The end of a wait, as it is called: whoever waited is given back unless nothing has
/// happened, and is a member no longer where the stream has failed.
pub proof fn law_end_wait_lets_waiters_go<F: PublicationFactory>(
    group: &mut StreamGroup<F>,
    progress: &Progress,
    waiters: VecSet<u64>,
    client: u64,
)
    requires
        old(group).members.wf(),
        old(group).waiters.wf(),
        call_ensures(end_wait::<F>, (group, progress), waiters),
    ensures
        waiters@.contains(client) <==> !(progress is Idle) && old(group).waiters@.contains(client),
        final(group).waiters@.contains(client) <==> progress is Idle
            && old(group).waiters@.contains(client),
        final(group).members@.contains(client) <==> old(group).members@.contains(client) && !(
        progress is Failed && old(group).waiters@.contains(client)),
        final(group).publication == old(group).publication,
{
}

} // verus!
