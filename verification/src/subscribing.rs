//! What requests say, what they do to subscriptions, and whom frames reach.
use vstd::prelude::*;
use crate::client_router::{given_up, named_by, ClientRouter, SessionChannels};
use crate::collections::{has_key, lemma_models_len, models, VecMap, VecSet};
use crate::outbox::{may_deliver, may_deliver_bytes, Delivery};
use crate::protocol::{
    first_arg_error, ArgModel, ChannelModel, ClientTransportModel, ControlOperation, ControlReply,
    ControlRequest, KeyModel, ProtocolError, ReplyModel, RequestModel, SelectionModel,
    SubscriptionArg, SubscriptionKey,
};
use crate::routes::{
    change_subscriptions, changed, drops, subscribed, subscribed_market, RouteModel,
};
use crate::server::{
    exactly_changed, note_delivery, reports, with_delivery, BackendSession, LinkServerConfig,
    PublishReport, SessionControl, SubscriptionRouter, UnknownClient,
};
use crate::server_messages::StreamError;
use crate::text::{blank, decimal, white_space};

verus! {

/// A request names a key where one of its arguments has the identifier, the stream and the
/// bits of the threshold, or no threshold where the key has none.
pub proof fn law_keys_are_named_by_arguments(request: RequestModel, key: KeyModel)
    ensures
        request.names(key) <==> exists|i: int, j: int|
            0 <= i < request.args.len() && 0 <= j < request.args[i].id.len()
                && #[trigger] request.args[i].id[j] == key.id && request.args[i].stream
                == key.stream && (match request.args[i].noise_filter_bps {
                Some(threshold) => key.noise_filter_bps_bits == Some(threshold.bits),
                None => key.noise_filter_bps_bits is None,
            }),
{
    if request.names(key) {
        let i = choose|i: int|
            0 <= i < request.args.len() && (#[trigger] request.args[i]).names(key);
        let j = choose|j: int|
            0 <= j < request.args[i].id.len() && #[trigger] request.args[i].key(j) == key;
        assert(request.args[i].id[j] == key.id);
    }
    if exists|i: int, j: int|
        0 <= i < request.args.len() && 0 <= j < request.args[i].id.len()
            && #[trigger] request.args[i].id[j] == key.id && request.args[i].stream == key.stream
            && (match request.args[i].noise_filter_bps {
            Some(threshold) => key.noise_filter_bps_bits == Some(threshold.bits),
            None => key.noise_filter_bps_bits is None,
        }) {
        let (i, j) = choose|i: int, j: int|
            0 <= i < request.args.len() && 0 <= j < request.args[i].id.len()
                && #[trigger] request.args[i].id[j] == key.id && request.args[i].stream
                == key.stream && (match request.args[i].noise_filter_bps {
                Some(threshold) => key.noise_filter_bps_bits == Some(threshold.bits),
                None => key.noise_filter_bps_bits is None,
            });
        assert(request.args[i].key(j) =~= key);
        assert(request.args[i].names(key));
    }
}

/// The threshold of a key has the bits that the key carries, and names the key again.
pub proof fn law_keys_carry_their_threshold(key: KeyModel)
    ensures
        key.threshold() is Some <==> key.noise_filter_bps_bits is Some,
        key.threshold() is Some ==> key.threshold()->0.bits == key.noise_filter_bps_bits->0,
        key.arg().id == seq![key.id],
        key.arg().stream == key.stream,
        key.arg().noise_filter_bps == key.threshold(),
{
}

/// An argument is refused exactly where it names no identifier, where its stream holds
/// nothing but white space, or where its threshold is below zero or not finite.
pub proof fn law_arguments_are_refused_for_a_reason(arg: ArgModel)
    ensures
        ({
            let bad_threshold = arg.noise_filter_bps matches Some(threshold) && (
            !threshold.finite() || threshold.bits > 0x8000_0000_0000_0000);
            let bad_stream = forall|i: int|
                0 <= i < arg.stream.len() ==> white_space(#[trigger] arg.stream[i]);
            &&& arg.error() is None <==> arg.id.len() > 0 && !bad_stream && !bad_threshold
            &&& arg.id.len() == 0 ==> arg.error() == Some(ProtocolError::EmptyIds)
            &&& arg.id.len() > 0 && bad_stream ==> arg.error() == Some(ProtocolError::EmptyStream)
            &&& arg.id.len() > 0 && !bad_stream && bad_threshold ==> arg.error() == Some(
                ProtocolError::InvalidNoiseFilter,
            )
        }),
{
}

/// Streams that a link uses are not white space.
pub proof fn law_ordinary_characters_are_no_white_space(c: char)
    ensures
        white_space(' ') && white_space('\t') && white_space('\n') && white_space('\r'),
        'a' <= c <= 'z' || 'A' <= c <= 'Z' || '0' <= c <= '9' || c == '.' || c == '_' || c == '-'
            ==> !white_space(c),
        blank(Seq::<char>::empty()),
{
}

/// The first faulty argument decides over a request; a request without arguments is
/// refused, and a refetch of anything but best bids and offers as well. Every other request
/// is valid.
pub proof fn law_requests_are_refused_for_a_reason(request: RequestModel, at: int)
    ensures
        request.error() is None ==> request.args.len() > 0,
        request.args.len() == 0 ==> request.error() == Some(ProtocolError::EmptyArgs),
        request.error() is None && 0 <= at < request.args.len() ==> request.args[at].error()
            is None,
        request.error() is None && request.op == ControlOperation::RefetchBbo && 0 <= at
            < request.args.len() ==> request.args[at].stream == "bbo"@,
        0 <= at < request.args.len() && request.args[at].error() is Some && (forall|i: int|
            0 <= i < at ==> (#[trigger] request.args[i]).error() is None) ==> request.error()
            == request.args[at].error(),
        request.args.len() > 0 && (forall|i: int|
            0 <= i < request.args.len() ==> (#[trigger] request.args[i]).error() is None) ==> {
            &&& request.op != ControlOperation::RefetchBbo ==> request.error() is None
            &&& request.op == ControlOperation::RefetchBbo ==> (request.error() is None <==> forall|
                i: int,
            |
                0 <= i < request.args.len() ==> (#[trigger] request.args[i]).stream == "bbo"@)
            &&& request.error() is Some ==> request.error() == Some(
                ProtocolError::InvalidRefetchStream,
            )
        },
{
    lemma_first_fault(request.args, at);
    if forall|i: int| 0 <= i < request.args.len() ==> (#[trigger] request.args[i]).error() is None {
        lemma_no_fault(request.args);
    }
}

proof fn lemma_first_fault(args: Seq<ArgModel>, at: int)
    ensures
        first_arg_error(args) is None && 0 <= at < args.len() ==> args[at].error() is None,
        0 <= at < args.len() && args[at].error() is Some && (forall|i: int|
            0 <= i < at ==> (#[trigger] args[i]).error() is None) ==> first_arg_error(args)
            == args[at].error(),
    decreases args.len(),
{
    if args.len() > 0 && 0 < at < args.len() {
        let rest = args.skip(1);
        lemma_first_fault(rest, at - 1);
        assert(rest[at - 1] == args[at]);
        if forall|i: int| 0 <= i < at ==> (#[trigger] args[i]).error() is None {
            assert(args[0].error() is None);
            assert forall|i: int| 0 <= i < at - 1 implies (#[trigger] rest[i]).error() is None by {
                assert(args[i + 1].error() is None);
            }
        }
    }
}

proof fn lemma_no_fault(args: Seq<ArgModel>)
    requires
        forall|i: int| 0 <= i < args.len() ==> (#[trigger] args[i]).error() is None,
    ensures
        first_arg_error(args) is None,
    decreases args.len(),
{
    if args.len() > 0 {
        let rest = args.skip(1);
        assert forall|i: int| 0 <= i < rest.len() implies (#[trigger] rest[i]).error() is None by {
            assert(args[i + 1].error() is None);
        }
        assert(args[0].error() is None);
        lemma_no_fault(rest);
    }
}

/// A granted request is answered by its own kind with its own arguments.
pub proof fn law_granted_replies_repeat_the_arguments(request: RequestModel)
    ensures
        request.op == ControlOperation::Subscribe ==> request.granted() == (
        ReplyModel::Subscribed { args: request.args }),
        request.op == ControlOperation::Unsubscribe ==> request.granted() == (
        ReplyModel::Unsubscribed { args: request.args }),
        request.op == ControlOperation::RefetchBbo ==> request.granted() == (
        ReplyModel::Refetched { args: request.args }),
{
}

/// The Aeron stream of a transport is the one that its settings name; other transports have
/// none.
pub proof fn law_transports_name_their_stream(
    wanted: ClientTransportModel,
    selected: SelectionModel,
)
    ensures
        wanted.aeron_config() is Some <==> wanted is AeronIpc || wanted is AeronUdp,
        selected.aeron_config() is Some <==> selected is AeronIpc || selected is AeronUdp,
        wanted matches ClientTransportModel::AeronIpc { stream_id } ==> {
            &&& wanted.aeron_config()->0.stream_id == stream_id
            &&& wanted.aeron_config()->0.aeron_channel is Ipc
        },
        wanted matches ClientTransportModel::AeronUdp { endpoint, stream_id } ==> {
            &&& wanted.aeron_config()->0.stream_id == stream_id
            &&& wanted.aeron_config()->0.aeron_channel == (ChannelModel::Udp {
                host: endpoint.host,
                port: endpoint.port,
            })
        },
        selected matches SelectionModel::AeronIpc { stream_id } ==> {
            &&& selected.aeron_config()->0.stream_id == stream_id
            &&& selected.aeron_config()->0.aeron_channel is Ipc
        },
        selected matches SelectionModel::AeronUdp { endpoint, stream_id } ==> {
            &&& selected.aeron_config()->0.stream_id == stream_id
            &&& selected.aeron_config()->0.aeron_channel == (ChannelModel::Udp {
                host: endpoint.host,
                port: endpoint.port,
            })
        },
        ChannelModel::Ipc.text() == "aeron:ipc"@,
        forall|host: Seq<char>, port: u16| #[trigger]
            (ChannelModel::Udp { host, port }).text() == "aeron:udp?endpoint="@ + host + ":"@
                + decimal(port as nat),
{
}

/// Subscribing never takes a subscription away and adds exactly what is named.
/// Unsubscribing, key by key, keeps a subscription exactly where it is not named with its
/// own threshold. Fetching again changes nothing.
pub proof fn law_exact_changes_keep_what_is_not_named(
    before: Set<KeyModel>,
    after: Set<KeyModel>,
    request: RequestModel,
    key: KeyModel,
)
    requires
        after == exactly_changed(before, request),
    ensures
        request.op == ControlOperation::Subscribe && before.contains(key) ==> after.contains(key),
        request.op == ControlOperation::Subscribe && request.names(key) ==> after.contains(key),
        request.op == ControlOperation::Subscribe && after.contains(key) ==> before.contains(key)
            || request.names(key),
        request.op == ControlOperation::Unsubscribe ==> (after.contains(key) <==> before.contains(
            key,
        ) && !request.names(key)),
        request.op == ControlOperation::RefetchBbo ==> after == before,
{
}

/// Where subscriptions are given up by route, subscribing keeps and adds in the same way,
/// and unsubscribing keeps a subscription exactly where no argument names its identifier
/// and stream, at whatever threshold.
pub proof fn law_changes_keep_what_is_not_named(
    before: Set<KeyModel>,
    after: Set<KeyModel>,
    request: RequestModel,
    key: KeyModel,
)
    requires
        after == changed(before, request),
    ensures
        request.op == ControlOperation::Subscribe && before.contains(key) ==> after.contains(key),
        request.op == ControlOperation::Subscribe && request.names(key) ==> after.contains(key),
        request.op == ControlOperation::Subscribe && after.contains(key) ==> before.contains(key)
            || request.names(key),
        request.op == ControlOperation::Unsubscribe ==> (after.contains(key) <==> before.contains(
            key,
        ) && !exists|i: int, j: int|
            0 <= i < request.args.len() && 0 <= j < request.args[i].id.len()
                && #[trigger] request.args[i].id[j] == key.id && request.args[i].stream
                == key.stream),
        request.op == ControlOperation::RefetchBbo ==> after == before,
{
    if drops(request, key) {
        let named = choose|named: KeyModel| #[trigger]
            request.names(named) && key.routes(named.id, named.stream);
        let i = choose|i: int|
            0 <= i < request.args.len() && (#[trigger] request.args[i]).names(named);
        let j = choose|j: int|
            0 <= j < request.args[i].id.len() && #[trigger] request.args[i].key(j) == named;
        assert(request.args[i].id[j] == key.id);
    }
    if exists|i: int, j: int|
        0 <= i < request.args.len() && 0 <= j < request.args[i].id.len()
            && #[trigger] request.args[i].id[j] == key.id && request.args[i].stream
            == key.stream {
        let (i, j) = choose|i: int, j: int|
            0 <= i < request.args.len() && 0 <= j < request.args[i].id.len()
                && #[trigger] request.args[i].id[j] == key.id && request.args[i].stream
                == key.stream;
        let named = request.args[i].key(j);
        assert(request.args[i].names(named));
        assert(request.names(named));
        assert(key.routes(named.id, named.stream));
    }
}

/// Subscriptions reach a route through one of the same identifier and stream, and a market
/// through one of the same identifier.
pub proof fn law_subscriptions_reach_their_own_route(
    subscriptions: Set<KeyModel>,
    id: i32,
    stream: Seq<char>,
)
    ensures
        subscribed(subscriptions, RouteModel { id, stream }) <==> exists|key: KeyModel| #[trigger]
            subscriptions.contains(key) && key.id == id && key.stream == stream,
        subscribed_market(subscriptions, id) <==> exists|key: KeyModel| #[trigger]
            subscriptions.contains(key) && key.id == id,
{
    if subscribed(subscriptions, RouteModel { id, stream }) {
        let key = choose|key: KeyModel| #[trigger]
            subscriptions.contains(key) && key.routes(id, stream);
        assert(subscriptions.contains(key) && key.id == id && key.stream == stream);
    }
    if exists|key: KeyModel| #[trigger]
        subscriptions.contains(key) && key.id == id && key.stream == stream {
        let key = choose|key: KeyModel| #[trigger]
            subscriptions.contains(key) && key.id == id && key.stream == stream;
        assert(key.routes(id, stream));
    }
}

/// Publishing a frame puts it once into the queue of a session that holds a subscription
/// to its identifier and stream, at whatever threshold, and leaves every other session
/// alone. Only a session that wanted the frame and is gone is closed.
pub proof fn law_frames_reach_their_subscribers(
    before: SubscriptionRouter,
    after: SubscriptionRouter,
    key: KeyModel,
    bytes: Seq<u8>,
    deliveries: Map<u64, Delivery>,
    client: u64,
)
    requires
        before.published(after, key, bytes, deliveries),
    ensures
        after.sessions@.contains_key(client) ==> before.sessions@.contains_key(client),
        before.sessions@.contains_key(client) ==> {
            let wants = exists|held: KeyModel| #[trigger]
                before.sessions@[client].subscriptions@.contains(held) && held.id == key.id
                    && held.stream == key.stream;
            &&& !wants ==> after.sessions@.contains_key(client) && after.sessions@[client]
                == before.sessions@[client]
            &&& wants ==> (after.sessions@.contains_key(client) <==> !(deliveries[client]
                is Closed))
            &&& wants && after.sessions@.contains_key(client) ==> {
                &&& after.sessions@[client].outbox.sent()
                    == before.sessions@[client].outbox.sent().push((bytes, deliveries[client]))
                &&& after.sessions@[client].subscriptions == before.sessions@[client].subscriptions
            }
        },
{
    law_subscriptions_reach_their_own_route(
        before.sessions@[client].subscriptions@,
        key.id,
        key.stream,
    );
    assert(after.sessions@.contains_key(client) <==> before.sessions@.contains_key(client) && !(
    before.subscribers(key).contains(client) && deliveries[client] is Closed));
}

/// Whoever has subscribed gets the next frame, also where the subscription came with other
/// ones before it; whoever gave up the only threshold of a route gets it no longer.
pub proof fn law_subscribers_get_the_next_frame(
    before: SubscriptionRouter,
    between: SubscriptionRouter,
    after: SubscriptionRouter,
    client: u64,
    request: RequestModel,
    key: KeyModel,
    bytes: Seq<u8>,
    deliveries: Map<u64, Delivery>,
)
    requires
        request.op == ControlOperation::Subscribe,
        before.sessions@.contains_key(client),
        between.sessions@.contains_key(client),
        between.sessions@[client].subscriptions@ == exactly_changed(
            before.sessions@[client].subscriptions@,
            request,
        ),
        between.sessions@[client].outbox == before.sessions@[client].outbox,
        between.published(after, key, bytes, deliveries),
        before.sessions@[client].subscriptions@.contains(key) || request.names(key),
        after.sessions@.contains_key(client),
    ensures
        after.sessions@[client].outbox.sent() == before.sessions@[client].outbox.sent().push(
            (bytes, deliveries[client]),
        ),
{
    law_exact_changes_keep_what_is_not_named(
        before.sessions@[client].subscriptions@,
        between.sessions@[client].subscriptions@,
        request,
        key,
    );
    law_frames_reach_their_subscribers(between, after, key, bytes, deliveries, client);
    assert(between.sessions@[client].subscriptions@.contains(key));
}

/// A report counts the sessions that took a frame, those whose queue was full and those
/// that are gone.
pub proof fn law_reports_count_deliveries(
    report: PublishReport,
    clients: Set<u64>,
    deliveries: Map<u64, Delivery>,
)
    requires
        clients.finite(),
        reports(report, clients, deliveries),
    ensures
        report.delivered == clients.filter(|client: u64| deliveries[client] is Delivered).len(),
        report.full == clients.filter(|client: u64| deliveries[client] is Full).len(),
        report.closed == clients.filter(|client: u64| deliveries[client] is Closed).len(),
        report.delivered + report.full + report.closed == clients.len(),
{
    assert(clients.filter(|client: u64| deliveries[client] is Delivered) =~= with_delivery(
        clients,
        deliveries,
        Delivery::Delivered,
    ));
    assert(clients.filter(|client: u64| deliveries[client] is Full) =~= with_delivery(
        clients,
        deliveries,
        Delivery::Full,
    ));
    assert(clients.filter(|client: u64| deliveries[client] is Closed) =~= with_delivery(
        clients,
        deliveries,
        Delivery::Closed,
    ));
}

/// Data goes once into the data queue of a client that holds a subscription to its
/// identifier and stream, and into no control queue; it goes to nobody else. A client is
/// forgotten only where its receiver is gone.
pub proof fn law_data_reaches_its_subscribers(
    before: ClientRouter,
    after: ClientRouter,
    key: KeyModel,
    bytes: Seq<u8>,
    deliveries: Map<u64, Delivery>,
    client: u64,
)
    requires
        before.data_sent(after, key, bytes, deliveries),
    ensures
        after.clients@.contains_key(client) ==> before.clients@.contains_key(client),
        before.clients@.contains_key(client) ==> {
            let wants = exists|held: KeyModel| #[trigger]
                before.clients@[client].subscriptions@.contains(held) && held.id == key.id
                    && held.stream == key.stream;
            &&& !wants ==> after.clients@.contains_key(client) && after.clients@[client]
                == before.clients@[client]
            &&& wants ==> (after.clients@.contains_key(client) <==> !(deliveries[client]
                is Closed))
            &&& wants && after.clients@.contains_key(client) ==> {
                &&& after.clients@[client].data.sent()
                    == before.clients@[client].data.sent().push((bytes, deliveries[client]))
                &&& after.clients@[client].control == before.clients@[client].control
                &&& after.clients@[client].subscriptions == before.clients@[client].subscriptions
            }
        },
{
    law_subscriptions_reach_their_own_route(
        before.clients@[client].subscriptions@,
        key.id,
        key.stream,
    );
    assert(after.clients@.contains_key(client) <==> before.clients@.contains_key(client)
        && !given_up(before.subscribers(key), deliveries, false).contains(
        client,
    ));
}

/// A fault goes once into the control queue of a client that holds a subscription to what
/// it names, as far as it names an identifier and a stream, and to everyone where it names
/// neither; it goes into no data queue and to nobody else. A client is forgotten where it
/// is gone or does not keep up.
pub proof fn law_faults_reach_the_concerned(
    before: ClientRouter,
    after: ClientRouter,
    error: StreamError,
    deliveries: Map<u64, Delivery>,
    client: u64,
)
    requires
        before.fault_sent(after, error, deliveries),
    ensures
        after.clients@.contains_key(client) ==> before.clients@.contains_key(client),
        before.clients@.contains_key(client) ==> {
            let concerned = (error.id is None && error.stream is None) || exists|held: KeyModel|
             #[trigger]
                before.clients@[client].subscriptions@.contains(held) && (match error.id {
                    Some(id) => held.id == id,
                    None => true,
                }) && (match error.stream {
                    Some(stream) => held.stream == stream@,
                    None => true,
                });
            &&& !concerned ==> after.clients@.contains_key(client) && after.clients@[client]
                == before.clients@[client]
            &&& concerned ==> (after.clients@.contains_key(client) <==> deliveries[client]
                is Delivered)
            &&& concerned && after.clients@.contains_key(client) ==> {
                &&& after.clients@[client].control.sent()
                    == before.clients@[client].control.sent().push(
                    (SessionControl::StreamError(error), deliveries[client]),
                )
                &&& after.clients@[client].data == before.clients@[client].data
                &&& after.clients@[client].subscriptions == before.clients@[client].subscriptions
            }
        },
{
    let held = before.clients@[client].subscriptions@;
    if exists|key: KeyModel| #[trigger]
        held.contains(key) && named_by(error, key) {
        let key = choose|key: KeyModel| #[trigger]
            held.contains(key) && named_by(error, key);
        assert(held.contains(key));
    }
    if exists|key: KeyModel| #[trigger]
        held.contains(key) && (match error.id {
            Some(id) => key.id == id,
            None => true,
        }) && (match error.stream {
            Some(stream) => key.stream == stream@,
            None => true,
        }) {
        let key = choose|key: KeyModel| #[trigger]
            held.contains(key) && (match error.id {
                Some(id) => key.id == id,
                None => true,
            }) && (match error.stream {
                Some(stream) => key.stream == stream@,
                None => true,
            });
        assert(named_by(error, key));
    }
    assert(after.clients@.contains_key(client) <==> before.clients@.contains_key(client)
        && !given_up(before.concerned(error), deliveries, true).contains(
        client,
    ));
}

/// Publishing a frame, as it is called: every session that holds a subscription to the
/// frame's identifier and stream has it once in its queue, or is closed because it is gone;
/// every other session is left alone. A session that is closed is counted.
pub proof fn law_publish_reaches_subscribers(
    router: &mut SubscriptionRouter,
    key: &SubscriptionKey,
    bytes: &[u8],
    report: PublishReport,
    client: u64,
)
    requires
        old(router).wf(),
        call_ensures(SubscriptionRouter::publish, (router, key, bytes), report),
    ensures
        final(router).sessions@.contains_key(client) ==> old(router).sessions@.contains_key(client),
        old(router).sessions@.contains_key(client) ==> {
            let before = old(router).sessions@[client];
            let after = final(router).sessions@[client];
            let wants = exists|held: KeyModel| #[trigger]
                before.subscriptions@.contains(held) && held.id == key.id && held.stream
                    == key.stream@;
            &&& !wants ==> final(router).sessions@.contains_key(client) && after == before
            &&& wants && final(router).sessions@.contains_key(client) ==> {
                &&& after.outbox.sent().len() == before.outbox.sent().len() + 1
                &&& after.outbox.sent().drop_last() == before.outbox.sent()
                &&& after.outbox.sent().last().0 == bytes@
                &&& after.subscriptions == before.subscriptions
                &&& after.outbox.sent().last().1 is Delivered ==> report.delivered > 0
                &&& after.outbox.sent().last().1 is Full ==> report.full > 0
                &&& !(after.outbox.sent().last().1 is Closed)
                &&& after.outbox.end() == before.outbox.end()
                &&& may_deliver_bytes(before.outbox.end(), bytes@, after.outbox.sent().last().1)
            }
            &&& !final(router).sessions@.contains_key(client) ==> wants && report.closed > 0
                && may_deliver_bytes(before.outbox.end(), bytes@, Delivery::Closed)
        },
{
    let before = *old(router);
    let after = *final(router);
    let deliveries = choose|deliveries: Map<u64, Delivery>|
        #[trigger] before.published(after, key@, bytes@, deliveries) && reports(
            report,
            before.subscribers(key@),
            deliveries,
        );
    law_frames_reach_their_subscribers(before, after, key@, bytes@, deliveries, client);
    law_subscriptions_reach_their_own_route(
        before.sessions@[client].subscriptions@,
        key.id,
        key.stream@,
    );
    let subscribers = before.subscribers(key@);
    if before.sessions@.contains_key(client) && subscribers.contains(client) {
        lemma_known_clients_are_finite(before.sessions, subscribers);
        lemma_one_is_counted(subscribers, deliveries, client);
        if after.sessions@.contains_key(client) {
            assert(after.sessions@[client].outbox.sent().drop_last()
                =~= before.sessions@[client].outbox.sent());
        }
    }
}

proof fn lemma_known_clients_are_finite<V>(table: VecMap<u64, V>, clients: Set<u64>)
    requires
        table.wf(),
        forall|client: u64| #[trigger] clients.contains(client) ==> table@.contains_key(client),
    ensures
        clients.finite(),
{
    lemma_models_len(table.keys@);
    let known = models(table.keys@);
    assert forall|client: u64| #[trigger] clients.contains(client) implies known.contains(
        client,
    ) by {
        assert(table@.contains_key(client));
        assert(has_key(table.keys@, client));
    }
    vstd::set_lib::lemma_set_subset_finite(known, clients);
}

proof fn lemma_one_is_counted(clients: Set<u64>, deliveries: Map<u64, Delivery>, client: u64)
    requires
        clients.finite(),
        clients.contains(client),
    ensures
        with_delivery(clients, deliveries, deliveries[client]).len() > 0,
{
    let alike = with_delivery(clients, deliveries, deliveries[client]);
    assert(alike.contains(client));
    vstd::set_lib::lemma_len_subset(alike, clients);
    if alike.len() == 0 {
        assert(alike =~= Set::empty());
    }
}

/// Changing the subscriptions of a session, as it is called: subscribing keeps what it has
/// and adds what is named, unsubscribing keeps exactly what is not named with its own
/// threshold, nothing that was queued is touched, and no other session changes.
pub proof fn law_apply_changes_one_session(
    router: &mut SubscriptionRouter,
    client_id: u64,
    request: &ControlRequest,
    result: Result<(), UnknownClient>,
    other: u64,
    key: KeyModel,
)
    requires
        old(router).wf(),
        call_ensures(SubscriptionRouter::apply, (router, client_id, request), result),
    ensures
        result is Ok <==> old(router).sessions@.contains_key(client_id),
        !old(router).sessions@.contains_key(client_id) ==> *final(router) == *old(router)
            && result == Err::<(), _>(UnknownClient { client_id }),
        old(router).sessions@.contains_key(client_id) ==> {
            let held = old(router).sessions@[client_id].subscriptions@.contains(key);
            let holds = final(router).sessions@[client_id].subscriptions@.contains(key);
            &&& final(router).sessions@.contains_key(client_id)
            &&& final(router).sessions@[client_id].outbox == old(router).sessions@[client_id].outbox
            &&& request.op == ControlOperation::Subscribe ==> (holds <==> held || request@.names(
                key,
            ))
            &&& request.op == ControlOperation::Unsubscribe ==> (holds <==> held
                && !request@.names(key))
            &&& request.op == ControlOperation::RefetchBbo ==> (holds <==> held)
        },
        other != client_id ==> (final(router).sessions@.contains_key(other)
            <==> old(router).sessions@.contains_key(other)),
        other != client_id && old(router).sessions@.contains_key(other)
            ==> final(router).sessions@[other] == old(router).sessions@[other],
{
    if old(router).sessions@.contains_key(client_id) {
        law_exact_changes_keep_what_is_not_named(
            old(router).sessions@[client_id].subscriptions@,
            final(router).sessions@[client_id].subscriptions@,
            request@,
            key,
        );
    }
}

/// Opening and closing a session, as they are called: the session is there without
/// subscriptions and with an empty queue, or is gone, and no other session changes.
pub proof fn law_connect_opens_one_session(
    router: &mut SubscriptionRouter,
    client_id: u64,
    capacity: usize,
    session: BackendSession,
    other: u64,
)
    requires
        old(router).wf(),
        call_ensures(SubscriptionRouter::connect, (router, client_id, capacity), session),
        other != client_id,
    ensures
        session.client_id == client_id,
        session.outbound is Some && session.control is None,
        final(router).sessions@.contains_key(client_id),
        final(router).sessions@[client_id].subscriptions@ == Set::<KeyModel>::empty(),
        final(router).sessions@[client_id].outbox.sent().len() == 0,
        final(router).sessions@.contains_key(other) <==> old(router).sessions@.contains_key(other),
        old(router).sessions@.contains_key(other) ==> final(router).sessions@[other]
            == old(router).sessions@[other],
{
    assert(final(router).sessions@.remove(client_id).contains_key(other)
        == final(router).sessions@.contains_key(other));
    assert(old(router).sessions@.remove(client_id).contains_key(other)
        == old(router).sessions@.contains_key(other));
    if old(router).sessions@.contains_key(other) {
        assert(final(router).sessions@.remove(client_id)[other] == final(router).sessions@[other]);
        assert(old(router).sessions@.remove(client_id)[other] == old(router).sessions@[other]);
    }
}

/// Closing a session, as it is called.
pub proof fn law_disconnect_closes_one_session(
    router: &mut SubscriptionRouter,
    client_id: u64,
    other: u64,
)
    requires
        old(router).wf(),
        call_ensures(SubscriptionRouter::disconnect, (router, client_id), ()),
        other != client_id,
    ensures
        !final(router).sessions@.contains_key(client_id),
        final(router).sessions@.contains_key(other) <==> old(router).sessions@.contains_key(other),
        old(router).sessions@.contains_key(other) ==> final(router).sessions@[other]
            == old(router).sessions@[other],
{
}

/// Sending data, as it is called: every client that holds a subscription to it has it once
/// in its data queue or is forgotten because it is gone, and every other client is left
/// alone. A full queue loses the data, not the client.
pub proof fn law_send_data_reaches_subscribers(
    router: &mut ClientRouter,
    key: &SubscriptionKey,
    bytes: &[u8],
    report: PublishReport,
    client: u64,
)
    requires
        old(router).wf(),
        call_ensures(ClientRouter::send_data, (router, key, bytes), report),
    ensures
        final(router).clients@.contains_key(client) ==> old(router).clients@.contains_key(client),
        old(router).clients@.contains_key(client) ==> {
            let before = old(router).clients@[client];
            let after = final(router).clients@[client];
            let wants = exists|held: KeyModel| #[trigger]
                before.subscriptions@.contains(held) && held.id == key.id && held.stream
                    == key.stream@;
            &&& !wants ==> final(router).clients@.contains_key(client) && after == before
            &&& wants && final(router).clients@.contains_key(client) ==> {
                &&& after.data.sent().len() == before.data.sent().len() + 1
                &&& after.data.sent().drop_last() == before.data.sent()
                &&& after.data.sent().last().0 == bytes@
                &&& after.control == before.control
                &&& after.subscriptions == before.subscriptions
                &&& after.data.sent().last().1 is Delivered ==> report.delivered > 0
                &&& after.data.sent().last().1 is Full ==> report.full > 0
                &&& !(after.data.sent().last().1 is Closed)
                &&& after.data.end() == before.data.end()
                &&& may_deliver_bytes(before.data.end(), bytes@, after.data.sent().last().1)
            }
            &&& !final(router).clients@.contains_key(client) ==> wants && report.closed > 0
                && may_deliver_bytes(before.data.end(), bytes@, Delivery::Closed)
        },
{
    let before = *old(router);
    let after = *final(router);
    let deliveries = choose|deliveries: Map<u64, Delivery>|
        #[trigger] before.data_sent(after, key@, bytes@, deliveries) && reports(
            report,
            before.subscribers(key@),
            deliveries,
        );
    law_data_reaches_its_subscribers(before, after, key@, bytes@, deliveries, client);
    law_subscriptions_reach_their_own_route(
        before.clients@[client].subscriptions@,
        key.id,
        key.stream@,
    );
    let subscribers = before.subscribers(key@);
    if before.clients@.contains_key(client) && subscribers.contains(client) {
        lemma_known_clients_are_finite(before.clients, subscribers);
        lemma_one_is_counted(subscribers, deliveries, client);
        if after.clients@.contains_key(client) {
            assert(after.clients@[client].data.sent().drop_last()
                =~= before.clients@[client].data.sent());
        }
    }
}

/// Sending a fault, as it is called: every client that it concerns has it once in its control
/// queue or is forgotten because it does not keep up, and every other client is left alone.
pub proof fn law_send_error_reaches_the_concerned(
    router: &mut ClientRouter,
    error: &StreamError,
    report: PublishReport,
    client: u64,
)
    requires
        old(router).wf(),
        call_ensures(ClientRouter::send_error, (router, error), report),
    ensures
        final(router).clients@.contains_key(client) ==> old(router).clients@.contains_key(client),
        old(router).clients@.contains_key(client) ==> {
            let before = old(router).clients@[client];
            let after = final(router).clients@[client];
            let concerned = (error.id is None && error.stream is None) || exists|held: KeyModel|
             #[trigger]
                before.subscriptions@.contains(held) && (match error.id {
                    Some(id) => held.id == id,
                    None => true,
                }) && (match error.stream {
                    Some(stream) => held.stream == stream@,
                    None => true,
                });
            &&& !concerned ==> final(router).clients@.contains_key(client) && after == before
            &&& concerned && final(router).clients@.contains_key(client) ==> {
                &&& after.control.sent() == before.control.sent().push(
                    (SessionControl::StreamError(*error), Delivery::Delivered),
                )
                &&& after.data == before.data
                &&& after.control.end() == before.control.end()
                &&& may_deliver(
                    before.control.end(),
                    SessionControl::StreamError(*error),
                    Delivery::Delivered,
                )
                &&& after.subscriptions == before.subscriptions
                &&& report.delivered > 0
            }
            &&& !final(router).clients@.contains_key(client) ==> concerned && report.full
                + report.closed > 0
        },
{
    let before = *old(router);
    let after = *final(router);
    let deliveries = choose|deliveries: Map<u64, Delivery>|
        #[trigger] before.fault_sent(after, *error, deliveries) && reports(
            report,
            before.concerned(*error),
            deliveries,
        );
    law_faults_reach_the_concerned(before, after, *error, deliveries, client);
    let concerned = before.concerned(*error);
    if before.clients@.contains_key(client) && concerned.contains(client) {
        lemma_known_clients_are_finite(before.clients, concerned);
        lemma_one_is_counted(concerned, deliveries, client);
    }
    assert(after.clients@.contains_key(client) <==> before.clients@.contains_key(client)
        && !given_up(concerned, deliveries, true).contains(client));
}

/// Changing the subscriptions of a registered client, as it is called.
pub proof fn law_router_updates_one_client(
    router: &mut ClientRouter,
    client_id: u64,
    request: &ControlRequest,
    result: Result<(), UnknownClient>,
    other: u64,
    key: KeyModel,
)
    requires
        old(router).wf(),
        call_ensures(ClientRouter::update_subscriptions, (router, client_id, request), result),
    ensures
        result is Ok <==> old(router).clients@.contains_key(client_id),
        old(router).clients@.contains_key(client_id) ==> {
            let held = old(router).clients@[client_id].subscriptions@.contains(key);
            let holds = final(router).clients@[client_id].subscriptions@.contains(key);
            let dropped = exists|i: int, j: int|
                0 <= i < request@.args.len() && 0 <= j < request@.args[i].id.len()
                    && #[trigger] request@.args[i].id[j] == key.id && request@.args[i].stream
                    == key.stream;
            &&& request.op == ControlOperation::Subscribe ==> (holds <==> held || request@.names(
                key,
            ))
            &&& request.op == ControlOperation::Unsubscribe ==> (holds <==> held && !dropped)
            &&& request.op == ControlOperation::RefetchBbo ==> (holds <==> held)
            &&& final(router).clients@[client_id].data == old(router).clients@[client_id].data
            &&& final(router).clients@[client_id].control == old(router).clients@[client_id].control
        },
        other != client_id && old(router).clients@.contains_key(other)
            ==> final(router).clients@.contains_key(other) && final(router).clients@[other]
            == old(router).clients@[other],
{
    if old(router).clients@.contains_key(client_id) {
        law_changes_keep_what_is_not_named(
            old(router).clients@[client_id].subscriptions@,
            final(router).clients@[client_id].subscriptions@,
            request@,
            key,
        );
    }
}

/// Registering a client, as it is called: it starts without subscriptions and with empty
/// queues, and nobody else is touched.
pub proof fn law_register_client_enters_one_client(
    router: &mut ClientRouter,
    client_id: u64,
    capacity: usize,
    session: SessionChannels,
    other: u64,
)
    requires
        old(router).wf(),
        call_ensures(ClientRouter::register_client, (router, client_id, capacity), session),
        other != client_id,
    ensures
        session.client_id == client_id,
        session.udp_outbound is Some && session.control is Some,
        final(router).clients@.contains_key(client_id),
        final(router).clients@[client_id].subscriptions@ == Set::<KeyModel>::empty(),
        final(router).clients@[client_id].data.sent().len() == 0,
        final(router).clients@[client_id].control.sent().len() == 0,
        final(router).clients@.contains_key(other) <==> old(router).clients@.contains_key(other),
        old(router).clients@.contains_key(other) ==> final(router).clients@[other]
            == old(router).clients@[other],
{
    assert(final(router).clients@.remove(client_id).contains_key(other)
        == final(router).clients@.contains_key(other));
    assert(old(router).clients@.remove(client_id).contains_key(other)
        == old(router).clients@.contains_key(other));
    if old(router).clients@.contains_key(other) {
        assert(final(router).clients@.remove(client_id)[other] == final(router).clients@[other]);
        assert(old(router).clients@.remove(client_id)[other] == old(router).clients@[other]);
    }
}

/// Removing a client, as it is called.
pub proof fn law_router_removes_one_client(router: &mut ClientRouter, client_id: u64, other: u64)
    requires
        old(router).wf(),
        call_ensures(ClientRouter::remove_client, (router, client_id), ()),
        other != client_id,
    ensures
        !final(router).clients@.contains_key(client_id),
        final(router).clients@.contains_key(other) <==> old(router).clients@.contains_key(other),
        old(router).clients@.contains_key(other) ==> final(router).clients@[other]
            == old(router).clients@[other],
{
}

/// Checking an argument, as it is called: it is good exactly where it names an identifier, a
/// stream that is more than white space, and no threshold that is below zero or not finite.
pub proof fn law_validate_judges_arguments(
    arg: &SubscriptionArg,
    result: Result<(), ProtocolError>,
)
    requires
        call_ensures(SubscriptionArg::validate, (arg,), result),
    ensures
        ({
            let bad_threshold = arg.noise_filter_bps matches Some(threshold) && (
            !threshold.finite() || threshold.bits > 0x8000_0000_0000_0000);
            let bad_stream = forall|i: int|
                0 <= i < arg.stream@.len() ==> white_space(#[trigger] arg.stream@[i]);
            &&& result is Ok <==> arg.id@.len() > 0 && !bad_stream && !bad_threshold
            &&& arg.id@.len() == 0 ==> result == Err::<(), _>(ProtocolError::EmptyIds)
            &&& arg.id@.len() > 0 && bad_stream ==> result == Err::<(), _>(
                ProtocolError::EmptyStream,
            )
            &&& arg.id@.len() > 0 && !bad_stream && bad_threshold ==> result == Err::<(), _>(
                ProtocolError::InvalidNoiseFilter,
            )
        }),
{
    law_arguments_are_refused_for_a_reason(arg@);
}

/// Checking a request, as it is called: it is good exactly where it has arguments that are
/// all good, and fetches nothing but best bids and offers again. The first faulty argument
/// decides over the error.
pub proof fn law_validate_judges_requests(
    request: &ControlRequest,
    result: Result<(), ProtocolError>,
    at: int,
)
    requires
        call_ensures(ControlRequest::validate, (request,), result),
    ensures
        request.args@.len() == 0 ==> result == Err::<(), _>(ProtocolError::EmptyArgs),
        result is Ok <==> request.args@.len() > 0 && (forall|i: int|
            0 <= i < request.args@.len() ==> (#[trigger] request.args@[i])@.error() is None) && (
        request.op == ControlOperation::RefetchBbo ==> forall|i: int|
            0 <= i < request.args@.len() ==> (#[trigger] request.args@[i]).stream@ == "bbo"@),
        0 <= at < request.args@.len() && request.args@[at]@.error() is Some && (forall|i: int|
            0 <= i < at ==> (#[trigger] request.args@[i])@.error() is None) ==> result == Err::<
            (),
            _,
        >(request.args@[at]@.error()->0),
{
    law_requests_are_refused_for_a_reason(request@, at);
    if result is Ok {
        assert forall|i: int| 0 <= i < request.args@.len() implies (
        #[trigger] request.args@[i])@.error() is None && (request.op
            == ControlOperation::RefetchBbo ==> request.args@[i].stream@ == "bbo"@) by {
            law_requests_are_refused_for_a_reason(request@, i);
            assert(request@.args[i] == request.args@[i]@);
        }
    }
    if request.args@.len() > 0 && (forall|i: int|
        0 <= i < request.args@.len() ==> (#[trigger] request.args@[i])@.error() is None) {
        assert forall|i: int| 0 <= i < request@.args.len() implies (
        #[trigger] request@.args[i]).error() is None by {
            assert(request.args@[i]@.error() is None);
        }
        if request.op == ControlOperation::RefetchBbo && (forall|i: int|
            0 <= i < request.args@.len() ==> (#[trigger] request.args@[i]).stream@ == "bbo"@) {
            assert forall|i: int| 0 <= i < request@.args.len() implies (
            #[trigger] request@.args[i]).stream == "bbo"@ by {
                assert(request.args@[i].stream@ == "bbo"@);
            }
        }
    }
    if 0 <= at < request.args@.len() && request.args@[at]@.error() is Some && (forall|i: int|
        0 <= i < at ==> (#[trigger] request.args@[i])@.error() is None) {
        assert(request@.args[at] == request.args@[at]@);
        assert forall|i: int| 0 <= i < at implies (#[trigger] request@.args[i]).error() is None by {
            assert(request.args@[i]@.error() is None);
        }
    }
}

/// Granting a request, as it is called: the answer is of the request's own kind and repeats
/// its arguments.
pub proof fn law_for_request_repeats_the_arguments(request: &ControlRequest, reply: ControlReply)
    requires
        call_ensures(ControlReply::for_request, (request,), reply),
    ensures
        match reply@ {
            ReplyModel::Subscribed { args } => request.op == ControlOperation::Subscribe && args
                == request@.args,
            ReplyModel::Unsubscribed { args } => request.op == ControlOperation::Unsubscribe
                && args == request@.args,
            ReplyModel::Refetched { args } => request.op == ControlOperation::RefetchBbo && args
                == request@.args,
            _ => false,
        },
{
}

/// What is built for subscribing, unsubscribing and fetching again says just that.
pub proof fn law_requests_are_built_as_asked(
    args: Vec<SubscriptionArg>,
    ids: Vec<i32>,
    subscribe: ControlRequest,
    unsubscribe: ControlRequest,
    refetch: ControlRequest,
)
    requires
        call_ensures(ControlRequest::subscribe, (args,), subscribe),
        call_ensures(ControlRequest::unsubscribe, (args,), unsubscribe),
        call_ensures(ControlRequest::refetch_bbo, (ids,), refetch),
    ensures
        subscribe.op == ControlOperation::Subscribe,
        unsubscribe.op == ControlOperation::Unsubscribe,
        subscribe@.args.len() == args@.len(),
        forall|i: int| 0 <= i < args@.len() ==> #[trigger] subscribe@.args[i] == args@[i]@,
        unsubscribe@.args == subscribe@.args,
        refetch.op == ControlOperation::RefetchBbo,
        refetch@.args.len() == 1,
        refetch@.args[0].id == ids@,
        refetch@.args[0].stream == "bbo"@,
        refetch@.args[0].noise_filter_bps is None,
{
}

/// Changing a set of subscriptions, as it is called: subscribing keeps and adds, unsubscribing
/// keeps exactly what no argument names by identifier and stream.
pub proof fn law_change_subscriptions_keeps_the_rest(
    subscriptions: &mut VecSet<SubscriptionKey>,
    request: &ControlRequest,
    key: KeyModel,
)
    requires
        old(subscriptions).wf(),
        call_ensures(change_subscriptions, (subscriptions, request), ()),
    ensures
        ({
            let held = old(subscriptions)@.contains(key);
            let holds = final(subscriptions)@.contains(key);
            let dropped = exists|i: int, j: int|
                0 <= i < request@.args.len() && 0 <= j < request@.args[i].id.len()
                    && #[trigger] request@.args[i].id[j] == key.id && request@.args[i].stream
                    == key.stream;
            &&& request.op == ControlOperation::Subscribe ==> (holds <==> held || request@.names(
                key,
            ))
            &&& request.op == ControlOperation::Unsubscribe ==> (holds <==> held && !dropped)
            &&& request.op == ControlOperation::RefetchBbo ==> (holds <==> held)
        }),
{
    law_changes_keep_what_is_not_named(old(subscriptions)@, final(subscriptions)@, request@, key);
}

/// Entering a delivery in a report, as it is called: the one number that it belongs to grows
/// by one.
pub proof fn law_note_delivery_counts_one(report: &mut PublishReport, delivery: Delivery)
    requires
        call_ensures(note_delivery, (report, delivery), ()),
    ensures
        final(report).delivered + final(report).full + final(report).closed
            == old(report).delivered + old(report).full + old(report).closed + 1,
        delivery is Delivered ==> final(report).delivered == old(report).delivered + 1,
        delivery is Full ==> final(report).full == old(report).full + 1,
        delivery is Closed ==> final(report).closed == old(report).closed + 1,
        final(report).delivered >= old(report).delivered,
        final(report).full >= old(report).full,
        final(report).closed >= old(report).closed,
{
}

/// A server that nothing else is said of has no Aeron and logs its clients every thirty
/// seconds; a session whose data takes another way has no queues.
pub proof fn law_servers_start_without_aeron(
    address: &str,
    config: LinkServerConfig,
    client_id: u64,
    session: BackendSession,
)
    requires
        call_ensures(LinkServerConfig::tcp, (address,), config),
        call_ensures(BackendSession::control_only, (client_id,), session),
    ensures
        config.tcp_bind_addr@ == address@,
        !config.aeron_enabled,
        config.active_client_log_interval == 30_000_000_000,
        session.client_id == client_id,
        session.outbound is None && session.control is None,
{
}

} // verus!
