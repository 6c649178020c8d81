use std::cell::RefCell;
use std::collections::VecDeque;
use std::rc::Rc;

use market_data_link::aeron_publisher::{
    end_wait, AeronFrame, AeronPublishReport, AeronPublisher, JoinCompletion, JoinError,
    JoinStatus, OfferOutcome, PublicationFactory, PublicationOffer, PublicationRegistration,
    StreamGroup, PUBLICATION_REGISTRATION_TIMEOUT,
};
use market_data_link::collections::VecSet;
use market_data_link::float64::Float64;
use market_data_link::protocol::{AeronChannel, AeronConfig, ControlRequest, SubscriptionArg};
use market_data_link::publication::{Progress, Settlement, StreamPublication};

#[derive(Default)]
struct FakeState {
    registrations: Vec<(AeronChannel, i32)>,
    offers: Vec<(i32, Vec<u8>)>,
    offer_results: VecDeque<i64>,
    never_ready: bool,
    refuse: bool,
}

#[derive(Clone)]
struct FakeFactory {
    state: Rc<RefCell<FakeState>>,
}

struct FakeRegistration {
    stream_id: i32,
    state: Rc<RefCell<FakeState>>,
}

struct FakePublication {
    stream_id: i32,
    state: Rc<RefCell<FakeState>>,
}

impl PublicationOffer for FakePublication {
    fn offer(&self, bytes: &[u8]) -> i64 {
        let mut state = self.state.borrow_mut();
        state.offers.push((self.stream_id, bytes.to_vec()));
        state.offer_results.pop_front().unwrap_or(1)
    }
}

impl PublicationRegistration for FakeRegistration {
    type Publication = FakePublication;

    fn poll(&self) -> Result<Option<Self::Publication>, String> {
        if self.state.borrow().never_ready {
            return Ok(None);
        }
        Ok(Some(FakePublication { stream_id: self.stream_id, state: Rc::clone(&self.state) }))
    }
}

impl PublicationFactory for FakeFactory {
    type Publication = FakePublication;
    type Registration = FakeRegistration;

    fn begin(&mut self, channel: &AeronChannel, stream_id: i32) -> Result<FakeRegistration, String> {
        if self.state.borrow().refuse {
            return Err("no media driver".to_string());
        }
        self.state.borrow_mut().registrations.push((channel.clone(), stream_id));
        Ok(FakeRegistration { stream_id, state: Rc::clone(&self.state) })
    }
}

const START: u128 = 1_000_000_000_000;

fn ipc(stream_id: i32) -> AeronConfig {
    AeronConfig { aeron_channel: AeronChannel::Ipc, stream_id }
}

fn router() -> (AeronPublisher<FakeFactory>, Rc<RefCell<FakeState>>) {
    let state = Rc::new(RefCell::new(FakeState::default()));
    (AeronPublisher::with_factory(FakeFactory { state: Rc::clone(&state) }), state)
}

fn join(router: &mut AeronPublisher<FakeFactory>, client_id: u64, stream_id: i32) {
    assert_eq!(
        router.add_client(client_id, ipc(stream_id), START).unwrap(),
        JoinStatus::Pending
    );
    assert_eq!(
        router.progress_registration(START),
        vec![JoinCompletion { client_id, result: Ok(()) }]
    );
}

fn subscribe(router: &mut AeronPublisher<FakeFactory>, client_id: u64, arg: SubscriptionArg) {
    router.update_subscriptions(client_id, &ControlRequest::subscribe(vec![arg])).unwrap();
}

fn with_threshold(id: i32, stream: &str, threshold: f64) -> SubscriptionArg {
    SubscriptionArg {
        id: vec![id],
        stream: stream.to_string(),
        noise_filter_bps: Some(Float64::from_bits(threshold.to_bits())),
    }
}

#[test]
fn shared_stream_uses_one_registration_and_one_offer() {
    let (mut router, state) = router();
    join(&mut router, 1, 1001);
    assert_eq!(router.add_client(2, ipc(1001), START).unwrap(), JoinStatus::Ready);
    subscribe(&mut router, 1, SubscriptionArg::new(vec![10], "bbo"));
    subscribe(&mut router, 2, SubscriptionArg::new(vec![10], "bbo"));

    let report = router.publish(AeronFrame::new(10, "bbo", b"frame"));
    assert_eq!(report.offered, 1);
    assert_eq!(router.group_count(), 1);
    let state = state.borrow();
    assert_eq!(state.registrations.len(), 1);
    assert_eq!(state.offers, vec![(1001, b"frame".to_vec())]);
}

#[test]
fn route_presence_tracks_subscribe_unsubscribe_status_and_disconnect() {
    let (mut router, _) = router();
    assert!(!router.has_route(10, "bbo"));
    assert!(!router.has_market_route(10));

    join(&mut router, 1, 1001);
    assert!(router.has_client(1));
    subscribe(&mut router, 1, SubscriptionArg::new(vec![10], "bbo"));
    assert!(router.has_route(10, "bbo"));
    assert!(router.has_market_route(10));
    assert!(!router.has_route(10, "trades"));

    router
        .update_subscriptions(
            1,
            &ControlRequest::unsubscribe(vec![SubscriptionArg::new(vec![10], "bbo")]),
        )
        .unwrap();
    assert!(!router.has_route(10, "bbo"));
    assert!(!router.has_market_route(10));

    subscribe(&mut router, 1, SubscriptionArg::new(vec![10], "trades"));
    router.remove_client(1);
    assert!(!router.has_client(1));
    assert!(!router.has_route(10, "trades"));
    assert!(!router.has_market_route(10));
}

#[test]
fn disabled_router_has_no_routes() {
    let router = AeronPublisher::<FakeFactory>::from_factory(false, None);
    assert!(!router.has_route(10, "bbo"));
    assert!(!router.has_market_route(10));
    assert!(!router.has_client(1));
}

#[test]
fn distinct_streams_get_distinct_publications() {
    let (mut router, state) = router();
    join(&mut router, 1, 1001);
    join(&mut router, 2, 2001);
    subscribe(&mut router, 1, SubscriptionArg::new(vec![10], "bbo"));
    subscribe(&mut router, 2, SubscriptionArg::new(vec![10], "bbo"));

    assert_eq!(router.publish(AeronFrame::new(10, "bbo", b"frame")).offered, 2);
    assert_eq!(state.borrow().registrations.len(), 2);
}

#[test]
fn distinct_udp_endpoints_get_distinct_publications() {
    let (mut router, state) = router();
    for (client_id, port) in [(1, 40101), (2, 40102)] {
        assert_eq!(
            router
                .add_client(
                    client_id,
                    AeronConfig {
                        aeron_channel: AeronChannel::udp("127.0.0.1", port),
                        stream_id: 1001,
                    },
                    START,
                )
                .unwrap(),
            JoinStatus::Pending
        );
    }
    assert_eq!(router.progress_registration(START).len(), 2);
    assert_eq!(router.group_count(), 2);
    assert_eq!(state.borrow().registrations.len(), 2);
}

#[test]
fn byte_identical_events_are_not_deduplicated() {
    let (mut router, state) = router();
    join(&mut router, 1, 1001);
    subscribe(&mut router, 1, SubscriptionArg::new(vec![10], "bbo"));

    router.publish(AeronFrame::new(10, "bbo", b"same"));
    router.publish(AeronFrame::new(10, "bbo", b"same"));
    assert_eq!(state.borrow().offers.len(), 2);
}

#[test]
fn unrelated_routes_are_not_offered() {
    let (mut router, state) = router();
    join(&mut router, 1, 1001);
    subscribe(&mut router, 1, SubscriptionArg::new(vec![10], "bbo"));

    assert_eq!(
        router.publish(AeronFrame::new(11, "bbo", b"other-id")),
        AeronPublishReport::default()
    );
    assert_eq!(
        router.publish(AeronFrame::new(10, "trades", b"other-stream")),
        AeronPublishReport::default()
    );
    assert!(state.borrow().offers.is_empty());
}

#[test]
fn different_noise_thresholds_do_not_filter_shared_publication() {
    let (mut router, state) = router();
    join(&mut router, 1, 1001);
    assert_eq!(router.add_client(2, ipc(1001), START).unwrap(), JoinStatus::Ready);
    subscribe(&mut router, 1, with_threshold(10, "bbo", 5.0));
    subscribe(&mut router, 2, with_threshold(10, "bbo", 1.0));

    let first = AeronFrame::new(10, "bbo", b"first");
    let second = AeronFrame::new(10, "bbo", b"second");
    let third = AeronFrame::new(10, "bbo", b"third");

    assert_eq!(router.publish(first).offered, 1);
    assert_eq!(router.publish(second).offered, 1);
    assert_eq!(router.publish(third).offered, 1);
    assert_eq!(state.borrow().offers.len(), 3);
}

#[test]
fn market_status_routes_by_market_without_filter_state() {
    let (mut router, state) = router();
    join(&mut router, 1, 1001);
    subscribe(&mut router, 1, with_threshold(42, "bbo", 10.0));
    let bbo = |bytes: &'static [u8]| AeronFrame::new(42, "bbo", bytes);

    assert_eq!(router.publish(bbo(b"first")).offered, 1);
    assert_eq!(router.publish(bbo(b"second")).offered, 1);
    assert_eq!(router.publish(AeronFrame::market_status(42, b"status")).offered, 1);
    assert_eq!(state.borrow().offers.len(), 3);
}

#[test]
fn final_disconnect_removes_publication() {
    let (mut router, _) = router();
    join(&mut router, 1, 1001);
    assert_eq!(router.add_client(2, ipc(1001), START).unwrap(), JoinStatus::Ready);
    router.remove_client(1);
    assert_eq!(router.group_count(), 1);
    router.remove_client(2);
    assert_eq!(router.group_count(), 0);
}

#[test]
fn backpressure_is_counted_without_retry() {
    let (mut router, state) = router();
    state.borrow_mut().offer_results.push_back(-2);
    join(&mut router, 1, 1001);
    subscribe(&mut router, 1, SubscriptionArg::new(vec![10], "bbo"));

    let report = router.publish(AeronFrame::new(10, "bbo", b"frame"));
    assert_eq!(report.failed, 1);
    assert_eq!(router.stats().backpressured, 1);
    assert_eq!(state.borrow().offers.len(), 1);
}

#[test]
fn not_connected_is_counted_without_retry() {
    let (mut router, state) = router();
    state.borrow_mut().offer_results.push_back(-1);
    join(&mut router, 1, 1001);
    subscribe(&mut router, 1, SubscriptionArg::new(vec![10], "bbo"));

    let report = router.publish(AeronFrame::new(10, "bbo", b"frame"));
    assert_eq!(report.failed, 1);
    assert_eq!(router.stats().not_connected, 1);
    assert_eq!(state.borrow().offers.len(), 1);
}

#[test]
fn fatal_offer_starts_non_blocking_recreation() {
    let (mut router, state) = router();
    join(&mut router, 1, 1001);
    join(&mut router, 2, 2001);
    subscribe(&mut router, 1, SubscriptionArg::new(vec![10], "bbo"));
    subscribe(&mut router, 2, SubscriptionArg::new(vec![10], "bbo"));
    state.borrow_mut().offer_results.push_back(-4);

    assert_eq!(
        router.publish_to_client_group(1, AeronFrame::new(10, "bbo", b"fatal")).failed,
        1
    );
    assert_eq!(router.stats().fatal, 1);
    let while_recovering = router.publish(AeronFrame::new(10, "bbo", b"other-group"));
    assert_eq!(while_recovering.offered, 1);
    assert_eq!(while_recovering.unavailable, 1);
    assert!(router.progress_registration(START).is_empty());
    assert!(router.progress_registration(START).is_empty());
    assert_eq!(router.publish(AeronFrame::new(10, "bbo", b"recovered")).offered, 2);
    assert_eq!(state.borrow().registrations.len(), 3);
}

#[test]
fn registration_timeout_fails_negotiation() {
    let (mut router, state) = router();
    state.borrow_mut().never_ready = true;
    assert_eq!(router.add_client(7, ipc(1001), START).unwrap(), JoinStatus::Pending);
    let completions = router.do_work_at(START + PUBLICATION_REGISTRATION_TIMEOUT);
    assert_eq!(completions.len(), 1);
    assert_eq!(completions[0].client_id, 7);
    assert!(completions[0].result.is_err());
    assert_eq!(router.group_count(), 0);
}

#[test]
fn registrations_wait_until_their_timeout() {
    let (mut router, state) = router();
    state.borrow_mut().never_ready = true;
    router.add_client(7, ipc(1001), START).unwrap();
    assert!(router.do_work_at(START + PUBLICATION_REGISTRATION_TIMEOUT - 1).is_empty());
    assert_eq!(router.group_count(), 1);
    let completions = router.do_work_at(START + PUBLICATION_REGISTRATION_TIMEOUT);
    assert_eq!(
        completions[0].result,
        Err("Aeron publication registration timed out".to_string())
    );
    assert_eq!(router.stats().registration_failures, 1);
    assert!(!router.has_client(7));
}

#[test]
fn clients_choose_one_stream() {
    let (mut router, state) = router();
    join(&mut router, 1, 1001);
    assert_eq!(router.add_client(1, ipc(1001), START), Ok(JoinStatus::Ready));
    let error = router.add_client(1, ipc(2001), START).unwrap_err();
    assert_eq!(error, JoinError::AnotherStream { client_id: 1 });
    assert_eq!(error.message(), "client 1 has already selected another Aeron stream");

    state.borrow_mut().refuse = true;
    let error = router.add_client(2, ipc(2001), START).unwrap_err();
    assert_eq!(error.message(), "no media driver");
    assert!(!router.has_client(2));

    let mut disabled = AeronPublisher::<FakeFactory>::from_factory(false, None);
    assert!(!disabled.enabled());
    assert_eq!(disabled.add_client(1, ipc(1), START), Err(JoinError::Disabled));
    assert_eq!(JoinError::Disabled.message(), "Aeron support is disabled");
}

#[test]
fn failed_newcomers_leave_the_others_and_their_routes() {
    let (mut router, state) = router();
    join(&mut router, 1, 1001);
    subscribe(&mut router, 1, SubscriptionArg::new(vec![10], "bbo"));
    state.borrow_mut().offer_results.push_back(-5);
    assert_eq!(router.publish(AeronFrame::new(10, "bbo", b"fatal")).failed, 1);

    state.borrow_mut().never_ready = true;
    assert_eq!(router.add_client(2, ipc(1001), START), Ok(JoinStatus::Pending));
    subscribe(&mut router, 2, SubscriptionArg::new(vec![20], "bbo"));
    assert!(router.progress_registration(START).is_empty());
    assert!(router.has_route(20, "bbo"));

    let late = START + PUBLICATION_REGISTRATION_TIMEOUT;
    let completions = router.progress_registration(late);
    assert_eq!(completions.len(), 1);
    assert_eq!(completions[0].client_id, 2);
    assert!(router.has_client(1));
    assert!(!router.has_client(2));
    assert!(router.has_route(10, "bbo"));
    assert!(!router.has_route(20, "bbo"));

    state.borrow_mut().never_ready = false;
    assert!(router.progress_registration(late).is_empty());
    assert_eq!(router.publish(AeronFrame::new(10, "bbo", b"again")).offered, 1);
}

#[test]
fn every_attempt_is_counted_once() {
    let (mut router, state) = router();
    join(&mut router, 1, 1001);
    subscribe(&mut router, 1, SubscriptionArg::new(vec![10], "bbo"));
    for result in [7, -1, -2, -3, 0, -4] {
        state.borrow_mut().offer_results.push_back(result);
        let report = router.publish(AeronFrame::new(10, "bbo", b"frame"));
        assert_eq!(report.matched, 1);
        assert_eq!(report.matched, report.offered + report.unavailable + report.failed);
    }
    let stats = router.stats();
    assert_eq!(stats.attempted, 6);
    assert_eq!(stats.offered, 2);
    assert_eq!(stats.not_connected, 1);
    assert_eq!(stats.backpressured, 1);
    assert_eq!(stats.admin_action, 1);
    assert_eq!(stats.fatal, 1);
    assert_eq!(stats.registrations, 1);
    assert_eq!(OfferOutcome::of_position(i64::MIN), OfferOutcome::Fatal);
}

#[test]
fn clients_wait_until_they_are_told() {
    let (mut router, state) = router();
    state.borrow_mut().never_ready = true;
    assert_eq!(router.add_client(1, ipc(1001), START).unwrap(), JoinStatus::Pending);
    assert_eq!(router.add_client(2, ipc(1001), START).unwrap(), JoinStatus::Pending);
    assert_eq!(router.add_client(1, ipc(1001), START).unwrap(), JoinStatus::Pending);
    assert!(router.do_work_at(START).is_empty());
    router.remove_client(2);

    state.borrow_mut().never_ready = false;
    assert_eq!(
        router.do_work_at(START),
        vec![JoinCompletion { client_id: 1, result: Ok(()) }]
    );
    assert!(router.do_work_at(START).is_empty());
    assert_eq!(router.add_client(1, ipc(1001), START).unwrap(), JoinStatus::Ready);
}

#[test]
fn clients_of_lost_streams_are_not_told_again() {
    let (mut router, state) = router();
    join(&mut router, 1, 1001);
    state.borrow_mut().offer_results.push_back(-4);
    router.publish_to_client_group(1, AeronFrame::new(10, "bbo", b"fatal"));
    assert_eq!(router.add_client(1, ipc(1001), START).unwrap(), JoinStatus::Pending);
    assert!(router.do_work_at(START).is_empty());
    assert!(router.do_work_at(START).is_empty());
    assert_eq!(router.add_client(1, ipc(1001), START).unwrap(), JoinStatus::Ready);
}

#[test]
fn lost_streams_are_started_once_each() {
    let (mut router, state) = router();
    join(&mut router, 1, 1001);
    join(&mut router, 2, 2001);
    join(&mut router, 3, 3001);
    state.borrow_mut().offer_results.extend([-4, -4]);
    router.publish_to_client_group(1, AeronFrame::new(10, "bbo", b"fatal"));
    router.publish_to_client_group(3, AeronFrame::new(10, "bbo", b"fatal"));
    assert_eq!(state.borrow().offers.len(), 2);

    state.borrow_mut().registrations.clear();
    assert!(router.do_work_at(START).is_empty());
    assert_eq!(
        state.borrow().registrations,
        vec![(AeronChannel::Ipc, 1001), (AeronChannel::Ipc, 3001)]
    );
    assert_eq!(state.borrow().offers.len(), 2);
}

#[test]
fn refused_streams_are_asked_for_once() {
    let (mut router, state) = router();
    state.borrow_mut().refuse = true;
    assert_eq!(
        router.add_client(1, ipc(1001), START).unwrap_err().message(),
        "no media driver"
    );
    assert!(state.borrow().registrations.is_empty());
    state.borrow_mut().refuse = false;
    assert_eq!(router.add_client(1, ipc(1001), START).unwrap(), JoinStatus::Pending);
    assert_eq!(state.borrow().registrations, vec![(AeronChannel::Ipc, 1001)]);
}

fn registering(state: &Rc<RefCell<FakeState>>) -> StreamPublication<FakeFactory> {
    let registration = FakeRegistration { stream_id: 1001, state: Rc::clone(state) };
    StreamPublication::registering(registration, START)
}

#[test]
fn publications_enter_what_was_found() {
    let state = Rc::new(RefCell::new(FakeState::default()));
    let mut publication = registering(&state);
    assert_eq!(publication.offer(b"early"), None);
    assert_eq!(publication.enter(Settlement::Idle), Progress::Idle);
    assert!(!publication.is_ready());
    let found = FakePublication { stream_id: 1001, state: Rc::clone(&state) };
    assert_eq!(publication.enter(Settlement::Completed(found)), Progress::Completed);
    assert!(publication.is_ready());
    assert_eq!(publication.offer(b"frame"), Some(1));
    assert_eq!(state.borrow().offers, vec![(1001, b"frame".to_vec())]);
    publication.lose();
    assert!(publication.is_unavailable());
    assert_eq!(publication.offer(b"late"), None);
    publication.replace(registering(&state));
    assert_eq!(
        publication.enter(Settlement::Failed("no driver".to_string())),
        Progress::Failed("no driver".to_string())
    );
    assert!(publication.is_unavailable());
    assert_eq!(state.borrow().offers.len(), 1);
}

#[test]
fn waits_end_for_those_who_waited() {
    let state = Rc::new(RefCell::new(FakeState::default()));
    for (progress, told, left) in [
        (Progress::Idle, vec![], vec![1, 2]),
        (Progress::Completed, vec![2], vec![1, 2]),
        (Progress::Failed("no driver".to_string()), vec![2], vec![1]),
    ] {
        let mut members: VecSet<u64> = VecSet::of(1);
        members.insert(2);
        let waiters: VecSet<u64> = VecSet::of(2);
        let mut group = StreamGroup { members, waiters, publication: registering(&state) };
        assert_eq!(end_wait(&mut group, &progress).items, told);
        assert_eq!(group.members.items, left);
        assert_eq!(group.waiters.items.is_empty(), progress != Progress::Idle);
    }
}
