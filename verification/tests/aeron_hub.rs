use std::cell::RefCell;
use std::rc::Rc;
use std::sync::mpsc::{channel, sync_channel};

use market_data_link::aeron_hub::{
    conclude_join, conclude_publish, AeronStreamHub, HubError, HubState, JoinStep, SendOutcome,
    Worker, WorkerCommand, RECENT_FRAME_LIMIT,
};
use market_data_link::aeron_publisher::PublicationOffer;
use market_data_link::float64::Float64;
use market_data_link::protocol::{
    AeronChannel, AeronConfig, ControlRequest, SubscriptionArg, SubscriptionKey,
};
use market_data_link::publication::Outlet;
use market_data_link::routes::StreamKey;

fn ipc(stream_id: i32) -> StreamKey {
    StreamKey { channel: AeronChannel::Ipc, stream_id }
}

fn ipc_config(stream_id: i32) -> AeronConfig {
    AeronConfig { aeron_channel: AeronChannel::Ipc, stream_id }
}

fn number(value: f64) -> Float64 {
    Float64::from_bits(value.to_bits())
}

fn with_threshold(id: i32, stream: &str, threshold: Option<f64>) -> ControlRequest {
    ControlRequest::subscribe(vec![SubscriptionArg {
        id: vec![id],
        stream: stream.to_string(),
        noise_filter_bps: threshold.map(number),
    }])
}

#[test]
fn multiple_clients_share_one_group_and_publish_the_union_once() {
    let group = ipc(1001);
    let mut state = HubState::new();
    state.join(1, group.clone());
    state.join(2, group.clone());
    state.apply(1, &ControlRequest::subscribe(vec![SubscriptionArg::new(vec![10], "bbo")]));
    state.apply(
        2,
        &ControlRequest::subscribe(vec![
            SubscriptionArg::new(vec![10], "bbo"),
            SubscriptionArg::new(vec![20], "bbo"),
        ]),
    );

    assert_eq!(state.groups.len(), 1);
    assert_eq!(state.groups.get(&group).unwrap().members.len(), 2);
    assert_eq!(state.matching_groups(&SubscriptionKey::new(10, "bbo")), vec![group.clone()]);
    assert_eq!(state.matching_groups(&SubscriptionKey::new(20, "bbo")), vec![group]);
}

#[test]
fn shared_group_uses_lowest_noise_threshold() {
    let group = ipc(1001);
    let mut state = HubState::new();
    state.join(1, group.clone());
    state.join(2, group.clone());
    state.apply(1, &with_threshold(10, "bbo", Some(5.0)));
    state.apply(2, &with_threshold(10, "bbo", Some(1.0)));

    assert_eq!(state.effective_noise_filter(&group, 10, "bbo"), Some(Some(number(1.0))));
}

#[test]
fn unfiltered_members_and_absent_streams_have_no_threshold() {
    let group = ipc(1001);
    let mut state = HubState::new();
    state.join(1, group.clone());
    state.join(2, group.clone());
    assert_eq!(state.effective_noise_filter(&group, 10, "bbo"), None);
    assert_eq!(state.effective_noise_filter(&ipc(5), 10, "bbo"), None);
    state.apply(1, &with_threshold(10, "bbo", Some(5.0)));
    state.apply(2, &with_threshold(10, "bbo", None));
    assert_eq!(state.effective_noise_filter(&group, 10, "bbo"), Some(None));
    assert_eq!(state.effective_noise_filter(&group, 10, "trades"), None);
}

#[test]
fn final_disconnect_removes_the_publication_group() {
    let group = ipc(1001);
    let mut state = HubState::new();
    state.join(1, group.clone());
    state.join(2, group.clone());

    assert_eq!(state.disconnect(1), None);
    assert!(state.groups.contains_key(&group));
    assert_eq!(state.disconnect(2), Some(group.clone()));
    assert!(!state.groups.contains_key(&group));
}

#[test]
fn duplicate_frames_are_suppressed_even_when_arrivals_interleave() {
    let group = ipc(1001);
    let key = SubscriptionKey::new(10, "bbo");
    let mut state = HubState::new();

    assert!(state.record_if_new(&group, &key, b"event-1"));
    assert!(state.record_if_new(&group, &key, b"event-2"));
    assert!(!state.record_if_new(&group, &key, b"event-1"));
}

#[test]
fn only_the_latest_frames_are_remembered() {
    let group = ipc(1001);
    let key = SubscriptionKey::new(10, "bbo");
    let mut state = HubState::new();
    for i in 0..RECENT_FRAME_LIMIT as u32 {
        assert!(state.record_if_new(&group, &key, &i.to_le_bytes()));
    }
    assert!(!state.record_if_new(&group, &key, &0u32.to_le_bytes()));
    assert!(state.record_if_new(&group, &key, b"one more"));
    assert!(state.record_if_new(&group, &key, &0u32.to_le_bytes()));
    assert!(!state.record_if_new(&group, &key, b"one more"));
    assert!(state.record_if_new(&ipc(7), &key, b"one more"));
}

#[test]
fn a_closed_group_forgets_what_was_sent() {
    let group = ipc(1001);
    let other = ipc(2001);
    let key = SubscriptionKey::new(10, "bbo");
    let mut state = HubState::new();
    state.join(1, group.clone());
    assert!(state.record_if_new(&group, &key, b"event"));
    assert!(state.record_if_new(&other, &key, b"event"));
    assert_eq!(state.disconnect(1), Some(group.clone()));
    assert!(state.record_if_new(&group, &key, b"event"));
    assert!(!state.record_if_new(&other, &key, b"event"));
}

#[test]
fn market_status_matches_any_stream_subscription_for_the_market() {
    let group = ipc(1001);
    let unrelated_group = ipc(2001);
    let mut state = HubState::new();
    state.join(1, group.clone());
    state.join(2, unrelated_group);
    state.apply(1, &ControlRequest::subscribe(vec![SubscriptionArg::new(vec![42], "trades")]));
    state.apply(2, &ControlRequest::subscribe(vec![SubscriptionArg::new(vec![99], "bbo")]));

    assert_eq!(
        state.matching_groups(&SubscriptionKey::new(42, "market_status")),
        vec![group]
    );
}

#[test]
fn mock_worker_observes_one_publication_for_shared_stream_members() {
    let (worker_tx, worker_rx) = sync_channel(16);
    let (observed_tx, observed_rx) = channel();
    let runtime = tokio::runtime::Builder::new_multi_thread().build().unwrap();
    let worker = runtime.spawn_blocking(move || {
        while let Ok(command) = worker_rx.recv() {
            match command {
                WorkerCommand::Join { key, reply } => {
                    observed_tx.send(("join", key.stream_id)).unwrap();
                    reply.send(Ok(())).unwrap();
                }
                WorkerCommand::Publish { groups, .. } => {
                    observed_tx.send(("publish", groups.len() as i32)).unwrap();
                }
                WorkerCommand::Leave { key } => {
                    observed_tx.send(("leave", key.stream_id)).unwrap();
                }
            }
        }
    });
    let mut hub = AeronStreamHub::new(Some(worker_tx));
    let config = ipc_config(1001);

    hub.join(1, config.clone()).unwrap();
    hub.join(2, config).unwrap();
    assert_eq!(observed_rx.recv().unwrap(), ("join", 1001));
    assert!(observed_rx.try_recv().is_err());
    let request = ControlRequest::subscribe(vec![SubscriptionArg::new(vec![42], "bbo")]);
    hub.apply(1, &request).unwrap();
    hub.apply(2, &request).unwrap();
    let key = SubscriptionKey::new(42, "bbo");
    assert_eq!(hub.publish(&key, b"one-event").unwrap(), 1);
    assert_eq!(hub.publish(&key, b"one-event").unwrap(), 0);
    assert_eq!(observed_rx.recv().unwrap(), ("publish", 1));
    assert!(observed_rx.try_recv().is_err());

    hub.disconnect(1);
    assert!(observed_rx.try_recv().is_err());
    hub.disconnect(2);
    assert_eq!(observed_rx.recv().unwrap(), ("leave", 1001));

    drop(hub);
    runtime.block_on(worker).unwrap();
}

#[test]
fn published_commands_carry_the_frame() {
    let (worker_tx, worker_rx) = sync_channel(1);
    let mut hub = AeronStreamHub::new(Some(worker_tx));
    hub.state.join(1, ipc(1001));
    hub.apply(1, &ControlRequest::subscribe(vec![SubscriptionArg::new(vec![42], "bbo")])).unwrap();
    let key = SubscriptionKey::new(42, "bbo");
    assert_eq!(hub.publish(&key, b"first"), Ok(1));
    assert_eq!(hub.publish(&key, b"second"), Err(HubError::QueueFull));
    assert_eq!(hub.publish(&key, b"second"), Ok(0));
    match worker_rx.recv().unwrap() {
        WorkerCommand::Publish { groups, bytes } => {
            assert_eq!(groups, vec![ipc(1001)]);
            assert_eq!(bytes, b"first".to_vec());
        }
        _ => panic!("expected a frame"),
    }
    drop(worker_rx);
    assert_eq!(hub.publish(&key, b"third"), Err(HubError::WorkerStopped));
}

#[test]
fn hubs_refuse_what_they_cannot_do() {
    let mut disabled = AeronStreamHub::new(None);
    assert!(!disabled.enabled());
    assert_eq!(disabled.join(1, ipc_config(1)), Err(HubError::Disabled));
    assert_eq!(disabled.publish(&SubscriptionKey::new(1, "bbo"), b"x"), Ok(0));

    let (worker_tx, worker_rx) = sync_channel(1);
    let mut hub = AeronStreamHub::new(Some(worker_tx));
    assert!(hub.enabled());
    drop(worker_rx);
    assert_eq!(hub.join(1, ipc_config(1)), Err(HubError::WorkerStopped));
    assert_eq!(hub.group_count(), 0);
    hub.state.join(1, ipc(1));
    assert_eq!(hub.join(1, ipc_config(1)), Ok(()));
    assert_eq!(
        hub.join(1, ipc_config(2)),
        Err(HubError::AnotherStream { client_id: 1 })
    );
    assert_eq!(hub.join(2, ipc_config(1)), Ok(()));
    assert_eq!(hub.group_count(), 1);
    assert_eq!(
        HubError::AnotherStream { client_id: 17 }.message(),
        "client 17 has already selected another Aeron stream"
    );
    assert_eq!(HubError::Disabled.message(), "Aeron support is disabled");
    assert_eq!(HubError::QueueFull.message(), "Aeron publisher queue is full");
    assert_eq!(HubError::WorkerStopped.message(), "Aeron publisher thread stopped");
    assert_eq!(HubError::ReplyDropped.message(), "Aeron publisher thread dropped join reply");
}

#[test]
fn outcomes_of_the_worker_are_passed_on() {
    assert_eq!(conclude_publish(3, SendOutcome::Sent), Ok(3));
    assert_eq!(conclude_publish(3, SendOutcome::Full), Err(HubError::QueueFull));
    assert_eq!(conclude_publish(3, SendOutcome::Stopped), Err(HubError::WorkerStopped));
    assert_eq!(conclude_join(true, Some(Ok(()))), Ok(()));
    assert_eq!(conclude_join(false, None), Err(HubError::WorkerStopped));
    assert_eq!(conclude_join(true, None), Err(HubError::ReplyDropped));
    let error = conclude_join(true, Some(Err("no driver".to_string()))).unwrap_err();
    assert_eq!(error.message(), "no driver");
}

struct Publication {
    result: i64,
}

impl PublicationOffer for Publication {
    fn offer(&self, bytes: &[u8]) -> i64 {
        if bytes.is_empty() {
            -9
        } else {
            self.result
        }
    }
}

#[test]
fn workers_connect_once_and_offer_to_their_publications() {
    let mut worker: Worker<u8, Publication> = Worker::new();
    assert_eq!(worker.next_join_step(&ipc(1)), JoinStep::Connect);
    worker.connected(9);
    assert_eq!(worker.next_join_step(&ipc(1)), JoinStep::CreatePublication);
    worker.created(ipc(1), Outlet::new(Publication { result: 5 }));
    worker.created(ipc(2), Outlet::new(Publication { result: -2 }));
    assert_eq!(worker.next_join_step(&ipc(1)), JoinStep::Ready);

    let failed = worker.offer(&vec![ipc(1), ipc(2), ipc(3)], b"frame");
    assert_eq!(failed.len(), 1);
    assert_eq!(failed[0].key, ipc(2));
    assert_eq!(failed[0].result, -2);
    assert_eq!(worker.offer(&vec![ipc(1)], b"").len(), 1);

    worker.leave(&ipc(2));
    assert!(worker.offer(&vec![ipc(1), ipc(2)], b"frame").is_empty());
    assert_eq!(worker.next_join_step(&ipc(2)), JoinStep::CreatePublication);
}

struct CountingPublication {
    offers: Rc<RefCell<Vec<Vec<u8>>>>,
}

impl PublicationOffer for CountingPublication {
    fn offer(&self, bytes: &[u8]) -> i64 {
        self.offers.borrow_mut().push(bytes.to_vec());
        self.offers.borrow().len() as i64
    }
}

#[test]
fn workers_offer_a_frame_as_often_as_its_stream_is_listed() {
    let offers: Vec<Rc<RefCell<Vec<Vec<u8>>>>> =
        vec![Rc::new(RefCell::new(Vec::new())), Rc::new(RefCell::new(Vec::new()))];
    let mut worker: Worker<u8, CountingPublication> = Worker::new();
    for (at, offers) in offers.iter().enumerate() {
        let publication = CountingPublication { offers: Rc::clone(offers) };
        worker.created(ipc(at as i32), Outlet::new(publication));
    }
    assert!(worker.offer(&vec![ipc(0), ipc(7), ipc(0)], b"frame").is_empty());
    assert_eq!(*offers[0].borrow(), vec![b"frame".to_vec(), b"frame".to_vec()]);
    assert!(offers[1].borrow().is_empty());
}

#[test]
fn outlets_pass_frames_on() {
    let offers = Rc::new(RefCell::new(Vec::new()));
    let mut outlet = Outlet::new(CountingPublication { offers: Rc::clone(&offers) });
    assert_eq!(outlet.offer(b"first"), 1);
    assert_eq!(outlet.offer(b"second"), 2);
    assert_eq!(*offers.borrow(), vec![b"first".to_vec(), b"second".to_vec()]);
}
