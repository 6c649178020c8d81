use market_data_link::client_router::ClientRouter;
use market_data_link::codec::{Bbo, FeatureBbo, WireMessage};
use market_data_link::float64::Float64;
use market_data_link::protocol::{ControlRequest, SubscriptionArg, SubscriptionKey};
use market_data_link::server::{
    note_delivery, BackendSession, Delivery, LinkServer, LinkServerConfig, PublishReport, SessionControl,
    SubscriptionRouter, UnknownClient,
};
use market_data_link::server_messages::StreamError;

fn number(value: f64) -> Float64 {
    Float64::from_bits(value.to_bits())
}

fn subscribe(id: i32, stream: &str) -> ControlRequest {
    ControlRequest::subscribe(vec![SubscriptionArg::new(vec![id], stream)])
}

#[test]
fn router_reports_backpressure_and_closed_channels() {
    let mut router = ClientRouter::new();
    let mut session = router.register_client(1, 1);
    router.update_subscriptions(1, &subscribe(42, "bbo")).unwrap();
    let key = SubscriptionKey::new(42, "bbo");

    assert_eq!(router.send_data(&key, &[1]).delivered, 1);
    assert_eq!(router.send_data(&key, &[2]).full, 1);
    assert_eq!(session.udp_outbound.as_mut().unwrap().blocking_recv(), Some(vec![1]));

    let outbound = session.udp_outbound.take().unwrap();
    drop(outbound);
    assert_eq!(router.send_data(&key, &[3]).closed, 1);
    assert_eq!(router.session_count(), 0);
}

#[test]
fn stream_errors_are_scoped_and_control_backpressure_removes_session() {
    let mut router = ClientRouter::new();
    let mut matching = router.register_client(1, 1);
    let mut other = router.register_client(2, 1);
    router.update_subscriptions(1, &subscribe(42, "bbo")).unwrap();
    router.update_subscriptions(2, &subscribe(43, "bbo")).unwrap();
    let error = StreamError {
        id: Some(42),
        stream: Some("bbo".to_string()),
        severity: 1,
        message: "down".to_string(),
        timestamp: 10,
    };
    assert_eq!(router.send_error(&error).delivered, 1);
    assert!(matches!(
        matching.control.as_mut().unwrap().blocking_recv(),
        Some(SessionControl::StreamError(received)) if received == error
    ));
    assert!(other.control.as_mut().unwrap().try_recv().is_err());

    assert_eq!(router.send_error(&error).delivered, 1);
    let report = router.send_error(&error);
    assert_eq!(report.full, 1);
    assert_eq!(router.session_count(), 1);
}

#[test]
fn disconnect_removes_all_session_subscriptions() {
    let mut router = ClientRouter::new();
    let _session = router.register_client(9, 4);
    router
        .update_subscriptions(
            9,
            &ControlRequest::subscribe(vec![
                SubscriptionArg::new(vec![1], "bbo"),
                SubscriptionArg::new(vec![101], "feature"),
            ]),
        )
        .unwrap();
    router.remove_client(9);
    router.remove_client(9);

    assert_eq!(router.session_count(), 0);
    assert_eq!(
        router.send_data(&SubscriptionKey::new(1, "bbo"), &[1]),
        Default::default()
    );
}

#[test]
fn mock_mdp_to_fm_and_fm_to_te_routes_keep_streams_separate() {
    let mut router = ClientRouter::new();
    let mut fm = router.register_client(1, 4);
    let mut te = router.register_client(2, 4);
    router.update_subscriptions(1, &subscribe(42, "bbo")).unwrap();
    router.update_subscriptions(2, &subscribe(101, "feature")).unwrap();

    let market = Bbo {
        market_id: 42,
        timestamp_mdp_in: 1,
        bid: number(10.0),
        bid_volume: number(2.0),
        ask: number(11.0),
        ask_volume: number(3.0),
        event_id: 4,
        ts_mono_mdp_out: 5,
    }
    .encode_le();
    let feature = FeatureBbo {
        feature_id: 101,
        market_id: 42,
        timestamp_mdp_in: 1,
        bid: number(10.1),
        bid_volume: number(2.0),
        ask: number(10.9),
        ask_volume: number(3.0),
        event_id: 4,
        ts_mono_mdp_out: 5,
        mdp_received_ts_ns: 6,
        feature_start_ts_ns: 7,
        feature_done_ts_ns: 8,
        signal_bps: number(9.0),
    }
    .encode_le();

    assert_eq!(router.send_data(&SubscriptionKey::new(42, "bbo"), &market).delivered, 1);
    assert_eq!(
        router.send_data(&SubscriptionKey::new(101, "feature"), &feature).delivered,
        1
    );

    let market_received = fm.udp_outbound.as_mut().unwrap().blocking_recv().unwrap();
    let feature_received = te.udp_outbound.as_mut().unwrap().blocking_recv().unwrap();
    assert!(matches!(
        WireMessage::decode(&market_received).unwrap(),
        WireMessage::Bbo(value) if value.market_id == 42
    ));
    assert!(matches!(
        WireMessage::decode(&feature_received).unwrap(),
        WireMessage::FeatureBbo(value)
            if value.feature_id == 101 && value.market_id == 42
    ));
    assert!(fm.udp_outbound.as_mut().unwrap().try_recv().is_err());
    assert!(te.udp_outbound.as_mut().unwrap().try_recv().is_err());
}

#[test]
fn faults_without_a_name_go_to_everyone() {
    let mut router = ClientRouter::new();
    let _first = router.register_client(1, 2);
    let _second = router.register_client(2, 2);
    router.update_subscriptions(1, &subscribe(42, "bbo")).unwrap();
    let fault = |id: Option<i32>, stream: Option<&str>| StreamError {
        id,
        stream: stream.map(|stream| stream.to_string()),
        severity: 0,
        message: String::new(),
        timestamp: 0,
    };
    assert_eq!(router.send_error(&fault(None, None)).delivered, 2);
    assert_eq!(router.send_error(&fault(None, Some("bbo"))).delivered, 1);
    assert_eq!(router.send_error(&fault(Some(43), None)), PublishReport::default());
    assert_eq!(
        router.update_subscriptions(3, &subscribe(1, "bbo")),
        Err(UnknownClient { client_id: 3 })
    );
}

#[test]
fn subscription_routers_publish_by_identifier_and_stream() {
    let mut router = SubscriptionRouter::new();
    let mut first = router.connect(1, 1);
    let second = router.connect(2, 1);
    assert_eq!(first.client_id, 1);
    assert!(first.control.is_none());
    router.apply(1, &subscribe(42, "bbo")).unwrap();
    router.apply(2, &subscribe(42, "bbo")).unwrap();
    let key = SubscriptionKey::new(42, "bbo");
    assert_eq!(
        router.publish(&key, b"one"),
        PublishReport { delivered: 2, full: 0, closed: 0 }
    );
    drop(second);
    assert_eq!(
        router.publish(&key, b"two"),
        PublishReport { delivered: 0, full: 1, closed: 1 }
    );
    assert_eq!(router.session_count(), 1);
    assert_eq!(first.outbound.as_mut().unwrap().blocking_recv(), Some(b"one".to_vec()));
    assert_eq!(
        router.publish(&SubscriptionKey::new(42, "trades"), b"three"),
        PublishReport::default()
    );
    router.disconnect(1);
    assert_eq!(router.session_count(), 0);
    let error = router.apply(1, &subscribe(42, "bbo")).unwrap_err();
    assert_eq!(error.message(), "unknown link client 1");
}

#[test]
fn subscription_routers_unsubscribe_key_by_key() {
    let mut router = SubscriptionRouter::new();
    let _session = router.connect(1, 8);
    let filtered = SubscriptionArg {
        id: vec![42],
        stream: "bbo".to_string(),
        noise_filter_bps: Some(number(5.0)),
    };
    router.apply(1, &ControlRequest::subscribe(vec![filtered.clone()])).unwrap();
    router.apply(1, &ControlRequest::unsubscribe(vec![SubscriptionArg::new(vec![42], "bbo")])).unwrap();
    let key = SubscriptionKey::new(42, "bbo");
    assert_eq!(router.publish(&key, b"x").delivered, 1);
    router.apply(1, &ControlRequest::refetch_bbo(vec![42])).unwrap();
    router.apply(1, &ControlRequest::unsubscribe(vec![filtered])).unwrap();
    assert_eq!(router.publish(&key, b"x"), PublishReport::default());
}

#[test]
fn servers_start_without_aeron() {
    let config = LinkServerConfig::tcp("127.0.0.1:9000");
    assert_eq!(config.tcp_bind_addr, "127.0.0.1:9000");
    assert!(!config.aeron_enabled);
    assert_eq!(config.active_client_log_interval, 30_000_000_000);
    let server = LinkServer::new(config.clone(), 7);
    assert_eq!(server.config, config);
    assert_eq!(server.backend, 7);
    let session = BackendSession::control_only(3);
    assert_eq!(session.client_id, 3);
    assert!(session.outbound.is_none());
}

#[test]
fn reports_count_every_delivery_once() {
    let mut report = PublishReport::default();
    for delivery in [Delivery::Delivered, Delivery::Full, Delivery::Closed, Delivery::Full] {
        note_delivery(&mut report, delivery);
    }
    assert_eq!(report, PublishReport { delivered: 1, full: 2, closed: 1 });
}

#[test]
fn subscribers_get_one_copy_of_a_frame() {
    let mut router = SubscriptionRouter::new();
    let mut first = router.connect(1, 8);
    let mut second = router.connect(2, 8);
    router.apply(1, &subscribe(42, "bbo")).unwrap();
    router.apply(2, &subscribe(42, "trades")).unwrap();
    router.publish(&SubscriptionKey::new(42, "bbo"), b"one");
    let outbound = first.outbound.as_mut().unwrap();
    assert_eq!(outbound.try_recv().ok(), Some(b"one".to_vec()));
    assert!(outbound.try_recv().is_err());
    assert!(second.outbound.as_mut().unwrap().try_recv().is_err());
}
