use market_data_link::transport::{
    endpoint_parameter, next_resolve_step, resolved_endpoint_port, EndpointError, ResolveStep,
    AERON_DRIVER_DIR, PORT_RESOLUTION_TIMEOUT,
};

fn parse_port(endpoint: &str) -> Option<u16> {
    endpoint.rsplit(':').next().and_then(|port| port.parse().ok())
}

#[test]
fn extracts_resolved_wildcard_subscription_port() {
    assert_eq!(
        resolved_endpoint_port("aeron:udp?endpoint=0.0.0.0:40123", &parse_port).unwrap(),
        Some(40123)
    );
    assert_eq!(
        resolved_endpoint_port("aeron:udp?endpoint=0.0.0.0:0", &parse_port).unwrap(),
        None
    );
}

#[test]
fn endpoints_are_found_among_other_parameters() {
    assert_eq!(endpoint_parameter("aeron:udp?term-length=1|endpoint=a:1|endpoint=b:2"), Some("a:1"));
    assert_eq!(endpoint_parameter("endpoint=a:1"), Some("a:1"));
    assert_eq!(endpoint_parameter("aeron:udp?endpoint=a?b"), Some("a?b"));
    assert_eq!(endpoint_parameter("aeron:udp?my-endpoint=a:1"), None);
    assert_eq!(endpoint_parameter("aeron:ipc"), None);
    assert_eq!(endpoint_parameter(""), None);
    assert_eq!(endpoint_parameter("?|endpoint="), Some(""));
}

#[test]
fn channels_without_a_port_are_errors() {
    assert_eq!(
        resolved_endpoint_port("aeron:ipc", &parse_port),
        Err(EndpointError::Missing)
    );
    assert_eq!(
        resolved_endpoint_port("aeron:udp?endpoint=nowhere", &parse_port),
        Err(EndpointError::Invalid)
    );
}

#[test]
fn ports_are_waited_for_a_while() {
    assert_eq!(next_resolve_step(Ok(Some(7)), 0, 9), ResolveStep::Done(7));
    assert_eq!(next_resolve_step(Ok(None), 10, 9), ResolveStep::Retry);
    assert_eq!(next_resolve_step(Ok(None), 10, 9 + PORT_RESOLUTION_TIMEOUT), ResolveStep::Retry);
    assert_eq!(
        next_resolve_step(Ok(None), 10, 10 + PORT_RESOLUTION_TIMEOUT),
        ResolveStep::TimedOut
    );
    assert_eq!(
        next_resolve_step(Err(EndpointError::Missing), 0, 0),
        ResolveStep::Failed(EndpointError::Missing)
    );
    assert_eq!(AERON_DRIVER_DIR, "/dev/shm/aeron");
}
