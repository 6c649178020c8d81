//! Endpoints, received frames, and the port of a wildcard subscription.
use vstd::prelude::*;
use vstd::string::*;
use crate::text::{first_of, find_first, starts_with, without_prefix};

verus! {

/// Where the reliable control connection is opened.
#[derive(Debug, PartialEq, Eq)]
pub enum ControlEndpoint {
    Tcp(String),
}

impl Clone for ControlEndpoint {
    fn clone(&self) -> (copy: ControlEndpoint)
        ensures
            copy == *self,
    {
        match self {
            ControlEndpoint::Tcp(uri) => ControlEndpoint::Tcp(uri.clone()),
        }
    }
}

/// The directory of the Aeron media driver that every role uses.
pub const AERON_DRIVER_DIR: &'static str = "/dev/shm/aeron";

/// A payload as it came, and when, in nanoseconds of this process's clock.
#[derive(Debug, Clone, PartialEq, Eq)]
pub struct InboundFrame {
    pub bytes: Vec<u8>,
    pub received_at: u128,
}

/// A frame of the control connection; what its texts say was read already.
#[derive(Debug, PartialEq, Eq)]
pub enum ControlFrame<T> {
    Text(T),
    Binary(Vec<u8>),
    Ping(Vec<u8>),
    Pong,
    /// The peer closes the connection; the text describes its reason.
    Close(String),
    Other,
}

/// What a look at the control connection gives.
#[derive(Debug, PartialEq, Eq)]
pub enum Received<T> {
    NotReady,
    /// The connection has ended.
    Ended,
    Frame(ControlFrame<T>),
}

/// Why a channel has no port.
#[derive(Debug, Clone, Copy, PartialEq, Eq, Structural)]
pub enum EndpointError {
    /// The channel names no endpoint.
    Missing,
    /// The endpoint is no socket address.
    Invalid,
}

/// What follows the first `?`, or the whole text without one.
pub open spec fn parameters(channel_uri: Seq<char>) -> Seq<char> {
    let at = first_of(channel_uri, '?');
    if at < channel_uri.len() {
        channel_uri.skip(at + 1)
    } else {
        channel_uri
    }
}

/// The value of the first of the parameters, which are separated by `|`, that names an
/// endpoint.
pub open spec fn endpoint_in(parameters: Seq<char>) -> Option<Seq<char>>
    decreases parameters.len(),
{
    let at = first_of(parameters, '|');
    let first = parameters.take(at);
    if starts_with(first, "endpoint="@) {
        Some(first.skip("endpoint="@.len() as int))
    } else if 0 <= at < parameters.len() {
        endpoint_in(parameters.skip(at + 1))
    } else {
        None
    }
}

/// The endpoint that a channel names.
pub fn endpoint_parameter<'a>(channel_uri: &'a str) -> (endpoint: Option<&'a str>)
    ensures
        match endpoint {
            Some(endpoint) => endpoint_in(parameters(channel_uri@)) == Some(endpoint@),
            None => endpoint_in(parameters(channel_uri@)) is None,
        },
{
    let question: usize = find_first(channel_uri, '?');
    let total: usize = channel_uri.unicode_len();
    let mut rest: &'a str = if question < total {
        channel_uri.substring_char(question + 1, total)
    } else {
        channel_uri
    };
    proof {
        assert(rest@ =~= parameters(channel_uri@));
    }
    loop
        invariant
            endpoint_in(rest@) == endpoint_in(parameters(channel_uri@)),
        decreases rest@.len(),
    {
        let at: usize = find_first(rest, '|');
        let len: usize = rest.unicode_len();
        let first: &'a str = rest.substring_char(0, at);
        assert(first@ =~= rest@.take(at as int));
        if let Some(value) = without_prefix(first, "endpoint=") {
            return Some(value);
        }
        if at >= len {
            return None;
        }
        let next: &'a str = rest.substring_char(at + 1, len);
        assert(next@ =~= rest@.skip(at + 1));
        rest = next;
    }
}

/// The port that a wildcard subscription has got, if it has got one by now.
///
/// `parse_port` reads the port of a socket address.
pub fn resolved_endpoint_port<P: Fn(&str) -> Option<u16>>(
    channel_uri: &str,
    parse_port: &P,
) -> (result: Result<Option<u16>, EndpointError>)
    requires
        forall|text: &str| call_requires(*parse_port, (text,)),
    ensures
        match endpoint_in(parameters(channel_uri@)) {
            None => result == Err::<Option<u16>, _>(EndpointError::Missing),
            Some(endpoint) => exists|text: &str, port: Option<u16>|
                {
                    &&& text@ == endpoint
                    &&& #[trigger] call_ensures(*parse_port, (text,), port)
                    &&& result == match port {
                        None => Err(EndpointError::Invalid),
                        Some(port) => Ok(
                            if port != 0 {
                                Some(port)
                            } else {
                                None
                            },
                        ),
                    }
                },
        },
{
    match endpoint_parameter(channel_uri) {
        None => Err(EndpointError::Missing),
        Some(endpoint) => match parse_port(endpoint) {
            None => Err(EndpointError::Invalid),
            Some(port) => Ok(
                if port != 0 {
                    Some(port)
                } else {
                    None
                },
            ),
        },
    }
}

/// How long the port of a wildcard subscription is waited for, in nanoseconds.
pub const PORT_RESOLUTION_TIMEOUT: u128 = 5_000_000_000;

/// What to do while the port of a wildcard subscription is waited for.
#[derive(Debug, Clone, Copy, PartialEq, Eq, Structural)]
pub enum ResolveStep {
    Done(u16),
    Retry,
    /// The endpoint still has a wildcard port after five seconds.
    TimedOut,
    Failed(EndpointError),
}

/// What to do after a look at the endpoint of a wildcard subscription that has been waited
/// for since `started_at`.
pub fn next_resolve_step(
    resolved: Result<Option<u16>, EndpointError>,
    started_at: u128,
    now: u128,
) -> (step: ResolveStep)
    ensures
        step == match resolved {
            Err(error) => ResolveStep::Failed(error),
            Ok(Some(port)) => ResolveStep::Done(port),
            Ok(None) => if now - started_at >= PORT_RESOLUTION_TIMEOUT {
                ResolveStep::TimedOut
            } else {
                ResolveStep::Retry
            },
        },
{
    match resolved {
        Err(error) => ResolveStep::Failed(error),
        Ok(Some(port)) => ResolveStep::Done(port),
        Ok(None) => if now >= started_at && now - started_at >= PORT_RESOLUTION_TIMEOUT {
            ResolveStep::TimedOut
        } else {
            ResolveStep::Retry
        },
    }
}

} // verus!
