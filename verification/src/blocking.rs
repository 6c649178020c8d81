//! The client that reads and writes frames as they are, and filters data.
use vstd::prelude::*;
use crate::float64::Float64;
use crate::frame_filter::{FrameFilter, NoiseFilter};
use crate::negotiation::{selection_for, NegotiationError, NegotiationStep};
use crate::protocol::{
    ClientTransportConfig, ControlReply, ControlRequest, TransportReady, TransportSelection,
};
use crate::routes::RouteModel;
use crate::transport::ControlFrame;

verus! {

/// What a client asks for that receives UDP at this port, if it does.
pub fn select_transport(transport: &ClientTransportConfig, udp_port: Option<u16>) -> (selection:
    TransportSelection)
    requires
        transport@ is Udp ==> udp_port is Some,
    ensures
        selection_for(transport@, udp_port) == Some(selection@),
{
    match transport {
        ClientTransportConfig::WebSocket => TransportSelection::WebSocket,
        ClientTransportConfig::Udp => TransportSelection::Udp { client_port: udp_port.unwrap() },
        ClientTransportConfig::AeronIpc { stream_id } => TransportSelection::AeronIpc {
            stream_id: *stream_id,
        },
        ClientTransportConfig::AeronUdp { endpoint, stream_id } => TransportSelection::AeronUdp {
            endpoint: endpoint.clone(),
            stream_id: *stream_id,
        },
    }
}

/// What a client that blocks does with what it receives before its transport is ready: it
/// takes whatever transport the server has prepared.
pub open spec fn step_on_frame(frame: ControlFrame<Result<ControlReply, String>>) ->
    NegotiationStep {
    match frame {
        ControlFrame::Text(Err(reason)) => NegotiationStep::Fail(
            NegotiationError::InvalidReply(reason),
        ),
        ControlFrame::Text(
            Ok(ControlReply::TransportReady { transport: TransportReady::Udp { server_address } }),
        ) => NegotiationStep::ConnectUdp(server_address),
        ControlFrame::Text(Ok(ControlReply::TransportReady { .. })) => NegotiationStep::Ready,
        ControlFrame::Text(Ok(ControlReply::Error { message })) => NegotiationStep::Fail(
            NegotiationError::Refused(message),
        ),
        ControlFrame::Text(Ok(reply)) => NegotiationStep::Fail(
            NegotiationError::UnexpectedReply(reply),
        ),
        ControlFrame::Ping(payload) => NegotiationStep::Pong(payload),
        ControlFrame::Close(reason) => NegotiationStep::Fail(NegotiationError::Closed(reason)),
        _ => NegotiationStep::Continue,
    }
}

/// What a client that blocks does with what it receives before its transport is ready.
pub fn negotiation_step(frame: ControlFrame<Result<ControlReply, String>>) -> (step:
    NegotiationStep)
    ensures
        step == step_on_frame(frame),
{
    match frame {
        ControlFrame::Text(Err(reason)) => NegotiationStep::Fail(
            NegotiationError::InvalidReply(reason),
        ),
        ControlFrame::Text(Ok(reply)) => match reply {
            ControlReply::TransportReady { transport } => match transport {
                TransportReady::Udp { server_address } => NegotiationStep::ConnectUdp(
                    server_address,
                ),
                _ => NegotiationStep::Ready,
            },
            ControlReply::Error { message } => NegotiationStep::Fail(
                NegotiationError::Refused(message),
            ),
            other => NegotiationStep::Fail(NegotiationError::UnexpectedReply(other)),
        },
        ControlFrame::Ping(payload) => NegotiationStep::Pong(payload),
        ControlFrame::Close(reason) => NegotiationStep::Fail(NegotiationError::Closed(reason)),
        ControlFrame::Binary(_) => NegotiationStep::Continue,
        ControlFrame::Pong => NegotiationStep::Continue,
        ControlFrame::Other => NegotiationStep::Continue,
    }
}

/// What a client that reads has done so far.
#[derive(Debug, PartialEq, Eq)]
pub enum ReadLook<T> {
    /// Nothing.
    Start,
    /// It has looked for a datagram.
    Datagram(Option<Vec<u8>>),
    /// It has read a frame of the control connection.
    Control(ControlFrame<T>),
}

/// What a client that reads does next.
#[derive(Debug, PartialEq, Eq)]
pub enum ReadStep<T> {
    /// Look for a datagram, without waiting.
    ReadDatagram,
    /// Read a frame of the control connection.
    ReadControl,
    Deliver(ControlFrame<T>),
}

/// The data that a look has brought.
pub open spec fn data_of<T>(look: ReadLook<T>) -> Option<Vec<u8>> {
    match look {
        ReadLook::Datagram(datagram) => datagram,
        ReadLook::Control(ControlFrame::Binary(bytes)) => Some(bytes),
        _ => None,
    }
}

/// What a client that reads does next, where data that has come passes the filter or not.
pub open spec fn read_step<T>(has_udp: bool, look: ReadLook<T>, passes: bool) -> ReadStep<T> {
    match look {
        ReadLook::Start => if has_udp {
            ReadStep::ReadDatagram
        } else {
            ReadStep::ReadControl
        },
        ReadLook::Datagram(None) => ReadStep::ReadControl,
        ReadLook::Datagram(Some(bytes)) => if passes {
            ReadStep::Deliver(ControlFrame::Binary(bytes))
        } else {
            ReadStep::ReadControl
        },
        ReadLook::Control(ControlFrame::Binary(bytes)) => if passes {
            ReadStep::Deliver(ControlFrame::Binary(bytes))
        } else {
            ReadStep::ReadControl
        },
        ReadLook::Control(frame) => ReadStep::Deliver(frame),
    }
}

/// A client whose transport is ready.
pub struct BlockingLink {
    pub has_udp: bool,
    pub frame_filter: FrameFilter,
}

impl BlockingLink {
    pub open spec fn wf(self) -> bool {
        self.frame_filter.wf()
    }

    pub fn new(has_udp: bool) -> (link: BlockingLink)
        ensures
            link.wf(),
            link.has_udp == has_udp,
            link.frame_filter.routes@ == Map::<RouteModel, Option<NoiseFilter>>::empty(),
    {
        BlockingLink { has_udp, frame_filter: FrameFilter::new() }
    }

    pub fn has_udp(&self) -> (held: bool)
        ensures
            held == self.has_udp,
    {
        self.has_udp
    }

    /// The filter follows what was sent, if it was a request.
    pub fn send(&mut self, sent: Option<ControlRequest>)
        requires
            old(self).wf(),
        ensures
            final(self).wf(),
            final(self).has_udp == old(self).has_udp,
            match sent {
                None => *final(self) == *old(self),
                Some(request) => FrameFilter::applied(
                    old(self).frame_filter.routes@,
                    final(self).frame_filter.routes@,
                    request@,
                ),
            },
    {
        if let Some(request) = sent {
            self.frame_filter.apply(&request);
        }
    }

    /// Whether data is delivered that has come by UDP or over the control connection.
    fn delivers<R: Fn(Float64, Float64, Float64) -> bool>(
        &mut self,
        bytes: &[u8],
        now: u128,
        reaches: &R,
    ) -> (accepted: bool)
        requires
            old(self).wf(),
            forall|a: Float64, b: Float64, c: Float64| call_requires(*reaches, (a, b, c)),
        ensures
            final(self).wf(),
            final(self).has_udp == old(self).has_udp,
            old(self).frame_filter.may_accept(*reaches, bytes@, now, accepted),
            final(self).frame_filter.routes@ == old(self).frame_filter.after_frame(
                bytes@,
                now,
                accepted,
            ),
    {
        self.frame_filter.accepts(bytes, now, reaches)
    }

    /// Reads what is there: a datagram first, then what the control connection has brought.
    /// Data that the client has not asked for and noise are passed over; after such a
    /// datagram the control connection is read.
    pub fn read<T, R: Fn(Float64, Float64, Float64) -> bool>(
        &mut self,
        look: ReadLook<T>,
        now: u128,
        reaches: &R,
    ) -> (step: ReadStep<T>)
        requires
            old(self).wf(),
            forall|a: Float64, b: Float64, c: Float64| call_requires(*reaches, (a, b, c)),
        ensures
            final(self).wf(),
            final(self).has_udp == old(self).has_udp,
            step == read_step(old(self).has_udp, look, step is Deliver),
            match data_of(look) {
                Some(bytes) => {
                    &&& old(self).frame_filter.may_accept(*reaches, bytes@, now, step is Deliver)
                    &&& final(self).frame_filter.routes@ == old(self).frame_filter.after_frame(
                        bytes@,
                        now,
                        step is Deliver,
                    )
                },
                None => *final(self) == *old(self),
            },
    {
        match look {
            ReadLook::Start => {
                if self.has_udp {
                    ReadStep::ReadDatagram
                } else {
                    ReadStep::ReadControl
                }
            },
            ReadLook::Datagram(datagram) => match datagram {
                Some(bytes) => {
                    if self.delivers(bytes.as_slice(), now, reaches) {
                        ReadStep::Deliver(ControlFrame::Binary(bytes))
                    } else {
                        ReadStep::ReadControl
                    }
                },
                None => ReadStep::ReadControl,
            },
            ReadLook::Control(frame) => match frame {
                ControlFrame::Binary(bytes) => {
                    if self.delivers(bytes.as_slice(), now, reaches) {
                        ReadStep::Deliver(ControlFrame::Binary(bytes))
                    } else {
                        ReadStep::ReadControl
                    }
                },
                other => ReadStep::Deliver(other),
            },
        }
    }
}

} // verus!
