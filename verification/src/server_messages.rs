//! Messages that servers send over the mandatory control connection.
use vstd::prelude::*;

verus! {

/// The transport that a server has prepared. Only ports are named, since both ends know
/// each other's address.
#[derive(Debug, Clone, Copy, PartialEq, Eq, Structural)]
pub enum TransportReady {
    Udp { server_port: u16 },
    AeronIpc { stream_id: i32 },
    AeronUdp { stream_id: i32 },
}

/// What a server answers to a client.
#[derive(Debug, Clone, Copy, PartialEq, Eq, Structural)]
pub enum ControlReply {
    TransportReady { transport: TransportReady },
}

/// A fault of a stream, or of the whole feed where no identifier is given.
#[derive(Debug, PartialEq, Eq)]
pub struct StreamError {
    pub id: Option<i32>,
    pub stream: Option<String>,
    pub severity: u8,
    pub message: String,
    pub timestamp: i64,
}

impl Clone for StreamError {
    fn clone(&self) -> (copy: StreamError)
        ensures
            copy == *self,
    {
        let stream: Option<String> = match &self.stream {
            Some(stream) => Some(stream.clone()),
            None => None,
        };
        StreamError {
            id: self.id,
            stream,
            severity: self.severity,
            message: self.message.clone(),
            timestamp: self.timestamp,
        }
    }
}

/// What a server tells a client unasked.
#[derive(Debug, PartialEq, Eq)]
pub enum ControlEvent {
    StreamError { error: StreamError },
}

impl Clone for ControlEvent {
    fn clone(&self) -> (copy: ControlEvent)
        ensures
            copy == *self,
    {
        match self {
            ControlEvent::StreamError { error } => ControlEvent::StreamError {
                error: error.clone(),
            },
        }
    }
}

impl ControlEvent {
    pub fn stream_error(error: StreamError) -> (event: ControlEvent)
        ensures
            event == (ControlEvent::StreamError { error }),
    {
        ControlEvent::StreamError { error }
    }

    /// The fault that the event carries.
    pub fn into_stream_error(self) -> (error: StreamError)
        ensures
            self == (ControlEvent::StreamError { error }),
    {
        match self {
            ControlEvent::StreamError { error } => error,
        }
    }
}

} // verus!
