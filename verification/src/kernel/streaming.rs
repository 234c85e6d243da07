//! Real-time streaming between kernel components: message framing, the
//! transport's channel and its back-pressure hysteresis.

use vstd::prelude::*;
use crate::kernel::bus::{clone_sender, open_channel};
use crate::text::to_owned_string;

verus! {

/// Kinds of stream messages.
#[derive(Debug, Clone, Copy, PartialEq, Eq, Structural)]
pub enum StreamMessageType {
    Request,
    Response,
    Error,
    Heartbeat,
    ChunkStart,
    ChunkData,
    ChunkEnd,
}

/// The header of a stream message.
#[derive(Debug, Clone, Copy, PartialEq, Eq, Structural)]
pub struct StreamHeader {
    pub msg_type: StreamMessageType,
    pub stream_id: u64,
    pub sequence: u64,
    pub timestamp_ns: u64,
    pub payload_size: u32,
}

/// A stream message: header and body.
#[derive(Debug, Clone)]
pub struct StreamMessage {
    pub header: StreamHeader,
    pub payload: Vec<u8>,
}

/// Queue limits of a transport: pause at the high-water mark, resume at the
/// low-water mark.
#[derive(Debug, Clone, Copy, PartialEq, Eq, Structural)]
pub struct BackpressureConfig {
    pub max_queue_size: usize,
    pub high_water_mark: usize,
    pub low_water_mark: usize,
    pub pause_duration_ms: u64,
}

impl Default for BackpressureConfig {
    /// A queue of 1000, pausing at 800 and resuming at 200, with 10 ms pauses.
    fn default() -> (r: Self)
        ensures
            r == (BackpressureConfig {
                max_queue_size: 1000,
                high_water_mark: 800,
                low_water_mark: 200,
                pause_duration_ms: 10,
            }),
    {
        BackpressureConfig { max_queue_size: 1000, high_water_mark: 800, low_water_mark: 200, pause_duration_ms: 10 }
    }
}

/// Whether a transport is paused after seeing a queue length: it pauses at
/// or above the high-water mark, resumes at or below the low-water mark, and
/// otherwise stays as it was.
pub open spec fn paused_after(c: BackpressureConfig, paused: bool, queue_len: usize) -> bool {
    if queue_len >= c.high_water_mark {
        true
    } else if queue_len <= c.low_water_mark {
        false
    } else {
        paused
    }
}

/// A streaming transport: a bounded channel of stream messages and its
/// flow-control state.
#[derive(Debug)]
pub struct StreamingTransport {
    config: BackpressureConfig,
    sender: Option<tokio::sync::mpsc::Sender<StreamMessage>>,
    receiver: Option<tokio::sync::mpsc::Receiver<StreamMessage>>,
    paused: bool,
}

impl StreamingTransport {
    pub closed spec fn spec_config(&self) -> BackpressureConfig {
        self.config
    }

    pub closed spec fn spec_paused(&self) -> bool {
        self.paused
    }

    /// Whether the sending end is held.
    pub closed spec fn has_sender(&self) -> bool {
        self.sender is Some
    }

    /// Whether the receiving end is still held (it is handed out once).
    pub closed spec fn has_receiver(&self) -> bool {
        self.receiver is Some
    }

    /// A running transport over a new channel of `max_queue_size` messages.
    pub fn new(config: BackpressureConfig) -> (r: Self)
        requires
            0 < config.max_queue_size <= usize::MAX / 8,
        ensures
            r.spec_config() == config,
            !r.spec_paused(),
            r.has_sender(),
            r.has_receiver(),
    {
        let (sender, receiver) = open_channel(config.max_queue_size);
        StreamingTransport { config, sender: Some(sender), receiver: Some(receiver), paused: false }
    }

    /// Another sending end of the channel, while the transport holds one.
    pub fn sender(&self) -> (r: Option<tokio::sync::mpsc::Sender<StreamMessage>>)
        ensures
            r is Some == self.has_sender(),
    {
        match &self.sender {
            Some(s) => Some(clone_sender(s)),
            None => None,
        }
    }

    /// The receiving end, the first time it is asked for; `None` after.
    pub fn receiver(&mut self) -> (r: Option<tokio::sync::mpsc::Receiver<StreamMessage>>)
        ensures
            r is Some == old(self).has_receiver(),
            !final(self).has_receiver(),
            final(self).has_sender() == old(self).has_sender(),
            final(self).spec_config() == old(self).spec_config(),
            final(self).spec_paused() == old(self).spec_paused(),
    {
        self.receiver.take()
    }

    /// Whether the transport is paused.
    pub fn is_paused(&self) -> (r: bool)
        ensures
            r == self.spec_paused(),
    {
        self.paused
    }

    /// Applies back-pressure for the current queue length. Returns true
    /// exactly when this call paused a running transport.
    pub fn check_backpressure(&mut self, queue_len: usize) -> (r: bool)
        ensures
            final(self).spec_config() == old(self).spec_config(),
            final(self).has_sender() == old(self).has_sender(),
            final(self).has_receiver() == old(self).has_receiver(),
            final(self).spec_paused() == paused_after(old(self).spec_config(), old(self).spec_paused(), queue_len),
            r == (!old(self).spec_paused() && queue_len >= old(self).spec_config().high_water_mark),
    {
        if queue_len >= self.config.high_water_mark {
            if !self.paused {
                self.paused = true;
                return true;
            }
        } else if queue_len <= self.config.low_water_mark {
            if self.paused {
                self.paused = false;
                return false;
            }
        }
        false
    }
}

/// Streaming errors.
#[derive(Debug, Clone, Copy, PartialEq, Eq, Structural)]
pub enum StreamError {
    SerializationError,
    DeserializationError,
    SendError,
    ReceiveError,
    TransportClosed,
    Backpressure,
    InvalidFormat,
}

/// The displayed message of a streaming error.
pub open spec fn stream_error_text(e: StreamError) -> Seq<char> {
    match e {
        StreamError::SerializationError => "Failed to serialize message"@,
        StreamError::DeserializationError => "Failed to deserialize message"@,
        StreamError::SendError => "Send error"@,
        StreamError::ReceiveError => "Receive error"@,
        StreamError::TransportClosed => "Transport closed"@,
        StreamError::Backpressure => "Backpressure applied"@,
        StreamError::InvalidFormat => "Invalid message format"@,
    }
}

impl StreamError {
    /// The displayed message, such as `Transport closed`.
    pub fn to_string(&self) -> (r: String)
        ensures
            r@ == stream_error_text(*self),
    {
        match self {
            StreamError::SerializationError => to_owned_string("Failed to serialize message"),
            StreamError::DeserializationError => to_owned_string("Failed to deserialize message"),
            StreamError::SendError => to_owned_string("Send error"),
            StreamError::ReceiveError => to_owned_string("Receive error"),
            StreamError::TransportClosed => to_owned_string("Transport closed"),
            StreamError::Backpressure => to_owned_string("Backpressure applied"),
            StreamError::InvalidFormat => to_owned_string("Invalid message format"),
        }
    }
}

} // verus!
