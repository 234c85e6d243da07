//! Streaming of proof steps, graphics frames and progress: the message data,
//! the stream errors and the back-pressure bookkeeping of a publisher.

use vstd::prelude::*;
use crate::text::{prefixed, to_owned_string};

verus! {

/// Kinds of proof steps.
#[derive(Debug, Clone, Copy, PartialEq, Eq, Structural)]
pub enum StepType {
    Axiom,
    Definition,
    Lemma,
    Theorem,
    Proof,
    Corollary,
    Computation,
    Verification,
}

/// Status of a running proof.
#[derive(Debug, Clone, Copy, PartialEq, Eq, Structural)]
pub enum ProgressStatus {
    Pending,
    Running,
    Completed,
    Failed,
    Cancelled,
}

/// Control messages for stream management.
#[derive(Debug, Clone, Copy, PartialEq, Eq, Structural)]
pub enum ControlMessage {
    Start,
    Stop,
    Pause,
    Resume,
    Flush,
    SetBackpressure(u32),
}

/// Back-pressure configuration of a stream.
#[derive(Debug, Clone, Copy, PartialEq, Eq, Structural)]
pub struct BackpressureConfig {
    /// Maximum messages in flight.
    pub max_pending: usize,
    /// Flow control window size.
    pub window_size: usize,
    /// Timeout for waiting on back-pressure, in milliseconds.
    pub timeout_ms: u64,
}

impl Default for BackpressureConfig {
    /// 1000 messages in flight, a window of 100 and a 5 s timeout.
    fn default() -> (r: Self)
        ensures
            r == (BackpressureConfig { max_pending: 1000, window_size: 100, timeout_ms: 5000 }),
    {
        BackpressureConfig { max_pending: 1000, window_size: 100, timeout_ms: 5000 }
    }
}

/// Back-pressure state, as plain values.
pub struct BackpressureView {
    pub config: BackpressureConfig,
    pub pending_count: usize,
    pub window_counter: usize,
    pub paused: bool,
}

/// Back-pressure state: how many messages are in flight, how often the window
/// was consulted, and whether the stream is paused.
#[derive(Debug)]
pub struct BackpressureState {
    config: BackpressureConfig,
    pending_count: usize,
    window_counter: usize,
    paused: bool,
}

impl View for BackpressureState {
    type V = BackpressureView;

    closed spec fn view(&self) -> BackpressureView {
        BackpressureView {
            config: self.config,
            pending_count: self.pending_count,
            window_counter: self.window_counter,
            paused: self.paused,
        }
    }
}

/// Whether a message may be sent: the stream runs and fewer than
/// `max_pending` messages are in flight.
pub open spec fn may_send(s: BackpressureView) -> bool {
    !s.paused && s.pending_count < s.config.max_pending
}

impl BackpressureState {
    /// A running stream with nothing in flight.
    pub fn new(config: BackpressureConfig) -> (r: Self)
        ensures
            r@ == (BackpressureView { config, pending_count: 0, window_counter: 0, paused: false }),
    {
        BackpressureState { config, pending_count: 0, window_counter: 0, paused: false }
    }

    /// Whether a message may be sent now.
    pub fn try_acquire(&self) -> (r: bool)
        ensures
            r == may_send(self@),
    {
        !self.paused && self.pending_count < self.config.max_pending
    }

    /// Asks for permission to send; a refusal advances the window counter
    /// (wrapping) before the state is consulted again. The window size must
    /// not be zero when the first check refuses: the counter is taken modulo it.
    pub fn acquire(&mut self) -> (r: bool)
        requires
            may_send(old(self)@) || old(self)@.config.window_size > 0,
        ensures
            r == may_send(old(self)@),
            final(self)@ == (BackpressureView {
                window_counter: if may_send(old(self)@) {
                    old(self)@.window_counter
                } else {
                    old(self)@.window_counter.wrapping_add(1)
                },
                ..old(self)@
            }),
    {
        if self.try_acquire() {
            return true;
        }
        let window = self.window_counter;
        self.window_counter = self.window_counter.wrapping_add(1);
        let _at_window_start = window % self.config.window_size == 0;
        self.try_acquire()
    }

    /// Releases a message slot (the count wraps below zero, as an atomic
    /// subtraction does).
    pub fn release(&mut self)
        ensures
            final(self)@ == (BackpressureView { pending_count: old(self)@.pending_count.wrapping_sub(1), ..old(self)@ }),
    {
        self.pending_count = self.pending_count.wrapping_sub(1);
    }

    /// Marks one more message as in flight (wrapping).
    pub fn mark_pending(&mut self)
        ensures
            final(self)@ == (BackpressureView { pending_count: old(self)@.pending_count.wrapping_add(1), ..old(self)@ }),
    {
        self.pending_count = self.pending_count.wrapping_add(1);
    }

    /// Pauses the stream.
    pub fn pause(&mut self)
        ensures
            final(self)@ == (BackpressureView { paused: true, ..old(self)@ }),
    {
        self.paused = true;
    }

    /// Resumes the stream.
    pub fn resume(&mut self)
        ensures
            final(self)@ == (BackpressureView { paused: false, ..old(self)@ }),
    {
        self.paused = false;
    }

    /// Whether the stream is paused.
    pub fn is_paused(&self) -> (r: bool)
        ensures
            r == self@.paused,
    {
        self.paused
    }

    /// The number of messages in flight.
    pub fn pending(&self) -> (r: usize)
        ensures
            r == self@.pending_count,
    {
        self.pending_count
    }
}

/// Errors of a stream, as plain values.
pub enum StreamErrorView {
    Backpressure,
    Closed,
    Timeout,
    Serialization(Seq<char>),
}

/// Errors that can occur in streaming.
#[derive(Debug)]
pub enum StreamError {
    Backpressure,
    Closed,
    Timeout,
    Serialization(String),
}

impl View for StreamError {
    type V = StreamErrorView;

    open spec fn view(&self) -> StreamErrorView {
        match self {
            StreamError::Backpressure => StreamErrorView::Backpressure,
            StreamError::Closed => StreamErrorView::Closed,
            StreamError::Timeout => StreamErrorView::Timeout,
            StreamError::Serialization(m) => StreamErrorView::Serialization(m@),
        }
    }
}

/// The displayed message of a stream error.
pub open spec fn stream_error_message(e: StreamErrorView) -> Seq<char> {
    match e {
        StreamErrorView::Backpressure => "Backpressure: stream is full"@,
        StreamErrorView::Closed => "Stream closed"@,
        StreamErrorView::Timeout => "Timeout waiting for backpressure"@,
        StreamErrorView::Serialization(m) => "Serialization error: "@ + m,
    }
}

impl StreamError {
    /// The displayed message, such as `Serialization error: Invalid magic`.
    pub fn to_string(&self) -> (r: String)
        ensures
            r@ == stream_error_message(self@),
    {
        match self {
            StreamError::Backpressure => to_owned_string("Backpressure: stream is full"),
            StreamError::Closed => to_owned_string("Stream closed"),
            StreamError::Timeout => to_owned_string("Timeout waiting for backpressure"),
            StreamError::Serialization(m) => prefixed("Serialization error: ", m),
        }
    }
}

/// A graphics frame, as plain values.
pub struct GraphicsFrameView {
    pub frame_id: u64,
    pub timestamp: i64,
    pub width: u16,
    pub height: u16,
    pub pixels: Seq<u8>,
    pub shm_id: Seq<char>,
}

/// A rendered frame: its pixels travel inline, or in the named shared memory.
#[derive(Debug, Clone)]
pub struct GraphicsFrameData {
    pub frame_id: u64,
    pub timestamp: i64,
    pub width: u16,
    pub height: u16,
    pub pixels: Vec<u8>,
    pub shm_id: String,
}

impl View for GraphicsFrameData {
    type V = GraphicsFrameView;

    open spec fn view(&self) -> GraphicsFrameView {
        GraphicsFrameView {
            frame_id: self.frame_id,
            timestamp: self.timestamp,
            width: self.width,
            height: self.height,
            pixels: self.pixels@,
            shm_id: self.shm_id@,
        }
    }
}

/// A proof step, as plain values.
pub struct ProofStepView {
    pub step_id: u64,
    pub proof_id: u64,
    pub content: Seq<char>,
    pub step_type: StepType,
    pub dependencies: Seq<u64>,
    pub timestamp: i64,
    pub confidence_bits: u32,
}

/// One step of a proof, with the steps it depends on.
#[derive(Debug, Clone)]
pub struct ProofStepData {
    pub step_id: u64,
    pub proof_id: u64,
    pub content: String,
    pub step_type: StepType,
    pub dependencies: Vec<u64>,
    pub timestamp: i64,
    /// The bit pattern of the step's confidence, an `f32` (as `f32::to_bits`
    /// gives it).
    pub confidence_bits: u32,
}

impl View for ProofStepData {
    type V = ProofStepView;

    open spec fn view(&self) -> ProofStepView {
        ProofStepView {
            step_id: self.step_id,
            proof_id: self.proof_id,
            content: self.content@,
            step_type: self.step_type,
            dependencies: self.dependencies@,
            timestamp: self.timestamp,
            confidence_bits: self.confidence_bits,
        }
    }
}

/// A progress report, as plain values.
pub struct ProgressView {
    pub proof_id: u64,
    pub current_step: u64,
    pub total_steps: u64,
    pub percentage_bits: u32,
    pub status: ProgressStatus,
    pub message: Seq<char>,
    pub timestamp: i64,
}

/// The progress of a running proof.
#[derive(Debug, Clone)]
pub struct ProgressData {
    pub proof_id: u64,
    pub current_step: u64,
    pub total_steps: u64,
    /// The bit pattern of the completed percentage, an `f32` (as
    /// `f32::to_bits` gives it).
    pub percentage_bits: u32,
    pub status: ProgressStatus,
    pub message: String,
    pub timestamp: i64,
}

impl View for ProgressData {
    type V = ProgressView;

    open spec fn view(&self) -> ProgressView {
        ProgressView {
            proof_id: self.proof_id,
            current_step: self.current_step,
            total_steps: self.total_steps,
            percentage_bits: self.percentage_bits,
            status: self.status,
            message: self.message@,
            timestamp: self.timestamp,
        }
    }
}

/// A stream message, as plain values.
pub enum StreamMessageView {
    ProofStep(ProofStepView),
    GraphicsFrame(GraphicsFrameView),
    Progress(ProgressView),
    Heartbeat,
    Control(ControlMessage),
}

/// The messages a stream carries.
#[derive(Debug, Clone)]
pub enum StreamMessage {
    ProofStep(ProofStepData),
    GraphicsFrame(GraphicsFrameData),
    Progress(ProgressData),
    Heartbeat,
    Control(ControlMessage),
}

impl View for StreamMessage {
    type V = StreamMessageView;

    open spec fn view(&self) -> StreamMessageView {
        match self {
            StreamMessage::ProofStep(p) => StreamMessageView::ProofStep(p@),
            StreamMessage::GraphicsFrame(f) => StreamMessageView::GraphicsFrame(f@),
            StreamMessage::Progress(p) => StreamMessageView::Progress(p@),
            StreamMessage::Heartbeat => StreamMessageView::Heartbeat,
            StreamMessage::Control(c) => StreamMessageView::Control(*c),
        }
    }
}

/// A bounded queue of stream messages: when it is full, pushing drops the
/// oldest message first.
#[derive(Debug)]
pub struct StreamBuffer {
    buffer: std::collections::VecDeque<StreamMessage>,
    capacity: usize,
}

impl StreamBuffer {
    /// The queued messages, oldest first.
    pub closed spec fn queued(&self) -> Seq<StreamMessage> {
        self.buffer@
    }

    pub closed spec fn spec_capacity(&self) -> usize {
        self.capacity
    }

    /// The most messages the buffer holds: its capacity, but at least one.
    pub open spec fn bound(&self) -> int {
        if self.spec_capacity() > 0 {
            self.spec_capacity() as int
        } else {
            1
        }
    }

    /// An empty buffer of the given capacity.
    pub fn new(capacity: usize) -> (r: Self)
        ensures
            r.queued().len() == 0,
            r.spec_capacity() == capacity,
    {
        StreamBuffer { buffer: std::collections::VecDeque::new(), capacity }
    }

    /// Appends a message, first dropping the oldest one when the buffer is
    /// full; it always reports success.
    pub fn push(&mut self, msg: StreamMessage) -> (r: bool)
        ensures
            r,
            final(self).spec_capacity() == old(self).spec_capacity(),
            old(self).queued().len() <= old(self).bound() ==> final(self).queued().len() <= old(self).bound(),
            final(self).queued() == if old(self).queued().len() >= old(self).spec_capacity()
                && old(self).queued().len() > 0 {
                old(self).queued().drop_first().push(msg)
            } else {
                old(self).queued().push(msg)
            },
    {
        if self.buffer.len() >= self.capacity {
            let _ = self.buffer.pop_front();
        }
        self.buffer.push_back(msg);
        true
    }

    /// Takes the oldest message, if any.
    pub fn pop(&mut self) -> (r: Option<StreamMessage>)
        ensures
            final(self).spec_capacity() == old(self).spec_capacity(),
            old(self).queued().len() == 0 ==> r is None && final(self).queued() == old(self).queued(),
            old(self).queued().len() > 0 ==> r == Some(old(self).queued()[0]) && final(self).queued()
                == old(self).queued().drop_first(),
    {
        self.buffer.pop_front()
    }

    /// The number of queued messages.
    pub fn len(&self) -> (r: usize)
        ensures
            r == self.queued().len(),
    {
        self.buffer.len()
    }

    /// Whether nothing is queued.
    pub fn is_empty(&self) -> (r: bool)
        ensures
            r == (self.queued().len() == 0),
    {
        self.buffer.len() == 0
    }

    /// Drops every queued message.
    pub fn clear(&mut self)
        ensures
            final(self).queued().len() == 0,
            final(self).spec_capacity() == old(self).spec_capacity(),
    {
        self.buffer.clear();
    }
}

} // verus!
