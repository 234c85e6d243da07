//! The message bus: topics with subscribers, publication, statistics, and
//! the request/response pattern.

use vstd::prelude::*;
use crate::clock::{duration_from_secs, seconds};
use crate::kernel::handoff::{try_send, Handoff};
use crate::strmap::StrMap;
use crate::text::to_owned_string;

verus! {

#[verifier::external_type_specification]
#[verifier::external_body]
#[verifier::reject_recursive_types(T)]
pub struct ExSender<T>(tokio::sync::mpsc::Sender<T>);

#[verifier::external_type_specification]
#[verifier::external_body]
#[verifier::reject_recursive_types(T)]
pub struct ExReceiver<T>(tokio::sync::mpsc::Receiver<T>);

/// Calls `tokio::sync::mpsc::channel` for a bounded channel. It panics for a
/// capacity of zero or one above its semaphore's limit (`usize::MAX >> 3`),
/// which `requires` rules out.
#[verifier::external_body]
pub(crate) fn open_channel<T>(capacity: usize) -> (r: (tokio::sync::mpsc::Sender<T>, tokio::sync::mpsc::Receiver<T>))
    requires
        0 < capacity <= usize::MAX / 8,
{
    tokio::sync::mpsc::channel(capacity)
}

/// Calls `Sender::clone`: another sending end of the same channel.
#[verifier::external_body]
pub(crate) fn clone_sender<T>(sender: &tokio::sync::mpsc::Sender<T>) -> (r: tokio::sync::mpsc::Sender<T>) {
    sender.clone()
}

/// Message priority levels, lowest first.
#[derive(Debug, Clone, Copy, PartialEq, Eq, PartialOrd, Ord, Structural)]
pub enum MessagePriority {
    Low,
    Normal,
    High,
    Critical,
}

/// Where a message goes, how urgent it is, when it was made and who sent it.
#[derive(Debug)]
pub struct MessageMetadata {
    pub topic: String,
    pub priority: MessagePriority,
    pub timestamp: std::time::Instant,
    pub sender: String,
}

impl Clone for MessageMetadata {
    /// A copy with the same fields.
    fn clone(&self) -> (r: Self)
        ensures
            r.topic@ == self.topic@,
            r.priority == self.priority,
            r.timestamp == self.timestamp,
            r.sender@ == self.sender@,
    {
        MessageMetadata {
            topic: self.topic.clone(),
            priority: self.priority,
            timestamp: self.timestamp,
            sender: self.sender.clone(),
        }
    }
}

/// A message on the bus.
#[derive(Debug)]
pub struct Message {
    pub payload: Vec<u8>,
    pub metadata: MessageMetadata,
}

/// `b` is a copy of `a`: the same payload and metadata.
pub open spec fn copy_of(a: Message, b: Message) -> bool {
    &&& b.payload@ == a.payload@
    &&& b.metadata.topic@ == a.metadata.topic@
    &&& b.metadata.priority == a.metadata.priority
    &&& b.metadata.timestamp == a.metadata.timestamp
    &&& b.metadata.sender@ == a.metadata.sender@
}

impl Clone for Message {
    /// A copy with the same payload and metadata.
    fn clone(&self) -> (r: Self)
        ensures
            r.payload@ == self.payload@,
            r.metadata.topic@ == self.metadata.topic@,
            r.metadata.priority == self.metadata.priority,
            r.metadata.timestamp == self.metadata.timestamp,
            r.metadata.sender@ == self.metadata.sender@,
    {
        Message { payload: self.payload.clone(), metadata: self.metadata.clone() }
    }
}

/// A subscription to a topic: the receiving end of its channel.
#[derive(Debug)]
pub struct Subscription {
    pub topic: String,
    pub receiver: tokio::sync::mpsc::Receiver<Message>,
}

/// A subscriber and the topics it follows.
#[derive(Debug, Clone)]
pub struct Subscriber {
    pub id: String,
    pub subscriptions: Vec<String>,
}

/// Counters of a bus.
#[derive(Debug, Clone, Copy, PartialEq, Eq, Structural)]
pub struct BusStats {
    pub messages_sent: u64,
    pub messages_received: u64,
    pub subscriptions_count: usize,
}

impl Default for BusStats {
    /// All counters at zero.
    fn default() -> (r: Self)
        ensures
            r == (BusStats { messages_sent: 0, messages_received: 0, subscriptions_count: 0 }),
    {
        BusStats { messages_sent: 0, messages_received: 0, subscriptions_count: 0 }
    }
}

/// A reading of a bus's counters and topics.
#[derive(Debug, Clone)]
pub struct BusStatsSnapshot {
    pub messages_sent: u64,
    pub messages_received: u64,
    pub subscriptions_count: usize,
    pub topics: Vec<String>,
}

/// Configuration of a bus.
#[derive(Debug, Clone, Copy, PartialEq, Eq, Structural)]
pub struct BusConfig {
    pub max_queue_size: usize,
    pub default_priority: MessagePriority,
}

impl Default for BusConfig {
    /// Queues of 1000 messages at normal priority.
    fn default() -> (r: Self)
        ensures
            r == (BusConfig { max_queue_size: 1000, default_priority: MessagePriority::Normal }),
    {
        BusConfig { max_queue_size: 1000, default_priority: MessagePriority::Normal }
    }
}

/// A request to a topic, answered within a timeout.
#[derive(Debug)]
pub struct Request {
    pub topic: String,
    pub payload: Vec<u8>,
    pub timeout: std::time::Duration,
}

impl Clone for Request {
    /// A copy with the same topic, payload and timeout.
    fn clone(&self) -> (r: Self)
        ensures
            r.topic@ == self.topic@,
            r.payload@ == self.payload@,
            r.timeout == self.timeout,
    {
        Request { topic: self.topic.clone(), payload: self.payload.clone(), timeout: self.timeout }
    }
}

/// Builds a request: an empty payload and a 30 s timeout unless set.
pub struct RequestBuilder {
    topic: String,
    payload: Vec<u8>,
    timeout: std::time::Duration,
}

impl RequestBuilder {
    pub closed spec fn spec_topic(&self) -> Seq<char> {
        self.topic@
    }

    pub closed spec fn spec_payload(&self) -> Seq<u8> {
        self.payload@
    }

    pub closed spec fn spec_timeout(&self) -> std::time::Duration {
        self.timeout
    }

    /// A builder for a request to `topic`.
    pub fn new(topic: &str) -> (r: Self)
        ensures
            r.spec_topic() == topic@,
            r.spec_payload().len() == 0,
            r.spec_timeout() == seconds(30),
    {
        RequestBuilder { topic: to_owned_string(topic), payload: Vec::new(), timeout: duration_from_secs(30) }
    }

    /// Sets the payload.
    pub fn payload(self, payload: Vec<u8>) -> (r: Self)
        ensures
            r.spec_topic() == self.spec_topic(),
            r.spec_payload() == payload@,
            r.spec_timeout() == self.spec_timeout(),
    {
        RequestBuilder { payload, ..self }
    }

    /// Sets the timeout.
    pub fn timeout(self, timeout: std::time::Duration) -> (r: Self)
        ensures
            r.spec_topic() == self.spec_topic(),
            r.spec_payload() == self.spec_payload(),
            r.spec_timeout() == timeout,
    {
        RequestBuilder { timeout, ..self }
    }

    /// The request.
    pub fn build(self) -> (r: Request)
        ensures
            r.topic@ == self.spec_topic(),
            r.payload@ == self.spec_payload(),
            r.timeout == self.spec_timeout(),
    {
        Request { topic: self.topic, payload: self.payload, timeout: self.timeout }
    }
}

/// The answer to a request.
#[derive(Debug, Clone)]
pub struct Response {
    pub payload: Vec<u8>,
    pub success: bool,
    pub error: Option<String>,
}

/// A topic handle for publishing.
#[derive(Debug, Clone)]
pub struct Topic {
    pub name: String,
}

/// The message bus: for each topic, the channels of its subscribers. It
/// also keeps, as a record for proofs only, every message it has handed to a
/// channel, with that channel.
pub struct Bus {
    config: BusConfig,
    subscribers: StrMap<Vec<tokio::sync::mpsc::Sender<Message>>>,
    stats: BusStats,
    subscriptions: usize,
    handed: Ghost<Seq<(tokio::sync::mpsc::Sender<Message>, Message)>>,
    last_handoffs: Vec<Handoff>,
}

impl Bus {
    pub closed spec fn spec_config(&self) -> BusConfig {
        self.config
    }

    pub closed spec fn spec_stats(&self) -> BusStats {
        self.stats
    }

    /// How many subscriptions each topic has.
    pub closed spec fn subscriber_counts(&self) -> Map<Seq<char>, nat> {
        self.subscribers@.map_values(|v: Vec<tokio::sync::mpsc::Sender<Message>>| v@.len())
    }

    /// The sending ends of the channels subscribed to `topic`, in the order
    /// of subscription; none for a topic without subscribers.
    pub closed spec fn senders_of(&self, topic: Seq<char>) -> Seq<tokio::sync::mpsc::Sender<Message>> {
        if self.subscribers@.contains_key(topic) {
            self.subscribers@[topic]@
        } else {
            Seq::empty()
        }
    }

    /// Every message handed to a channel so far, with the channel, in order.
    pub closed spec fn handed_off(&self) -> Seq<(tokio::sync::mpsc::Sender<Message>, Message)> {
        self.handed@
    }

    /// The receipts of the offers that the last publication made, one per
    /// subscriber of its topic, in order.
    pub closed spec fn last_handoffs(&self) -> Seq<Handoff> {
        self.last_handoffs@
    }

    /// How many subscriptions were made in all.
    pub closed spec fn spec_subscriptions(&self) -> nat {
        self.subscriptions as nat
    }

    pub closed spec fn wf(&self) -> bool {
        self.subscribers.wf()
    }

    /// A bus without topics.
    pub fn new(config: BusConfig) -> (r: Self)
        ensures
            r.wf(),
            r.spec_config() == config,
            r.subscriber_counts() == Map::<Seq<char>, nat>::empty(),
            r.spec_subscriptions() == 0,
            r.spec_stats() == (BusStats { messages_sent: 0, messages_received: 0, subscriptions_count: 0 }),
            forall|t: Seq<char>| #[trigger] r.senders_of(t).len() == 0,
            r.handed_off().len() == 0,
            r.last_handoffs().len() == 0,
    {
        let r = Bus {
            config,
            subscribers: StrMap::new(),
            stats: BusStats::default(),
            subscriptions: 0,
            handed: Ghost(Seq::empty()),
            last_handoffs: Vec::new(),
        };
        assert(r.subscriber_counts() =~= Map::<Seq<char>, nat>::empty());
        r
    }

    /// Subscribes to `topic`: a channel of the configured capacity is opened
    /// and its sending end joins the topic.
    pub fn subscribe(&mut self, topic: &str) -> (r: Subscription)
        requires
            old(self).wf(),
            0 < old(self).spec_config().max_queue_size <= usize::MAX / 8,
            old(self).spec_subscriptions() < usize::MAX,
        ensures
            final(self).wf(),
            r.topic@ == topic@,
            final(self).subscriber_counts() == old(self).subscriber_counts().insert(
                topic@,
                if old(self).subscriber_counts().contains_key(topic@) {
                    old(self).subscriber_counts()[topic@] + 1
                } else {
                    1
                },
            ),
            final(self).spec_subscriptions() == old(self).spec_subscriptions() + 1,
            final(self).spec_config() == old(self).spec_config(),
            final(self).spec_stats() == old(self).spec_stats(),
            final(self).senders_of(topic@).len() == old(self).senders_of(topic@).len() + 1,
            final(self).senders_of(topic@).drop_last() == old(self).senders_of(topic@),
            forall|t: Seq<char>| t != topic@ ==> #[trigger] final(self).senders_of(t) == old(self).senders_of(t),
            final(self).handed_off() == old(self).handed_off(),
            final(self).last_handoffs() == old(self).last_handoffs(),
    {
        let (tx, rx) = open_channel(self.config.max_queue_size);
        let ghost before = self.subscribers@;
        let mut senders = match self.subscribers.remove(topic) {
            Some(v) => v,
            None => Vec::new(),
        };
        let ghost old_len = senders@.len();
        senders.push(tx);
        self.subscribers.insert(to_owned_string(topic), senders);
        self.subscriptions = self.subscriptions + 1;
        proof {
            assert(self.subscriber_counts() =~= old(self).subscriber_counts().insert(
                topic@,
                if old(self).subscriber_counts().contains_key(topic@) {
                    old(self).subscriber_counts()[topic@] + 1
                } else {
                    1
                },
            ));
        }
        Subscription { topic: to_owned_string(topic), receiver: rx }
    }

    /// Offers a copy of the message to every subscriber of `topic`, in the
    /// order of subscription (`try_send`: a full or closed channel drops its
    /// copy); when the topic has subscribers, the sent-messages counter
    /// advances by one.
    pub fn publish(&mut self, topic: &str, message: Message)
        requires
            old(self).wf(),
            old(self).subscriber_counts().contains_key(topic@) ==> old(self).spec_stats().messages_sent < u64::MAX,
        ensures
            final(self).wf(),
            final(self).subscriber_counts() == old(self).subscriber_counts(),
            forall|t: Seq<char>| #[trigger] final(self).senders_of(t) == old(self).senders_of(t),
            final(self).spec_subscriptions() == old(self).spec_subscriptions(),
            final(self).spec_config() == old(self).spec_config(),
            final(self).spec_stats() == (BusStats {
                messages_sent: if old(self).subscriber_counts().contains_key(topic@) {
                    (old(self).spec_stats().messages_sent + 1) as u64
                } else {
                    old(self).spec_stats().messages_sent
                },
                ..old(self).spec_stats()
            }),
            ({
                let before = old(self).handed_off();
                let senders = old(self).senders_of(topic@);
                &&& final(self).handed_off().len() == before.len() + senders.len()
                &&& final(self).handed_off().subrange(0, before.len() as int) == before
                &&& forall|i: int|
                    0 <= i < senders.len() ==> {
                        let h = #[trigger] final(self).handed_off()[before.len() + i];
                        &&& h.0 == senders[i]
                        &&& copy_of(message, h.1)
                    }
            }),
            final(self).last_handoffs().len() == old(self).senders_of(topic@).len(),
            forall|i: int|
                0 <= i < final(self).last_handoffs().len() ==> {
                    let h = #[trigger] final(self).last_handoffs()[i];
                    &&& h.sender() == old(self).senders_of(topic@)[i]
                    &&& copy_of(message, h.message())
                },
    {
        let ghost before = self.handed@;
        let ghost mut log = self.handed@;
        let mut receipts: Vec<Handoff> = Vec::new();
        match self.subscribers.get(topic) {
            Some(senders) => {
                let n = senders.len();
                for i in 0..n
                    invariant
                        n == senders@.len(),
                        receipts@.len() == i,
                        forall|k: int|
                            0 <= k < i ==> {
                                let h = #[trigger] receipts@[k];
                                &&& h.sender() == senders@[k]
                                &&& copy_of(message, h.message())
                            },
                        log.len() == before.len() + i,
                        log.subrange(0, before.len() as int) == before,
                        forall|k: int|
                            0 <= k < i ==> #[trigger] log[before.len() + k] == (
                                receipts@[k].sender(),
                                receipts@[k].message(),
                            ),
                {
                    let copy = message.clone();
                    let receipt = try_send(&senders[i], copy);
                    proof {
                        let ghost old_log = log;
                        log = log.push((receipt.sender(), receipt.message()));
                        assert(log.subrange(0, before.len() as int) =~= old_log.subrange(0, before.len() as int));
                        assert forall|k: int| 0 <= k < i implies #[trigger] log[before.len() + k] == (
                            receipts@[k].sender(),
                            receipts@[k].message(),
                        ) by {
                            assert(log[before.len() + k] == old_log[before.len() + k]);
                        }
                    }
                    let ghost old_receipts = receipts@;
                    receipts.push(receipt);
                    proof {
                        assert forall|k: int| 0 <= k < i + 1 implies #[trigger] log[before.len() + k] == (
                            receipts@[k].sender(),
                            receipts@[k].message(),
                        ) by {
                            if k < i {
                                assert(receipts@[k] == old_receipts[k]);
                            }
                        }
                    }
                }
                self.stats.messages_sent = self.stats.messages_sent + 1;
            },
            None => {},
        }
        self.last_handoffs = receipts;
        self.handed = Ghost(log);
    }

    /// The counters, the number of subscriptions made and the topics, one
    /// entry per topic.
    pub fn get_stats(&self) -> (r: BusStatsSnapshot)
        requires
            self.wf(),
        ensures
            r.messages_sent == self.spec_stats().messages_sent,
            r.messages_received == self.spec_stats().messages_received,
            r.subscriptions_count == self.spec_subscriptions(),
            r.topics@.len() == self.subscriber_counts().dom().len(),
            forall|i: int| 0 <= i < r.topics@.len() ==> self.subscriber_counts().contains_key(#[trigger] r.topics@[i]@),
            forall|i: int, j: int|
                0 <= i < r.topics@.len() && 0 <= j < r.topics@.len() && i != j ==> #[trigger] r.topics@[i]@
                    != #[trigger] r.topics@[j]@,
    {
        proof {
            self.subscribers.lemma_entries();
        }
        let n = self.subscribers.len();
        let mut topics: Vec<String> = Vec::new();
        let mut i: usize = 0;
        while i < n
            invariant
                i <= n,
                n == self.subscribers.entry_seq().len(),
                self.wf(),
                topics@.len() == i,
                forall|k: int| 0 <= k < i ==> #[trigger] topics@[k]@ == self.subscribers.entry_seq()[k].0@,
            decreases n - i,
        {
            let ghost before = topics@;
            topics.push(self.subscribers.key_at(i).clone());
            assert forall|k: int| 0 <= k < i + 1 implies #[trigger] topics@[k]@ == self.subscribers.entry_seq()[k].0@ by {
                if k < i {
                    assert(topics@[k] == before[k]);
                    assert(before[k]@ == self.subscribers.entry_seq()[k].0@);
                }
            }
            i = i + 1;
        }
        proof {
            self.subscribers.lemma_entries();
            assert(self.subscriber_counts().dom() =~= self.subscribers@.dom());
            assert forall|i: int| 0 <= i < topics@.len() implies self.subscriber_counts().contains_key(#[trigger] topics@[i]@) by {
                assert(topics@[i]@ == self.subscribers.entry_seq()[i].0@);
            }
            assert forall|i: int, j: int| 0 <= i < topics@.len() && 0 <= j < topics@.len() && i != j implies #[trigger] topics@[i]@
                != #[trigger] topics@[j]@ by {
                assert(topics@[i]@ == self.subscribers.entry_seq()[i].0@);
                assert(topics@[j]@ == self.subscribers.entry_seq()[j].0@);
            }
        }
        BusStatsSnapshot {
            messages_sent: self.stats.messages_sent,
            messages_received: self.stats.messages_received,
            subscriptions_count: self.subscriptions,
            topics,
        }
    }
}

impl Default for Bus {
    /// A bus with the default configuration.
    fn default() -> (r: Self)
        ensures
            r.wf(),
            r.spec_config() == (BusConfig { max_queue_size: 1000, default_priority: MessagePriority::Normal }),
            r.subscriber_counts() == Map::<Seq<char>, nat>::empty(),
            r.spec_subscriptions() == 0,
            r.spec_stats() == (BusStats { messages_sent: 0, messages_received: 0, subscriptions_count: 0 }),
    {
        Bus::new(BusConfig::default())
    }
}

} // verus!
