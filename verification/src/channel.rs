//! Scenario B: the N-producer / single-consumer bounded channel pipeline.
//!
//! The model captures the channel as the consumer observes it: a FIFO queue
//! bounded by its capacity, a count of live sender handles, and a flag for
//! the receiver. `try_send` refusing with `Full` is the moment a real sender
//! suspends for backpressure; `recv` answering `Pending` is the moment the
//! consumer suspends. The ghost `sent` and `received` logs exist only for
//! specification: they drive the exactly-once and per-producer-FIFO laws.

use vstd::prelude::*;
use vstd::seq_lib::group_seq_properties;

verus! {

/// One message in flight: an owned payload stamped with its producer.
#[derive(Debug, PartialEq, Eq)]
pub struct Envelope {
    pub producer: u64,
    pub payload: String,
}

/// What a `try_send` step did.
#[derive(Clone, Copy, Debug, PartialEq, Eq)]
pub enum SendOutcome {
    /// The message was enqueued.
    Sent,
    /// The queue is at capacity; a real sender suspends and retries.
    Full,
    /// The receiver is gone; the producer logs and exits.
    Disconnected,
}

/// What a `recv` step did.
#[derive(Debug, PartialEq, Eq)]
pub enum RecvOutcome {
    /// The next message, in arrival order.
    Received(Envelope),
    /// Queue empty but senders remain; a real consumer suspends.
    Pending,
    /// Queue empty and every sender handle has been dropped: end of stream.
    Closed,
}

/// The messages of producer `p`, in order, within a log.
pub open spec fn sent_by(log: Seq<Envelope>, p: u64) -> Seq<Envelope> {
    log.filter(|e: Envelope| e.producer == p)
}

/// A bounded multi-producer single-consumer channel, observed as one state.
pub struct ChannelModel {
    queue: Vec<Envelope>,
    capacity: usize,
    senders: usize,
    receiver_live: bool,
    sent: Ghost<Seq<Envelope>>,
    received: Ghost<Seq<Envelope>>,
}

impl ChannelModel {
    /// Messages enqueued but not yet received, oldest first.
    pub closed spec fn queue(self) -> Seq<Envelope> {
        self.queue@
    }

    /// The buffer bound the channel was created with.
    pub closed spec fn capacity(self) -> usize {
        self.capacity
    }

    /// The number of live sender handles.
    pub closed spec fn senders(self) -> usize {
        self.senders
    }

    /// Whether the unique receiver handle still exists.
    pub closed spec fn receiver_live(self) -> bool {
        self.receiver_live
    }

    /// Every message whose send completed, in completion order.
    pub closed spec fn sent(self) -> Seq<Envelope> {
        self.sent@
    }

    /// Every message the consumer has received, in arrival order.
    pub closed spec fn received(self) -> Seq<Envelope> {
        self.received@
    }

    /// The channel invariant: the queue respects the capacity, and what was
    /// sent is exactly what was received followed by what is still queued.
    pub open spec fn wf(self) -> bool {
        &&& self.capacity() >= 1
        &&& self.queue().len() <= self.capacity()
        &&& self.received() + self.queue() == self.sent()
    }

    /// All observable state except the ghost logs and the queue.
    pub open spec fn same_handles(a: ChannelModel, b: ChannelModel) -> bool {
        &&& a.capacity() == b.capacity()
        &&& a.senders() == b.senders()
        &&& a.receiver_live() == b.receiver_live()
    }

    /// Nothing moved: queue and logs are unchanged as well.
    pub open spec fn same_state(a: ChannelModel, b: ChannelModel) -> bool {
        &&& Self::same_handles(a, b)
        &&& a.queue() == b.queue()
        &&& a.sent() == b.sent()
        &&& a.received() == b.received()
    }

    /// A fresh channel with one sender handle (the entry point's original)
    /// and the unique receiver.
    pub fn new(capacity: usize) -> (c: ChannelModel)
        requires
            capacity >= 1,
        ensures
            c.wf(),
            c.capacity() == capacity,
            c.senders() == 1,
            c.receiver_live(),
            c.queue() == Seq::<Envelope>::empty(),
            c.sent() == Seq::<Envelope>::empty(),
            c.received() == Seq::<Envelope>::empty(),
    {
        ChannelModel {
            queue: Vec::new(),
            capacity,
            senders: 1,
            receiver_live: true,
            sent: Ghost(Seq::empty()),
            received: Ghost(Seq::empty()),
        }
    }

    /// A producer clones a sender handle.
    pub fn clone_sender(&mut self)
        requires
            old(self).senders() < usize::MAX,
        ensures
            final(self).senders() == old(self).senders() + 1,
            final(self).capacity() == old(self).capacity(),
            final(self).receiver_live() == old(self).receiver_live(),
            final(self).queue() == old(self).queue(),
            final(self).sent() == old(self).sent(),
            final(self).received() == old(self).received(),
            old(self).wf() ==> final(self).wf(),
    {
        self.senders = self.senders + 1;
    }

    /// A sender handle is dropped. When the last one goes and the queue is
    /// empty, the consumer will see end of stream.
    pub fn drop_sender(&mut self)
        requires
            old(self).senders() >= 1,
        ensures
            final(self).senders() == old(self).senders() - 1,
            final(self).capacity() == old(self).capacity(),
            final(self).receiver_live() == old(self).receiver_live(),
            final(self).queue() == old(self).queue(),
            final(self).sent() == old(self).sent(),
            final(self).received() == old(self).received(),
            old(self).wf() ==> final(self).wf(),
    {
        self.senders = self.senders - 1;
    }

    /// The receiver handle is dropped; later sends fail.
    pub fn drop_receiver(&mut self)
        ensures
            !final(self).receiver_live(),
            final(self).capacity() == old(self).capacity(),
            final(self).senders() == old(self).senders(),
            final(self).queue() == old(self).queue(),
            final(self).sent() == old(self).sent(),
            final(self).received() == old(self).received(),
            old(self).wf() ==> final(self).wf(),
    {
        self.receiver_live = false;
    }

    /// One attempt by a producer to complete a send. `Full` is the point
    /// where a real sender suspends (backpressure); the send has then *not*
    /// completed and the message is not in the `sent` log.
    pub fn try_send(&mut self, e: Envelope) -> (r: SendOutcome)
        requires
            old(self).wf(),
            old(self).senders() >= 1,
        ensures
            final(self).wf(),
            Self::same_handles(*old(self), *final(self)),
            r is Disconnected <==> !old(self).receiver_live(),
            r is Full <==> old(self).receiver_live() && old(self).queue().len()
                == old(self).capacity(),
            r is Sent <==> old(self).receiver_live() && old(self).queue().len()
                < old(self).capacity(),
            r is Sent ==> {
                &&& final(self).queue() == old(self).queue().push(e)
                &&& final(self).sent() == old(self).sent().push(e)
                &&& final(self).received() == old(self).received()
            },
            !(r is Sent) ==> Self::same_state(*old(self), *final(self)),
    {
        if !self.receiver_live {
            SendOutcome::Disconnected
        } else if self.queue.len() == self.capacity {
            SendOutcome::Full
        } else {
            proof {
                self.sent@ = self.sent@.push(e);
            }
            self.queue.push(e);
            proof {
                assert(self.received@ + self.queue@ =~= self.sent@);
            }
            SendOutcome::Sent
        }
    }

    /// One attempt by the consumer to pull a message. The channel reports
    /// end of stream (`Closed`) exactly when the queue is empty and every
    /// sender handle has been dropped — the termination law of the loop.
    pub fn recv(&mut self) -> (r: RecvOutcome)
        requires
            old(self).wf(),
        ensures
            final(self).wf(),
            Self::same_handles(*old(self), *final(self)),
            r is Closed <==> old(self).queue().len() == 0 && old(self).senders() == 0,
            r is Pending <==> old(self).queue().len() == 0 && old(self).senders() > 0,
            old(self).queue().len() > 0 ==> r == RecvOutcome::Received(
                old(self).queue()[0],
            ),
            old(self).queue().len() > 0 ==> {
                &&& final(self).queue() == old(self).queue().drop_first()
                &&& final(self).received() == old(self).received().push(
                    old(self).queue()[0],
                )
                &&& final(self).sent() == old(self).sent()
            },
            old(self).queue().len() == 0 ==> Self::same_state(*old(self), *final(self)),
    {
        if self.queue.len() == 0 {
            if self.senders == 0 {
                RecvOutcome::Closed
            } else {
                RecvOutcome::Pending
            }
        } else {
            let e = self.queue.remove(0);
            proof {
                self.received@ = self.received@.push(e);
                assert(self.queue@ =~= old(self).queue().drop_first());
                assert(self.received@ + self.queue@ =~= self.sent@);
            }
            RecvOutcome::Received(e)
        }
    }
}

/// Law: the consumer receives sends in completion order — what has been
/// received is always a prefix of what was sent.
pub proof fn lemma_received_prefix_of_sent(c: ChannelModel)
    requires
        c.wf(),
    ensures
        c.received() == c.sent().take(c.received().len() as int),
{
    assert(c.received() =~= (c.received() + c.queue()).take(c.received().len() as int));
}

/// Law: once the queue has drained, the multiset of messages received is
/// exactly the multiset of messages successfully sent — every completed
/// send is delivered exactly once.
pub proof fn lemma_delivered_exactly_once(c: ChannelModel)
    requires
        c.wf(),
        c.queue().len() == 0,
    ensures
        c.received().to_multiset() == c.sent().to_multiset(),
{
    assert(c.received() =~= c.sent());
}

/// Law: per-producer FIFO. At every state, the messages of one producer
/// arrive at the consumer in exactly the order that producer sent them.
pub proof fn lemma_fifo_per_producer(c: ChannelModel, p: u64)
    requires
        c.wf(),
    ensures
        sent_by(c.sent(), p) == sent_by(c.received(), p) + sent_by(c.queue(), p),
        sent_by(c.received(), p) == sent_by(c.sent(), p).take(
            sent_by(c.received(), p).len() as int,
        ),
{
    broadcast use group_seq_properties;

    Seq::filter_distributes_over_add(c.received(), c.queue(), |e: Envelope| e.producer == p);
    assert(c.received() + c.queue() == c.sent());
    assert(sent_by(c.sent(), p) =~= sent_by(c.received(), p) + sent_by(c.queue(), p));
    assert(sent_by(c.received(), p) =~= (sent_by(c.received(), p) + sent_by(c.queue(), p)).take(
        sent_by(c.received(), p).len() as int,
    ));
}

/// The payload a producer task stamps and sends: `센서 {i}의 측정값: {v}`
/// with `v == 10 * i`.
pub open spec fn spec_sensor_message(i: nat) -> Seq<char> {
    "센서 "@ + crate::counter::spec_decimal(i) + "의 측정값: "@
        + crate::counter::spec_decimal(10 * i)
}

/// Format the payload of producer `i`.
pub fn sensor_message(i: u64) -> (r: String)
    requires
        i <= u64::MAX / 10,
    ensures
        r@ == spec_sensor_message(i as nat),
{
    let mut s = String::from_str("센서 ");
    s.append(crate::counter::u64_to_decimal(i).as_str());
    s.append("의 측정값: ");
    s.append(crate::counter::u64_to_decimal(10 * i).as_str());
    s
}

/// The line a thread-pool producer sends: `생산자 {i}가 보낸 메시지 {j}`.
pub open spec fn spec_worker_message(i: nat, j: nat) -> Seq<char> {
    "생산자 "@ + crate::counter::spec_decimal(i) + "가 보낸 메시지 "@
        + crate::counter::spec_decimal(j)
}

/// Format the `j`-th message of thread-pool producer `i`.
pub fn worker_message(i: u64, j: u64) -> (r: String)
    ensures
        r@ == spec_worker_message(i as nat, j as nat),
{
    let mut s = String::from_str("생산자 ");
    s.append(crate::counter::u64_to_decimal(i).as_str());
    s.append("가 보낸 메시지 ");
    s.append(crate::counter::u64_to_decimal(j).as_str());
    s
}

} // verus!
