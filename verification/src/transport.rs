//! The decision core of the network transport.
//!
//! The running system has two worker threads — a reader and a writer — each
//! owning one UDP socket, bridged to the application by two unidirectional
//! FIFO queues and a shared shutdown flag. Everything either loop decides is
//! here as a verified function of its state and the event it saw; the thread
//! and socket plumbing around these decisions performs the returned action
//! and hands back the next event.

use vstd::prelude::*;

use crate::message::Message;
use crate::message::spec_padded;
use crate::message::spec_parse_frame;
use crate::message::spec_stamp;
use crate::message::spec_wire;
use crate::net_address::IpAddress;

verus! {

/// Why a send was refused: the outbound path is no longer available because
/// shutdown has begun.
#[derive(Clone, Copy, PartialEq, Eq, Structural, Debug)]
pub enum SendError {
    TransportClosed,
}

/// A first-in first-out queue of messages: the model of one of the two
/// single-producer single-consumer bridges between a worker loop and the
/// application.
pub struct MessageQueue {
    pub items: Vec<Message>,
}

impl View for MessageQueue {
    type V = Seq<Message>;

    open spec fn view(&self) -> Seq<Message> {
        self.items@
    }
}

impl MessageQueue {
    /// An empty queue.
    pub fn new() -> (r: Self)
        ensures
            r@ == Seq::<Message>::empty(),
    {
        Self { items: Vec::new() }
    }

    /// Appends a message at the back.
    pub fn push_back(&mut self, m: Message)
        ensures
            final(self)@ == old(self)@.push(m),
    {
        self.items.push(m);
    }

    /// Takes the oldest message, if one is queued.
    pub fn pop_front(&mut self) -> (r: Option<Message>)
        ensures
            match r {
                Some(m) => old(self)@.len() > 0 && m == old(self)@[0]
                    && final(self)@ == old(self)@.subrange(1, old(self)@.len() as int),
                None => old(self)@.len() == 0 && final(self)@ == old(self)@,
            },
    {
        if self.items.len() == 0 {
            None
        } else {
            Some(self.items.remove(0))
        }
    }

    /// How many messages are queued.
    pub fn len(&self) -> (r: usize)
        ensures
            r == self@.len(),
    {
        self.items.len()
    }

    /// True when nothing is queued.
    pub fn is_empty(&self) -> (r: bool)
        ensures
            r == (self@.len() == 0),
    {
        self.items.len() == 0
    }
}

/// What one reader iteration decides.
#[derive(PartialEq, Eq, Debug)]
pub enum ReaderAction {
    /// The shutdown flag was up: leave the loop.
    Stop,
    /// A datagram decoded into this message: deliver it inbound.
    Deliver(Message),
    /// No datagram arrived, or it was malformed: drop it and carry on.
    Skip,
}

/// What one writer iteration decides.
#[derive(PartialEq, Eq, Debug)]
pub enum WriterAction {
    /// The shutdown flag was up: leave the loop.
    Stop,
    /// A message was queued: send this frame to the multicast group.
    Transmit(Vec<u8>),
    /// The queue was empty: poll again.
    Idle,
}

/// One iteration of the reader loop: stop when the shutdown flag is up;
/// otherwise decode the received datagram as the zeroed receive buffer
/// presents it, stamp the reported peer address, and deliver the message on
/// success. A timed-out receive or a malformed datagram is skipped without
/// disturbing the loop.
pub fn reader_step(shutdown: bool, datagram: Option<(&[u8], IpAddress)>) -> (r: ReaderAction)
    ensures
        shutdown ==> r is Stop,
        !shutdown ==> match datagram {
            Some((data, peer)) => match r {
                ReaderAction::Deliver(m) => spec_parse_frame(spec_padded(data@)) is Ok && m@
                    == spec_stamp(spec_parse_frame(spec_padded(data@))->Ok_0, peer),
                ReaderAction::Skip => spec_parse_frame(spec_padded(data@)) is Err,
                ReaderAction::Stop => false,
            },
            None => r is Skip,
        },
{
    if shutdown {
        ReaderAction::Stop
    } else {
        match datagram {
            Some((data, peer)) => match Message::decode_datagram(peer, data) {
                Ok(m) => ReaderAction::Deliver(m),
                Err(_) => ReaderAction::Skip,
            },
            None => ReaderAction::Skip,
        }
    }
}

/// One iteration of the writer loop: stop when the shutdown flag is up;
/// otherwise encode the message popped from the outbound queue, if there was
/// one, into the frame to send.
pub fn writer_step(shutdown: bool, queued: Option<Message>) -> (r: WriterAction)
    ensures
        shutdown ==> r is Stop,
        !shutdown ==> match queued {
            Some(m) => r matches WriterAction::Transmit(bytes) && bytes@ == spec_wire(m@),
            None => r is Idle,
        },
{
    if shutdown {
        WriterAction::Stop
    } else {
        match queued {
            Some(m) => WriterAction::Transmit(m.to_bytes()),
            None => WriterAction::Idle,
        }
    }
}

/// The shared state of the transport: the cooperative shutdown flag, whether
/// each loop has observed it and exited, and the two queues.
pub struct Transport {
    pub shutdown: bool,
    pub reader_stopped: bool,
    pub writer_stopped: bool,
    pub inbound: MessageQueue,
    pub outbound: MessageQueue,
}

/// The mathematical image of the transport state.
pub ghost struct TransportModel {
    pub shutdown: bool,
    pub reader_stopped: bool,
    pub writer_stopped: bool,
    pub inbound: Seq<Message>,
    pub outbound: Seq<Message>,
}

impl View for Transport {
    type V = TransportModel;

    open spec fn view(&self) -> TransportModel {
        TransportModel {
            shutdown: self.shutdown,
            reader_stopped: self.reader_stopped,
            writer_stopped: self.writer_stopped,
            inbound: self.inbound@,
            outbound: self.outbound@,
        }
    }
}

/// The transport after the shutdown sequence: the flag is up and both loops
/// have observed it and exited. Running the sequence on a transport already
/// shut down changes nothing — which is why shutting down twice is harmless.
pub open spec fn spec_shutdown(t: TransportModel) -> TransportModel {
    TransportModel { shutdown: true, reader_stopped: true, writer_stopped: true, ..t }
}

/// Idempotent shutdown: sequencing a shutdown on an already shut down
/// transport leaves it exactly as it was.
pub proof fn lemma_shutdown_idempotent(t: TransportModel)
    ensures
        spec_shutdown(spec_shutdown(t)) == spec_shutdown(t),
{
}

impl Transport {
    /// A fresh transport: flag down, loops running, queues empty.
    pub fn new() -> (r: Self)
        ensures
            r@ == (TransportModel {
                shutdown: false,
                reader_stopped: false,
                writer_stopped: false,
                inbound: Seq::<Message>::empty(),
                outbound: Seq::<Message>::empty(),
            }),
    {
        Self {
            shutdown: false,
            reader_stopped: false,
            writer_stopped: false,
            inbound: MessageQueue::new(),
            outbound: MessageQueue::new(),
        }
    }

    /// Enqueues an outbound message, unless shutdown has begun — sending
    /// after that is refused, and the state is left untouched.
    pub fn send(&mut self, m: Message) -> (r: Result<(), SendError>)
        ensures
            old(self)@.shutdown ==> r == Err::<(), SendError>(SendError::TransportClosed)
                && final(self)@ == old(self)@,
            !old(self)@.shutdown ==> r == Ok::<(), SendError>(()) && final(self)@ == (
            TransportModel { outbound: old(self)@.outbound.push(m), ..old(self)@ }),
    {
        if self.shutdown {
            Err(SendError::TransportClosed)
        } else {
            self.outbound.push_back(m);
            Ok(())
        }
    }

    /// Non-blocking poll of the inbound queue: the oldest delivered message,
    /// if any is waiting.
    pub fn try_receive(&mut self) -> (r: Option<Message>)
        ensures
            match r {
                Some(m) => old(self)@.inbound.len() > 0 && m == old(self)@.inbound[0]
                    && final(self)@ == (TransportModel {
                    inbound: old(self)@.inbound.subrange(1, old(self)@.inbound.len() as int),
                    ..old(self)@
                }),
                None => old(self)@.inbound.len() == 0 && final(self)@ == old(self)@,
            },
    {
        self.inbound.pop_front()
    }

    /// Records a message the reader loop decoded: it joins the inbound queue
    /// behind everything decoded before it, so delivery order is decode
    /// order.
    pub fn accept_inbound(&mut self, m: Message)
        ensures
            final(self)@ == (TransportModel { inbound: old(self)@.inbound.push(m), ..old(self)@ }),
    {
        self.inbound.push_back(m);
    }

    /// Raises the shutdown flag; the loops observe it on their next
    /// iteration.
    pub fn begin_shutdown(&mut self)
        ensures
            final(self)@ == (TransportModel { shutdown: true, ..old(self)@ }),
    {
        self.shutdown = true;
    }

    /// Runs the shutdown sequence: raise the flag, then wait out both loops,
    /// which observe it and exit. Safe to run again on a transport already
    /// shut down: the second run changes nothing.
    pub fn shutdown(&mut self)
        ensures
            final(self)@ == spec_shutdown(old(self)@),
    {
        self.begin_shutdown();
        self.reader_stopped = true;
        self.writer_stopped = true;
    }

    /// Drains the outbound queue the way the running writer loop does,
    /// returning the frames it would send: one per queued message, in
    /// exactly the order the messages were enqueued.
    pub fn flush_outbound(&mut self) -> (frames: Vec<Vec<u8>>)
        requires
            !old(self)@.shutdown,
        ensures
            final(self)@ == (TransportModel { outbound: Seq::<Message>::empty(), ..old(self)@ }),
            frames@.len() == old(self)@.outbound.len(),
            forall|i: int|
                0 <= i < frames@.len() ==> frames@[i]@ == spec_wire(old(self)@.outbound[i]@),
    {
        let ghost t0 = self@;
        let mut frames: Vec<Vec<u8>> = Vec::new();
        while !self.outbound.is_empty()
            invariant
                self@.shutdown == false,
                self@.reader_stopped == t0.reader_stopped,
                self@.writer_stopped == t0.writer_stopped,
                self@.inbound == t0.inbound,
                frames@.len() + self@.outbound.len() == t0.outbound.len(),
                self@.outbound == t0.outbound.subrange(
                    frames@.len() as int,
                    t0.outbound.len() as int,
                ),
                forall|i: int|
                    0 <= i < frames@.len() ==> frames@[i]@ == spec_wire(t0.outbound[i]@),
            decreases self@.outbound.len(),
        {
            let queued = self.outbound.pop_front();
            match writer_step(self.shutdown, queued) {
                WriterAction::Transmit(bytes) => {
                    frames.push(bytes);
                    proof {
                        assert(self@.outbound =~= t0.outbound.subrange(
                            frames@.len() as int,
                            t0.outbound.len() as int,
                        ));
                    }
                },
                WriterAction::Idle => {},
                WriterAction::Stop => {},
            }
        }
        proof {
            assert(self@.outbound =~= Seq::<Message>::empty());
        }
        frames
    }
}

} // verus!
