//! The bounded queue between the host's callbacks and the event stream.
//!
//! The queue is a bounded channel of `futures`, with both of its ends in one
//! value. Pushing never waits: a chunk that finds the queue full is dropped.

use futures::channel::mpsc::{channel, Receiver, Sender, TryRecvError};
use vstd::prelude::*;

verus! {

/// A bounded channel of byte chunks: its one sending end and its receiving
/// end, made together and kept together.
#[verifier::external_body]
pub struct ChunkChannel {
    tx: Sender<Vec<u8>>,
    rx: Receiver<Vec<u8>>,
}

/// The chunks that wait in the channel, oldest first.
pub uninterp spec fn queued(channel: ChunkChannel) -> Seq<Seq<u8>>;

/// How many chunks the channel holds at most.
pub uninterp spec fn slots(channel: ChunkChannel) -> nat;

/// Whether the channel still takes chunks: true until its sending end is closed.
pub uninterp spec fn is_open(channel: ChunkChannel) -> bool;

/// What one pull from the queue finds.
#[derive(Debug, PartialEq, Eq)]
pub enum Pulled {
    /// The oldest chunk, now taken out.
    Chunk(Vec<u8>),
    /// Nothing waits, but more may come.
    Empty,
    /// Nothing waits and nothing will come.
    Closed,
}

impl ChunkChannel {
    /// Calls `futures::channel::mpsc::channel`, which makes an open and empty
    /// channel. That function documents the capacity as `buffer` plus the
    /// number of senders, and there is one sender here. It panics on a
    /// `buffer` of `usize::MAX >> 2` or more.
    #[verifier::external_body]
    pub(crate) fn open(buffer: usize) -> (made: ChunkChannel)
        requires
            buffer < usize::MAX / 4,
        ensures
            queued(made) == Seq::<Seq<u8>>::empty(),
            slots(made) == buffer + 1,
            is_open(made),
    {
        let (tx, rx) = channel(buffer);
        ChunkChannel { tx, rx }
    }

    /// Calls `Sender::try_send`, which appends the chunk where the channel is
    /// open and below its capacity, and hands it back otherwise; the chunk
    /// handed back is dropped here. With one sender, `try_send` refuses
    /// exactly while `buffer + 1` chunks wait: the send that brings the count
    /// above `buffer` parks the sender, and the next receive unparks it.
    #[verifier::external_body]
    pub(crate) fn try_send(&mut self, chunk: Vec<u8>) -> (sent: bool)
        ensures
            sent == (is_open(*old(self)) && queued(*old(self)).len() < slots(*old(self))),
            sent ==> queued(*final(self)) == queued(*old(self)).push(chunk@),
            !sent ==> queued(*final(self)) == queued(*old(self)),
            slots(*final(self)) == slots(*old(self)),
            is_open(*final(self)) == is_open(*old(self)),
    {
        self.tx.try_send(chunk).is_ok()
    }

    /// Calls `Receiver::try_recv`, which takes the oldest chunk out, or says
    /// that the channel is empty, or that it is empty and closed.
    #[verifier::external_body]
    pub(crate) fn try_recv(&mut self) -> (pulled: Pulled)
        ensures
            match pulled {
                Pulled::Chunk(chunk) => {
                    &&& queued(*old(self)).len() > 0
                    &&& chunk@ == queued(*old(self))[0]
                    &&& queued(*final(self)) == queued(*old(self)).skip(1)
                },
                Pulled::Empty => {
                    &&& queued(*old(self)).len() == 0
                    &&& is_open(*old(self))
                    &&& queued(*final(self)) == queued(*old(self))
                },
                Pulled::Closed => {
                    &&& queued(*old(self)).len() == 0
                    &&& !is_open(*old(self))
                    &&& queued(*final(self)) == queued(*old(self))
                },
            },
            slots(*final(self)) == slots(*old(self)),
            is_open(*final(self)) == is_open(*old(self)),
    {
        match self.rx.try_recv() {
            Ok(chunk) => Pulled::Chunk(chunk),
            Err(TryRecvError::Empty) => Pulled::Empty,
            Err(TryRecvError::Closed) => Pulled::Closed,
        }
    }

    /// Calls `Sender::close_channel`, which closes the channel to new chunks
    /// and leaves the waiting ones to be received.
    #[verifier::external_body]
    pub(crate) fn close(&mut self)
        ensures
            !is_open(*final(self)),
            queued(*final(self)) == queued(*old(self)),
            slots(*final(self)) == slots(*old(self)),
    {
        self.tx.close_channel();
    }
}

} // verus!
