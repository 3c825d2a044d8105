//! The event stream: it pulls chunks from a session's queue and drains each
//! through the decoder, one event per poll.

use crate::channel::Pulled;
use crate::decoder::{decode, decode_spec, is_cursor_sequence, is_printable, Decoded, ESC};
use crate::js_terminal::{poll_next_event, Session};
use terminput::Event;
use vstd::prelude::*;
use vstd::slice::slice_subrange;

verus! {

/// The one error that the stream hands to its reader.
#[derive(Debug, Clone, Copy, PartialEq, Eq)]
pub enum StreamError {
    /// A chunk held bytes that are no character data: the rest of that
    /// chunk is dropped, and the stream goes on with the next one.
    MalformedEncoding,
}

/// What one poll of the stream gives.
#[derive(Debug, PartialEq, Eq)]
pub enum Polled {
    /// The next event.
    Ready(Event),
    /// An error in place of an event; the stream goes on after it.
    Failed(StreamError),
    /// No event yet: the queue is empty and the session is open.
    Pending,
    /// The end of the stream: the queue is empty and the session is closed.
    Closed,
}

/// What a scan of a chunk finds first.
pub enum Found {
    /// An event, and the index of the first byte after it.
    Event { event: Event, next: int },
    /// Bytes that are no character data.
    Malformed,
    /// Nothing more: the chunk is at its end, or ends in the middle of a
    /// sequence.
    Nothing,
}

/// Whether the candidate `chunk[start..end]` is an escape byte alone with
/// more of the chunk behind it. Such a byte opens a sequence; only at a
/// chunk's end is it the escape key.
pub open spec fn opens_sequence(chunk: Seq<u8>, start: int, end: int) -> bool {
    end == start + 1 && end < chunk.len() && chunk[start] == ESC
}

/// What the scan finds first, with the candidate `chunk[start..end]` in
/// hand.
///
/// A complete candidate is the find. An incomplete one grows by a byte, and
/// comes to nothing at the chunk's end. An invalid one is noise where it
/// begins with the escape byte, and the scan starts again one byte on; any
/// other invalid candidate is malformed character data.
pub open spec fn scan(chunk: Seq<u8>, start: int, end: int) -> Found
    decreases chunk.len() - start, chunk.len() - end,
{
    if !(0 <= start < end <= chunk.len()) {
        Found::Nothing
    } else if opens_sequence(chunk, start, end) {
        scan(chunk, start, end + 1)
    } else {
        match decode_spec(chunk.subrange(start, end)) {
            Decoded::Complete(event) => Found::Event { event, next: end },
            Decoded::Incomplete => if end < chunk.len() {
                scan(chunk, start, end + 1)
            } else {
                Found::Nothing
            },
            Decoded::Invalid => if chunk[start] == ESC {
                scan(chunk, start + 1, start + 2)
            } else {
                Found::Malformed
            },
        }
    }
}

/// What the scan of `chunk` finds first from `position` on.
pub open spec fn first_found(chunk: Seq<u8>, position: int) -> Found {
    scan(chunk, position, position + 1)
}

/// All that `chunk` yields from `position` on, in order: its events from
/// left to right, and an error last where the scan meets malformed data.
pub open spec fn chunk_items(chunk: Seq<u8>, position: int) -> Seq<Result<Event, StreamError>>
    decreases chunk.len() - position,
{
    match first_found(chunk, position) {
        Found::Event { event, next } => if position < next <= chunk.len() {
            seq![Ok(event)] + chunk_items(chunk, next)
        } else {
            seq![Ok(event)]
        },
        Found::Malformed => seq![Err(StreamError::MalformedEncoding)],
        Found::Nothing => Seq::empty(),
    }
}

/// A poll's result together with the state that it leaves.
pub struct Step {
    /// What the poll gives.
    pub polled: Polled,
    /// The chunk that the stream holds afterwards.
    pub chunk: Seq<u8>,
    /// How far the stream has drained that chunk.
    pub position: int,
    /// The session's queue afterwards.
    pub queue: Seq<Seq<u8>>,
}

/// One poll of a stream that has drained `chunk` up to `position`, on a
/// session with the given queue.
///
/// The stream gives what its chunk yields next. A chunk that yields nothing
/// more is dropped for the oldest chunk of the queue; with the queue empty
/// too, the poll is pending on an open session and the end on a closed one.
pub open spec fn poll_spec(chunk: Seq<u8>, position: int, queue: Seq<Seq<u8>>, open: bool) -> Step
    decreases queue.len(),
{
    match first_found(chunk, position) {
        Found::Event { event, next } => Step {
            polled: Polled::Ready(event),
            chunk,
            position: next,
            queue,
        },
        Found::Malformed => Step {
            polled: Polled::Failed(StreamError::MalformedEncoding),
            chunk,
            position: chunk.len() as int,
            queue,
        },
        Found::Nothing => if queue.len() > 0 {
            poll_spec(queue[0], 0, queue.skip(1), open)
        } else {
            Step {
                polled: if open {
                    Polled::Pending
                } else {
                    Polled::Closed
                },
                chunk,
                position: chunk.len() as int,
                queue,
            }
        },
    }
}

/// The event that the decoder makes of the one byte `byte`. For a printable
/// byte this is the press of that character's key.
pub open spec fn key_press(byte: u8) -> Event {
    decode_spec(seq![byte])->Complete_0
}

/// Whether every byte of `chunk` is a printable character.
pub open spec fn all_printable(chunk: Seq<u8>) -> bool {
    forall|i: int| 0 <= i < chunk.len() ==> is_printable(#[trigger] chunk[i])
}

/// What a poll gives, as an item of a chunk: an event or an error, and
/// `None` for a poll that gives neither.
pub open spec fn polled_item(polled: Polled) -> Option<Result<Event, StreamError>> {
    match polled {
        Polled::Ready(event) => Some(Ok(event)),
        Polled::Failed(error) => Some(Err(error)),
        Polled::Pending => None,
        Polled::Closed => None,
    }
}

/// An event that a scan finds ends behind the byte that the scan began at,
/// and within the chunk.
pub proof fn lemma_scan_advances(chunk: Seq<u8>, start: int, end: int)
    ensures
        scan(chunk, start, end) matches Found::Event { next, .. } ==> start < next <= chunk.len(),
    decreases chunk.len() - start, chunk.len() - end,
{
    if 0 <= start < end <= chunk.len() {
        if opens_sequence(chunk, start, end) {
            lemma_scan_advances(chunk, start, end + 1);
        } else {
            match decode_spec(chunk.subrange(start, end)) {
                Decoded::Complete(_) => {},
                Decoded::Incomplete => {
                    if end < chunk.len() {
                        lemma_scan_advances(chunk, start, end + 1);
                    }
                },
                Decoded::Invalid => {
                    if chunk[start] == ESC {
                        lemma_scan_advances(chunk, start + 1, start + 2);
                    }
                },
            }
        }
    }
}

/// Successive polls give the items of the stream's chunk in order, and only
/// then turn to the queue: where the chunk still yields an item, the poll
/// gives that item, leaves the queue alone, and leaves the rest of the items
/// to come; where it yields none, the poll is that of the next chunk.
pub proof fn lemma_poll_follows_items(
    chunk: Seq<u8>,
    position: int,
    queue: Seq<Seq<u8>>,
    open: bool,
)
    ensures
        ({
            let items = chunk_items(chunk, position);
            let step = poll_spec(chunk, position, queue, open);
            if items.len() > 0 {
                &&& polled_item(step.polled) == Some(items[0])
                &&& step.chunk == chunk
                &&& step.queue == queue
                &&& chunk_items(chunk, step.position) == items.skip(1)
            } else if queue.len() > 0 {
                step == poll_spec(queue[0], 0, queue.skip(1), open)
            } else {
                polled_item(step.polled) is None && step.queue == queue
            }
        }),
{
    let items = chunk_items(chunk, position);
    lemma_scan_advances(chunk, position, position + 1);
    match first_found(chunk, position) {
        Found::Event { event, next } => {
            assert(items.skip(1) =~= chunk_items(chunk, next));
        },
        Found::Malformed => {
            assert(first_found(chunk, chunk.len() as int) == Found::Nothing);
            assert(items.skip(1) =~= chunk_items(chunk, chunk.len() as int));
        },
        Found::Nothing => {},
    }
}

/// A chunk of printable characters yields one key press for each of them,
/// in their order, from any position on.
pub proof fn lemma_printable_from(chunk: Seq<u8>, position: int)
    requires
        all_printable(chunk),
        0 <= position <= chunk.len(),
    ensures
        chunk_items(chunk, position).len() == chunk.len() - position,
        forall|i: int|
            0 <= i < chunk.len() - position ==> #[trigger] chunk_items(chunk, position)[i] == Ok::<
                Event,
                StreamError,
            >(key_press(chunk[position + i])),
    decreases chunk.len() - position,
{
    if position < chunk.len() {
        let byte = chunk[position];
        assert(is_printable(byte));
        assert(chunk.subrange(position, position + 1) =~= seq![byte]);
        assert(first_found(chunk, position) == Found::Event {
            event: key_press(byte),
            next: position + 1,
        });
        lemma_printable_from(chunk, position + 1);
        let rest = chunk_items(chunk, position + 1);
        assert forall|i: int| 0 <= i < chunk.len() - position implies #[trigger] chunk_items(
            chunk,
            position,
        )[i] == Ok::<Event, StreamError>(key_press(chunk[position + i])) by {
            if i > 0 {
                assert(chunk_items(chunk, position)[i] == rest[i - 1]);
            }
        }
    }
}

/// A payload of printable characters, delivered as one chunk, is decoded
/// into the presses of those characters' keys, one for one and in order.
pub proof fn lemma_printable_payload(chunk: Seq<u8>)
    requires
        all_printable(chunk),
    ensures
        chunk_items(chunk, 0) == chunk.map_values(
            |byte: u8| Ok::<Event, StreamError>(key_press(byte)),
        ),
{
    lemma_printable_from(chunk, 0);
    assert(chunk_items(chunk, 0) =~= chunk.map_values(
        |byte: u8| Ok::<Event, StreamError>(key_press(byte)),
    ));
}

/// A cursor-movement sequence that is a chunk of its own yields exactly one
/// event: the one that the decoder makes of the whole sequence.
pub proof fn lemma_cursor_sequence(chunk: Seq<u8>)
    requires
        is_cursor_sequence(chunk),
    ensures
        first_found(chunk, 0) == (Found::Event { event: decode_spec(chunk)->Complete_0, next: 3 }),
        chunk_items(chunk, 0) == seq![Ok::<Event, StreamError>(decode_spec(chunk)->Complete_0)],
{
    assert(chunk.subrange(0, 2) =~= chunk.take(2));
    assert(chunk.subrange(0, 3) =~= chunk);
    assert(scan(chunk, 0, 3) == Found::Event { event: decode_spec(chunk)->Complete_0, next: 3 });
    assert(scan(chunk, 0, 2) == scan(chunk, 0, 3));
    assert(scan(chunk, 0, 1) == scan(chunk, 0, 2));
    assert(first_found(chunk, 3) == Found::Nothing);
    assert(chunk_items(chunk, 3) =~= Seq::empty());
    assert(chunk_items(chunk, 0) =~= seq![
        Ok::<Event, StreamError>(decode_spec(chunk)->Complete_0),
    ]);
}

/// A chunk that holds one complete event and, behind it, bytes in which the
/// scan finds nothing yields exactly that event. The bytes behind it are
/// dropped: the poll after the event is the poll of the next chunk.
pub proof fn lemma_trailing_bytes_dropped(
    chunk: Seq<u8>,
    event: Event,
    next: int,
    queue: Seq<Seq<u8>>,
    open: bool,
)
    requires
        first_found(chunk, 0) == (Found::Event { event, next }),
        first_found(chunk, next) == Found::Nothing,
    ensures
        chunk_items(chunk, 0) == seq![Ok::<Event, StreamError>(event)],
        poll_spec(chunk, 0, queue, open) == (Step {
            polled: Polled::Ready(event),
            chunk,
            position: next,
            queue,
        }),
        queue.len() > 0 ==> poll_spec(chunk, next, queue, open) == poll_spec(
            queue[0],
            0,
            queue.skip(1),
            open,
        ),
{
    lemma_scan_advances(chunk, 0, 1);
    assert(chunk_items(chunk, next) =~= Seq::empty());
    assert(chunk_items(chunk, 0) =~= seq![Ok::<Event, StreamError>(event)]);
}

/// What `find_next` hands back: a `Found` with the index as a machine number.
enum Scanned {
    Event(Event, usize),
    Malformed,
    Nothing,
}

impl Scanned {
    spec fn found(self) -> Found {
        match self {
            Scanned::Event(event, next) => Found::Event { event, next: next as int },
            Scanned::Malformed => Found::Malformed,
            Scanned::Nothing => Found::Nothing,
        }
    }
}

/// Scans `chunk` from `position` on for its next event.
fn find_next(chunk: &[u8], position: usize) -> (scanned: Scanned)
    requires
        position <= chunk@.len(),
    ensures
        scanned.found() == first_found(chunk@, position as int),
        scanned matches Scanned::Event(_, next) ==> position < next <= chunk@.len(),
{
    let len = chunk.len();
    if position == len {
        return Scanned::Nothing;
    }
    let mut start = position;
    let mut end = position + 1;
    loop
        invariant
            len == chunk@.len(),
            position <= start < end <= len,
            first_found(chunk@, position as int) == scan(chunk@, start as int, end as int),
        decreases len - start, len - end,
    {
        if end == start + 1 && end < len && chunk[start] == ESC {
            end += 1;
        } else {
            match decode(slice_subrange(chunk, start, end)) {
                Decoded::Complete(event) => {
                    return Scanned::Event(event, end);
                },
                Decoded::Incomplete => {
                    if end < len {
                        end += 1;
                    } else {
                        return Scanned::Nothing;
                    }
                },
                Decoded::Invalid => {
                    if chunk[start] != ESC {
                        return Scanned::Malformed;
                    }
                    if start + 1 == len {
                        assert(scan(chunk@, start + 1, start + 2) == Found::Nothing);
                        return Scanned::Nothing;
                    }
                    start += 1;
                    end = start + 1;
                },
            }
        }
    }
}

/// The stream of input events of one session.
///
/// It is idle while it holds no undrained bytes, and draining otherwise.
pub struct EventStream {
    chunk: Vec<u8>,
    position: usize,
}

impl EventStream {
    #[verifier::type_invariant]
    spec fn in_bounds(self) -> bool {
        self.position <= self.chunk@.len()
    }

    /// The chunk that the stream holds.
    pub closed spec fn chunk(&self) -> Seq<u8> {
        self.chunk@
    }

    /// How many bytes of its chunk the stream has drained.
    pub closed spec fn position(&self) -> int {
        self.position as int
    }

    /// Whether the stream is idle: every byte of its chunk is drained.
    pub open spec fn is_idle(&self) -> bool {
        self.position() == self.chunk().len()
    }

    /// Makes an idle stream.
    pub fn new() -> (stream: EventStream)
        ensures
            stream.chunk() == Seq::<u8>::empty(),
            stream.position() == 0,
    {
        EventStream { chunk: Vec::new(), position: 0 }
    }

    /// Gives the next event of the session, without waiting.
    ///
    /// The result and the state left behind are those of `poll_spec`: an
    /// event, or an error for malformed data, as soon as a chunk yields one;
    /// `Pending` once the queue is empty and the session open; `Closed` once
    /// the queue is empty and the session closed.
    pub fn poll_next(&mut self, session: &mut Session) -> (polled: Polled)
        ensures
            (Step {
                polled,
                chunk: final(self).chunk(),
                position: final(self).position(),
                queue: final(session).queue(),
            }) == poll_spec(
                old(self).chunk(),
                old(self).position(),
                old(session).queue(),
                old(session).is_open(),
            ),
            0 <= final(self).position() <= final(self).chunk().len(),
            final(session).is_open() == old(session).is_open(),
            final(session).capacity() == old(session).capacity(),
            final(session).host() == old(session).host(),
    {
        loop
            invariant
                poll_spec(self.chunk(), self.position(), session.queue(), session.is_open())
                    == poll_spec(
                    old(self).chunk(),
                    old(self).position(),
                    old(session).queue(),
                    old(session).is_open(),
                ),
                session.is_open() == old(session).is_open(),
                session.capacity() == old(session).capacity(),
                session.host() == old(session).host(),
            decreases session.queue().len(),
        {
            proof {
                use_type_invariant(&*self);
            }
            match find_next(self.chunk.as_slice(), self.position) {
                Scanned::Event(event, next) => {
                    self.position = next;
                    return Polled::Ready(event);
                },
                Scanned::Malformed => {
                    self.position = self.chunk.len();
                    return Polled::Failed(StreamError::MalformedEncoding);
                },
                Scanned::Nothing => {
                    match poll_next_event(session) {
                        Pulled::Chunk(chunk) => {
                            *self = EventStream { chunk, position: 0 };
                        },
                        Pulled::Empty => {
                            self.position = self.chunk.len();
                            return Polled::Pending;
                        },
                        Pulled::Closed => {
                            self.position = self.chunk.len();
                            return Polled::Closed;
                        },
                    }
                },
            }
        }
    }
}

impl Default for EventStream {
    fn default() -> (stream: EventStream)
        ensures
            stream.chunk() == Seq::<u8>::empty(),
            stream.position() == 0,
    {
        EventStream::new()
    }
}

} // verus!
