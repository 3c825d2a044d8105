//! The byte relay: the session that takes what the host widget pushes, and
//! answers for the widget's size and cursor.

use crate::channel::{is_open, queued, slots, ChunkChannel, Pulled};
use vstd::arithmetic::div_mod::lemma_mod_multiples_vanish;
use vstd::prelude::*;
use vstd::utf8::{decode_utf8, valid_utf8};

verus! {

/// The buffer size that the session asks of its channel.
pub const QUEUE_BUFFER: usize = 32;

/// How many chunks a session's queue holds at most: the channel's buffer and
/// the one slot of its one sender.
pub const QUEUE_CAPACITY: usize = QUEUE_BUFFER + 1;

/// What the host widget reports of itself at one moment, as it reports it.
#[derive(Debug, Clone, Copy, PartialEq, Eq)]
pub struct HostState {
    /// Rows of the character grid.
    pub rows: u32,
    /// Columns of the character grid.
    pub cols: u32,
    /// Width of the widget's element in pixels.
    pub client_width: i32,
    /// Height of the widget's element in pixels.
    pub client_height: i32,
    /// Column of the cursor in the active buffer.
    pub cursor_x: u32,
    /// Row of the cursor in the active buffer.
    pub cursor_y: u32,
}

/// The size of the terminal window in cells and in pixels.
#[derive(Debug, Clone, Copy, PartialEq, Eq)]
pub struct WindowSize {
    /// Rows of the character grid.
    pub rows: u16,
    /// Columns of the character grid.
    pub columns: u16,
    /// Width in pixels.
    pub width: u16,
    /// Height in pixels.
    pub height: u16,
}

/// The low sixteen bits of `value`, which is what remains of a host number
/// in a terminal coordinate.
pub open spec fn low_bits(value: int) -> int {
    value % 0x1_0000
}

/// The window size that a host state amounts to.
pub open spec fn window_size_of(host: HostState) -> WindowSize {
    WindowSize {
        rows: low_bits(host.rows as int) as u16,
        columns: low_bits(host.cols as int) as u16,
        width: low_bits(host.client_width as int) as u16,
        height: low_bits(host.client_height as int) as u16,
    }
}

/// The cursor position, column first, that a host state amounts to.
pub open spec fn cursor_position_of(host: HostState) -> (u16, u16) {
    (low_bits(host.cursor_x as int) as u16, low_bits(host.cursor_y as int) as u16)
}

/// The queue after one chunk is pushed: the chunk goes to the back where the
/// queue is open and has room, and is dropped where it is not.
pub open spec fn pushed(queue: Seq<Seq<u8>>, chunk: Seq<u8>, capacity: nat, open: bool) -> Seq<
    Seq<u8>,
> {
    if open && queue.len() < capacity {
        queue.push(chunk)
    } else {
        queue
    }
}

/// The queue after each of `chunks` is pushed in turn.
pub open spec fn pushed_all(
    queue: Seq<Seq<u8>>,
    chunks: Seq<Seq<u8>>,
    capacity: nat,
    open: bool,
) -> Seq<Seq<u8>>
    decreases chunks.len(),
{
    if chunks.len() == 0 {
        queue
    } else {
        pushed_all(pushed(queue, chunks[0], capacity, open), chunks.skip(1), capacity, open)
    }
}

/// One input session: the queue that the host's callbacks fill, and the last
/// state that the host widget reported.
pub struct Session {
    channel: ChunkChannel,
    host: HostState,
}

fn truncate(value: u32) -> (low: u16)
    ensures
        low == low_bits(value as int),
{
    (value % 0x1_0000) as u16
}

fn truncate_signed(value: i32) -> (low: u16)
    ensures
        low == low_bits(value as int),
{
    let lifted: u64 = (value as i64 + 0x8000_0000) as u64;
    proof {
        lemma_mod_multiples_vanish(0x8000, value as int, 0x1_0000);
    }
    (lifted % 0x1_0000) as u16
}

impl Session {
    /// The chunks that wait in the queue, oldest first.
    pub closed spec fn queue(&self) -> Seq<Seq<u8>> {
        queued(self.channel)
    }

    /// Whether the host can still push: true until `close`.
    pub closed spec fn is_open(&self) -> bool {
        is_open(self.channel)
    }

    /// How many chunks the queue holds at most.
    pub closed spec fn capacity(&self) -> nat {
        slots(self.channel)
    }

    /// The host state last reported.
    pub closed spec fn host(&self) -> HostState {
        self.host
    }

    /// Opens a session on a host widget in the given state, with an empty
    /// queue of `QUEUE_CAPACITY` slots.
    pub fn new(host: HostState) -> (session: Session)
        ensures
            session.queue() == Seq::<Seq<u8>>::empty(),
            session.is_open(),
            session.capacity() == QUEUE_CAPACITY,
            session.host() == host,
    {
        Session { channel: ChunkChannel::open(QUEUE_BUFFER), host }
    }

    /// Takes the bytes of one data notification of the host. The chunk joins
    /// the queue, or is dropped where the queue is full or closed; the call
    /// never waits and never fails.
    pub fn on_data(&mut self, bytes: Vec<u8>)
        ensures
            final(self).queue() == pushed(
                old(self).queue(),
                bytes@,
                old(self).capacity(),
                old(self).is_open(),
            ),
            final(self).is_open() == old(self).is_open(),
            final(self).capacity() == old(self).capacity(),
            final(self).host() == old(self).host(),
    {
        let _ = self.channel.try_send(bytes);
    }

    /// Takes the bytes of one binary notification of the host, as `on_data`
    /// takes those of a data notification.
    pub fn on_binary(&mut self, bytes: Vec<u8>)
        ensures
            final(self).queue() == pushed(
                old(self).queue(),
                bytes@,
                old(self).capacity(),
                old(self).is_open(),
            ),
            final(self).is_open() == old(self).is_open(),
            final(self).capacity() == old(self).capacity(),
            final(self).host() == old(self).host(),
    {
        let _ = self.channel.try_send(bytes);
    }

    /// Takes a resize notification of the host: the new grid and pixel sizes
    /// replace the old ones. The queue and the cursor are as before.
    pub fn on_resize(&mut self, rows: u32, cols: u32, client_width: i32, client_height: i32)
        ensures
            final(self).host() == (HostState {
                rows,
                cols,
                client_width,
                client_height,
                ..old(self).host()
            }),
            final(self).queue() == old(self).queue(),
            final(self).is_open() == old(self).is_open(),
            final(self).capacity() == old(self).capacity(),
    {
        self.host.rows = rows;
        self.host.cols = cols;
        self.host.client_width = client_width;
        self.host.client_height = client_height;
    }

    /// Takes the cursor's new place in the active buffer. The queue and the
    /// sizes are as before.
    pub fn on_cursor_move(&mut self, cursor_x: u32, cursor_y: u32)
        ensures
            final(self).host() == (HostState { cursor_x, cursor_y, ..old(self).host() }),
            final(self).queue() == old(self).queue(),
            final(self).is_open() == old(self).is_open(),
            final(self).capacity() == old(self).capacity(),
    {
        self.host.cursor_x = cursor_x;
        self.host.cursor_y = cursor_y;
    }

    /// Tears the producing side down. Chunks that wait stay to be pulled;
    /// chunks pushed from now on are dropped.
    pub fn close(&mut self)
        ensures
            !final(self).is_open(),
            final(self).queue() == old(self).queue(),
            final(self).capacity() == old(self).capacity(),
            final(self).host() == old(self).host(),
    {
        self.channel.close();
    }
}

/// Pulls the oldest chunk from the session's queue, without waiting.
///
/// The result is the chunk where one waits, `Empty` where none waits and
/// the session is open, and `Closed` where none waits and it is closed.
pub fn poll_next_event(session: &mut Session) -> (pulled: Pulled)
    ensures
        match pulled {
            Pulled::Chunk(chunk) => {
                &&& old(session).queue().len() > 0
                &&& chunk@ == old(session).queue()[0]
                &&& final(session).queue() == old(session).queue().skip(1)
            },
            Pulled::Empty => {
                &&& old(session).queue().len() == 0
                &&& old(session).is_open()
                &&& final(session).queue() == old(session).queue()
            },
            Pulled::Closed => {
                &&& old(session).queue().len() == 0
                &&& !old(session).is_open()
                &&& final(session).queue() == old(session).queue()
            },
        },
        final(session).is_open() == old(session).is_open(),
        final(session).capacity() == old(session).capacity(),
        final(session).host() == old(session).host(),
{
    session.channel.try_recv()
}

/// The size of the terminal window as the host last reported it: a
/// snapshot, to be asked for again after a resize.
pub fn window_size(session: &Session) -> (size: WindowSize)
    ensures
        size == window_size_of(session.host()),
{
    WindowSize {
        rows: truncate(session.host.rows),
        columns: truncate(session.host.cols),
        width: truncate_signed(session.host.client_width),
        height: truncate_signed(session.host.client_height),
    }
}

/// The size of the character grid, columns first.
pub fn size(session: &Session) -> (cells: (u16, u16))
    ensures
        cells == (window_size_of(session.host()).columns, window_size_of(session.host()).rows),
{
    let window = window_size(session);
    (window.columns, window.rows)
}

/// The place of the cursor in the active buffer, column first: a snapshot.
pub fn cursor_position(session: &Session) -> (position: (u16, u16))
    ensures
        position == cursor_position_of(session.host()),
{
    (truncate(session.host.cursor_x), truncate(session.host.cursor_y))
}

/// How many of `count` chunks a queue of `capacity` slots holds.
pub open spec fn kept(count: nat, capacity: nat) -> nat {
    if count <= capacity {
        count
    } else {
        capacity
    }
}

/// Pushes onto an open queue keep the oldest chunks and their order: what
/// waits afterwards is what waited before with the new chunks behind it, cut
/// off at the capacity.
pub proof fn lemma_pushes_keep_oldest(queue: Seq<Seq<u8>>, chunks: Seq<Seq<u8>>, capacity: nat)
    requires
        queue.len() <= capacity,
    ensures
        pushed_all(queue, chunks, capacity, true) == (queue + chunks).take(
            kept(queue.len() + chunks.len(), capacity) as int,
        ),
    decreases chunks.len(),
{
    if chunks.len() == 0 {
        assert((queue + chunks).take(queue.len() as int) =~= queue);
    } else {
        let next = pushed(queue, chunks[0], capacity, true);
        lemma_pushes_keep_oldest(next, chunks.skip(1), capacity);
        if queue.len() < capacity {
            assert(next + chunks.skip(1) =~= queue + chunks);
        } else {
            assert((queue + chunks.skip(1)).take(capacity as int) =~= (queue + chunks).take(
                capacity as int,
            ));
        }
    }
}

/// Overflow: of `chunks` pushed onto an empty open queue with no pull in
/// between, the queue holds the first `capacity` in their order, and all of
/// them where they are fewer. More chunks than `capacity` leave exactly
/// `capacity` of them to be pulled.
pub proof fn lemma_overflow_keeps_first(chunks: Seq<Seq<u8>>, capacity: nat)
    ensures
        pushed_all(Seq::empty(), chunks, capacity, true) == chunks.take(
            kept(chunks.len(), capacity) as int,
        ),
        chunks.len() > capacity ==> pushed_all(Seq::empty(), chunks, capacity, true).len()
            == capacity,
{
    lemma_pushes_keep_oldest(Seq::empty(), chunks, capacity);
    assert(Seq::<Seq<u8>>::empty() + chunks =~= chunks);
}

/// The cursor position is a function of the host state alone: two sessions,
/// or one session at two moments, with the same host state give the same
/// position, whatever came through the queue in between.
pub proof fn lemma_cursor_position_repeats(first: Session, second: Session)
    requires
        first.host() == second.host(),
    ensures
        cursor_position_of(first.host()) == cursor_position_of(second.host()),
{
}

/// Why a flush handed nothing on.
#[derive(Debug, Clone, Copy, PartialEq, Eq)]
pub enum FlushError {
    /// The bytes written since the last flush are not UTF-8.
    InvalidData,
}

/// The write sink of the renderer: it gathers bytes, and on a flush hands
/// them on as text for the host widget.
pub struct TerminalHandle {
    buffer: Vec<u8>,
}

/// Calls `String::from_utf8`, which gives the text that the bytes encode
/// where they are valid UTF-8, and an error where they are not.
#[verifier::external_body]
fn text_of(bytes: Vec<u8>) -> (text: Option<String>)
    ensures
        text is Some == valid_utf8(bytes@),
        text matches Some(s) ==> s@ == decode_utf8(bytes@),
{
    String::from_utf8(bytes).ok()
}

impl TerminalHandle {
    /// The bytes written and not yet flushed.
    pub closed spec fn pending(&self) -> Seq<u8> {
        self.buffer@
    }

    /// Takes `buf` after what is pending, and reports all of it written.
    pub fn write(&mut self, buf: &[u8]) -> (written: usize)
        ensures
            final(self).pending() == old(self).pending() + buf@,
            written == buf@.len(),
    {
        self.buffer.extend_from_slice(buf);
        assert(self.buffer@ =~= old(self).buffer@ + buf@);
        buf.len()
    }

    /// Empties the handle and hands on what was pending as text.
    ///
    /// The result is the text where the pending bytes are valid UTF-8, and
    /// `InvalidData` where they are not; the handle is empty either way.
    pub fn flush(&mut self) -> (flushed: Result<String, FlushError>)
        ensures
            final(self).pending() == Seq::<u8>::empty(),
            match flushed {
                Ok(text) => valid_utf8(old(self).pending()) && text@ == decode_utf8(
                    old(self).pending(),
                ),
                Err(error) => !valid_utf8(old(self).pending()) && error == FlushError::InvalidData,
            },
    {
        let mut bytes: Vec<u8> = Vec::new();
        std::mem::swap(&mut self.buffer, &mut bytes);
        match text_of(bytes) {
            Some(text) => Ok(text),
            None => Err(FlushError::InvalidData),
        }
    }
}

impl Default for TerminalHandle {
    fn default() -> (handle: TerminalHandle)
        ensures
            handle.pending() == Seq::<u8>::empty(),
    {
        TerminalHandle { buffer: Vec::new() }
    }
}

} // verus!
