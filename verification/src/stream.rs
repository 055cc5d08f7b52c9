//! The stream adapter: text with canonical line endings, and byte buffers,
//! carried over the driver's one-byte transfers.
//!
//! As in the driver core, no call waits: each goes as far as the hardware
//! lets it at once and says how far that was.

use vstd::prelude::*;
use vstd::string::StringSliceAdditionalSpecFns;
use crate::bus::{Bus, Event};
use crate::registers::{Register, data_ready, tx_available};
use crate::uart::{MiniUart, Poll, is_wait_step, low_byte};

verus! {

/// The line-feed byte.
pub const LINE_FEED: u8 = 0x0A;

/// The carriage-return byte.
pub const CARRIAGE_RETURN: u8 = 0x0D;

/// Why a buffered read failed.
#[derive(Clone, Copy, Debug, PartialEq, Eq, Structural)]
pub enum ReadError {
    /// No byte became ready before the read timeout ran out.
    TimedOut,
}

/// What goes out on the line for one byte of text: a line feed is preceded
/// by a carriage return, any other byte goes out as it is.
pub open spec fn line_bytes(byte: u8) -> Seq<u8> {
    if byte == LINE_FEED {
        seq![CARRIAGE_RETURN, LINE_FEED]
    } else {
        seq![byte]
    }
}

/// What goes out on the line for a text.
pub open spec fn crlf(text: Seq<u8>) -> Seq<u8>
    decreases text.len(),
{
    if text.len() == 0 {
        Seq::empty()
    } else {
        line_bytes(text[0]) + crlf(text.skip(1))
    }
}

/// How far a text write has come.
#[derive(Clone, Copy, Debug, PartialEq, Eq, Structural)]
pub struct TextCursor {
    /// Number of bytes of the text that are wholly out.
    pub index: usize,
    /// Whether the carriage return before the line feed at `index` is out.
    pub cr_sent: bool,
}

impl TextCursor {
    /// What is still to go out for `text` from this cursor on.
    pub open spec fn remaining(self, text: Seq<u8>) -> Seq<u8> {
        if self.index >= text.len() {
            Seq::empty()
        } else if self.cr_sent && text[self.index as int] == LINE_FEED {
            seq![LINE_FEED] + crlf(text.skip(self.index + 1))
        } else {
            crlf(text.skip(self.index as int))
        }
    }

    /// Whether nothing of `text` is left to go out.
    pub open spec fn spec_is_done(self, text: Seq<u8>) -> bool {
        self.index >= text.len()
    }

    /// The cursor before the first byte of a text.
    pub fn start() -> (cursor: TextCursor)
        ensures
            cursor == (TextCursor { index: 0, cr_sent: false }),
    {
        TextCursor { index: 0, cr_sent: false }
    }

    /// Whether nothing of `text` is left to go out.
    pub fn is_done(&self, text: &str) -> (done: bool)
        ensures
            done == self.spec_is_done(text.spec_bytes()),
            done <==> self.remaining(text.spec_bytes()).len() == 0,
    {
        let bytes = text.as_bytes();
        let len: usize = bytes.len();
        proof {
            lemma_remaining_front(*self, bytes@);
        }
        self.index >= len
    }
}

/// From the first cursor, the whole of the text's line form remains.
pub proof fn lemma_remaining_at_start(text: Seq<u8>)
    ensures
        (TextCursor { index: 0, cr_sent: false }).remaining(text) == crlf(text),
{
    assert(text.skip(0) =~= text);
}

/// Before the end of the text something remains, and what remains after the
/// next byte has gone out is what remained, less its first byte.
pub proof fn lemma_remaining_front(cursor: TextCursor, text: Seq<u8>)
    requires
        text.len() <= usize::MAX,
    ensures
        cursor.index >= text.len() ==> cursor.remaining(text).len() == 0,
        cursor.index < text.len() ==> {
            let byte = text[cursor.index as int];
            let next = if byte == LINE_FEED && !cursor.cr_sent {
                TextCursor { index: cursor.index, cr_sent: true }
            } else {
                TextCursor { index: (cursor.index + 1) as usize, cr_sent: false }
            };
            &&& cursor.remaining(text).len() > 0
            &&& cursor.remaining(text)[0] == if byte == LINE_FEED && !cursor.cr_sent {
                CARRIAGE_RETURN
            } else {
                byte
            }
            &&& next.remaining(text) == cursor.remaining(text).skip(1)
        },
{
    if cursor.index < text.len() {
        let i = cursor.index as int;
        let byte = text[i];
        let rest = text.skip(i);
        assert(rest[0] == byte);
        assert(rest.skip(1) =~= text.skip(i + 1));
        assert(crlf(rest) == line_bytes(byte) + crlf(text.skip(i + 1)));
        let tail = crlf(text.skip(i + 1));
        if i + 1 < text.len() {
            assert((TextCursor { index: (i + 1) as usize, cr_sent: false }).remaining(text) == tail);
        } else {
            assert(text.skip(i + 1).len() == 0);
            assert(tail =~= Seq::<u8>::empty());
        }
        if byte == LINE_FEED && !cursor.cr_sent {
            assert(cursor.remaining(text).skip(1) =~= seq![LINE_FEED] + tail);
        } else {
            assert(cursor.remaining(text).skip(1) =~= tail);
        }
    }
}

/// Whether `added` is what sending `bytes` does on the bus when `written` of
/// them go out before the transmit queue is found full: for each byte that
/// goes out, a read of the line status that shows room and then the store
/// of that byte to the data register; and, unless all went out, one last
/// read of the line status that shows no room.
pub open spec fn is_burst(added: Seq<Event>, bytes: Seq<u8>, written: int) -> bool {
    &&& 0 <= written <= bytes.len()
    &&& added.len() == 2 * written + if written < bytes.len() { 1int } else { 0int }
    &&& forall|i: int|
        0 <= i < written ==> {
            &&& added[2 * i] is Load
            &&& added[2 * i]->Load_reg == Register::Lsr
            &&& tx_available(added[2 * i]->Load_value)
            &&& added[2 * i + 1] == Event::Store { reg: Register::Io, value: #[trigger] bytes[i] as u32 }
        }
    &&& written < bytes.len() ==> {
        &&& added[2 * written] is Load
        &&& added[2 * written]->Load_reg == Register::Lsr
        &&& !tx_available(added[2 * written]->Load_value)
    }
}

/// A burst that has sent the first `written` bytes goes on by one byte where
/// the line status shows room.
pub proof fn lemma_burst_sent(added: Seq<Event>, bytes: Seq<u8>, written: int, status: u32)
    requires
        is_burst(added, bytes.take(written), written),
        0 <= written < bytes.len(),
        tx_available(status),
    ensures
        is_burst(
            added.push(Event::Load { reg: Register::Lsr, value: status }).push(
                Event::Store { reg: Register::Io, value: bytes[written] as u32 },
            ),
            bytes.take(written + 1),
            written + 1,
        ),
{
    let grown = added.push(Event::Load { reg: Register::Lsr, value: status }).push(
        Event::Store { reg: Register::Io, value: bytes[written] as u32 },
    );
    let sent = bytes.take(written + 1);
    assert forall|i: int| 0 <= i < written + 1 implies {
        &&& grown[2 * i] is Load
        &&& grown[2 * i]->Load_reg == Register::Lsr
        &&& tx_available(grown[2 * i]->Load_value)
        &&& grown[2 * i + 1] == Event::Store { reg: Register::Io, value: #[trigger] sent[i] as u32 }
    } by {
        if i < written {
            assert(bytes.take(written)[i] == sent[i]);
        }
    }
}

/// A burst that has sent the first `written` bytes ends where the line
/// status shows no room.
pub proof fn lemma_burst_stalled(added: Seq<Event>, bytes: Seq<u8>, written: int, status: u32)
    requires
        is_burst(added, bytes.take(written), written),
        0 <= written < bytes.len(),
        !tx_available(status),
    ensures
        is_burst(added.push(Event::Load { reg: Register::Lsr, value: status }), bytes, written),
{
    let grown = added.push(Event::Load { reg: Register::Lsr, value: status });
    assert forall|i: int| 0 <= i < written implies {
        &&& grown[2 * i] is Load
        &&& grown[2 * i]->Load_reg == Register::Lsr
        &&& tx_available(grown[2 * i]->Load_value)
        &&& grown[2 * i + 1] == Event::Store { reg: Register::Io, value: #[trigger] bytes[i] as u32 }
    } by {
        assert(bytes.take(written)[i] == bytes[i]);
    }
}

/// Whether an event is a read of the line status.
pub open spec fn is_status(event: Event) -> bool {
    event is Load && event->Load_reg == Register::Lsr
}

/// Whether `added` begins with the taking of `taken` bytes: for each byte,
/// two reads of the line status that show a byte and then the load of the
/// data register.
pub open spec fn takes_bytes(added: Seq<Event>, taken: int) -> bool {
    forall|i: int|
        0 <= i < taken ==> {
            &&& is_status(added[3 * i]) && data_ready(added[3 * i]->Load_value)
            &&& is_status(added[3 * i + 1]) && data_ready(added[3 * i + 1]->Load_value)
            &&& (#[trigger] added[3 * i + 2]) is Load
            &&& added[3 * i + 2]->Load_reg == Register::Io
        }
}

/// The byte that the `i`-th load of the data register in a drain gave.
pub open spec fn drained_byte(added: Seq<Event>, i: int) -> u8 {
    low_byte(added[3 * i + 2]->Load_value)
}

/// Whether `added` is what draining the receiver into a buffer of
/// `capacity` bytes does on the bus when `taken` bytes are taken: the
/// taking of each byte; then one read of the line status, which shows no
/// byte unless the buffer is full. Should the line status, having shown a
/// byte, show none on the very next read, the draining ends there too.
pub open spec fn is_drain(added: Seq<Event>, capacity: int, taken: int) -> bool {
    &&& 0 <= taken <= capacity
    &&& added.len() == 3 * taken + 1 || added.len() == 3 * taken + 2
    &&& takes_bytes(added, taken)
    &&& is_status(added[3 * taken])
    &&& added.len() == 3 * taken + 1 ==> taken == capacity || !data_ready(
        added[3 * taken]->Load_value,
    )
    &&& added.len() == 3 * taken + 2 ==> {
        &&& taken < capacity
        &&& data_ready(added[3 * taken]->Load_value)
        &&& is_status(added[3 * taken + 1])
        &&& !data_ready(added[3 * taken + 1]->Load_value)
    }
}

/// The taking of bytes stays what it was when more events follow.
pub proof fn lemma_takes_bytes_extends(shorter: Seq<Event>, longer: Seq<Event>, taken: int)
    requires
        takes_bytes(shorter, taken),
        3 * taken <= shorter.len(),
        shorter.is_prefix_of(longer),
    ensures
        takes_bytes(longer, taken),
        forall|i: int| 0 <= i < taken ==> drained_byte(longer, i) == drained_byte(shorter, i),
{
    assert forall|i: int| 0 <= i < taken implies {
        &&& is_status(longer[3 * i]) && data_ready(longer[3 * i]->Load_value)
        &&& is_status(longer[3 * i + 1]) && data_ready(longer[3 * i + 1]->Load_value)
        &&& (#[trigger] longer[3 * i + 2]) is Load
        &&& longer[3 * i + 2]->Load_reg == Register::Io
        &&& drained_byte(longer, i) == drained_byte(shorter, i)
    } by {
        assert(shorter[3 * i + 2] is Load);
        assert(longer[3 * i] == shorter[3 * i]);
        assert(longer[3 * i + 1] == shorter[3 * i + 1]);
        assert(longer[3 * i + 2] == shorter[3 * i + 2]);
    }
}

/// Whether, between `before` and `after`, a step of a wait ended with `Ok`
/// and the receiver was then drained into a buffer of `capacity` bytes, of
/// which `taken` were taken.
pub open spec fn is_wait_and_drain(
    since: Option<u64>,
    timeout: Option<u32>,
    before: Seq<Event>,
    after: Seq<Event>,
    capacity: int,
    taken: int,
) -> bool {
    let waited = before.len() + if since is None { 2int } else { 1int };
    &&& waited <= after.len()
    &&& is_wait_step(since, timeout, before, after.take(waited), Poll::Ready(Ok(())), None)
    &&& is_drain(after.skip(waited), capacity, taken)
}

/// Whether a buffered read took the log from `before` to `after` and the
/// buffer from `buf_before` to `buf_after`, ended as `got` says and left the
/// driver with `since_after`.
///
/// The read begins with one step of a wait. Where that step is `Pending`,
/// so is the read, and where the wait timed out, the read fails with
/// `TimedOut`; no byte is taken and the buffer stays as it was. After `Ok`
/// the receiver is drained into the front of the buffer, and the slots
/// behind the bytes taken stay as they were. A read into a buffer with room
/// never ends with a count of zero: where the draining took nothing, the
/// read is `Pending`, no wait is in progress, and the next call begins with
/// a new wait.
pub open spec fn is_read(
    since: Option<u64>,
    timeout: Option<u32>,
    before: Seq<Event>,
    after: Seq<Event>,
    buf_before: Seq<u8>,
    buf_after: Seq<u8>,
    got: Poll<Result<usize, ReadError>>,
    since_after: Option<u64>,
) -> bool {
    let drained = after.skip(before.len() + if since is None { 2int } else { 1int });
    match got {
        Poll::Pending => {
            &&& buf_after == buf_before
            &&& if since_after is Some {
                is_wait_step(since, timeout, before, after, Poll::Pending, since_after)
            } else {
                &&& buf_before.len() > 0
                &&& is_wait_and_drain(since, timeout, before, after, buf_before.len() as int, 0)
            }
        },
        Poll::Ready(Err(_)) => {
            &&& is_wait_step(since, timeout, before, after, Poll::Ready(Err(())), since_after)
            &&& buf_after == buf_before
        },
        Poll::Ready(Ok(taken)) => {
            &&& since_after is None
            &&& taken > 0 || buf_before.len() == 0
            &&& is_wait_and_drain(
                since,
                timeout,
                before,
                after,
                buf_before.len() as int,
                taken as int,
            )
            &&& buf_after.len() == buf_before.len()
            &&& forall|i: int| 0 <= i < taken ==> #[trigger] buf_after[i] == drained_byte(drained, i)
            &&& forall|i: int|
                taken <= i < buf_before.len() ==> #[trigger] buf_after[i] == buf_before[i]
        },
    }
}

impl<B: Bus> MiniUart<B> {
    /// Reads into `buf` what the receiver holds, after one step of waiting
    /// for it (see `is_read`). Repeated for as long as it is `Pending`, it
    /// waits until a byte is there or the read timeout has run out.
    pub fn read(&mut self, buf: &mut [u8]) -> (got: Poll<Result<usize, ReadError>>)
        ensures
            final(self).timeout() == old(self).timeout(),
            final(self).origin() == old(self).origin(),
            old(self).chained() ==> final(self).chained(),
            is_read(
                old(self).waiting_since(),
                old(self).timeout(),
                old(self).log(),
                final(self).log(),
                old(buf)@,
                final(buf)@,
                got,
                final(self).waiting_since(),
            ),
    {
        let ghost before = self.log();
        let waited = self.wait_for_byte();
        match waited {
            Poll::Pending => {
                return Poll::Pending;
            },
            Poll::Ready(Err(_)) => {
                return Poll::Ready(Err(ReadError::TimedOut));
            },
            Poll::Ready(Ok(_)) => {},
        }
        let ghost mid = self.log();
        let ghost mut added: Seq<Event> = Seq::empty();
        let len: usize = buf.len();
        let mut taken: usize = 0;
        let mut more: bool = true;
        while more
            invariant
                self.timeout() == old(self).timeout(),
                self.waiting_since() is None,
                self.origin() == old(self).origin(),
                old(self).chained() ==> self.chained(),
                self.log() == mid + added,
                buf@.len() == old(buf)@.len(),
                len == buf@.len(),
                taken <= len,
                more ==> added.len() == 3 * taken,
                !more ==> is_drain(added, len as int, taken as int),
                takes_bytes(added, taken as int),
                forall|i: int| 0 <= i < taken ==> #[trigger] buf@[i] == drained_byte(added, i),
                forall|i: int| taken <= i < len ==> #[trigger] buf@[i] == old(buf)@[i],
            decreases len - taken + if more { 1int } else { 0int },
        {
            let ghost so_far = added;
            let ready: bool = self.has_byte();
            proof {
                added = so_far.push(self.log().last());
                assert(self.log() =~= mid + added);
                lemma_takes_bytes_extends(so_far, added, taken as int);
            }
            if taken < len && ready {
                let ghost polled = added;
                let got = self.read_byte();
                match got {
                    Poll::Ready(byte) => {
                        proof {
                            let n = self.log().len();
                            added = polled.push(self.log()[n - 2]).push(self.log()[n - 1]);
                            assert(self.log() =~= mid + added);
                            lemma_takes_bytes_extends(polled, added, taken as int);
                            assert(added[3 * taken + 2] is Load);
                        }
                        buf[taken] = byte;
                        taken = taken + 1;
                    },
                    Poll::Pending => {
                        proof {
                            added = polled.push(self.log().last());
                            assert(self.log() =~= mid + added);
                            lemma_takes_bytes_extends(polled, added, taken as int);
                        }
                        more = false;
                    },
                }
            } else {
                more = false;
            }
        }
        proof {
            let waited_len = before.len() + if old(self).waiting_since() is None { 2int } else { 1int };
            assert(mid.len() == waited_len);
            assert((mid + added).take(waited_len) =~= mid);
            assert((mid + added).skip(waited_len) =~= added);
            if taken == 0 {
                assert(buf@ =~= old(buf)@);
            }
        }
        if taken == 0 && len > 0 {
            Poll::Pending
        } else {
            Poll::Ready(Ok(taken))
        }
    }

    /// Sends as many bytes of `buf`, from the first on, as go out without
    /// waiting, and returns their number.
    pub fn write(&mut self, buf: &[u8]) -> (written: usize)
        ensures
            final(self).timeout() == old(self).timeout(),
            final(self).waiting_since() == old(self).waiting_since(),
            final(self).origin() == old(self).origin(),
            old(self).chained() ==> final(self).chained(),
            old(self).log().is_prefix_of(final(self).log()),
            is_burst(final(self).log().skip(old(self).log().len() as int), buf@, written as int),
    {
        let ghost before = self.log();
        let ghost mut added: Seq<Event> = Seq::empty();
        let mut written: usize = 0;
        let mut room: bool = true;
        while room && written < buf.len()
            invariant
                self.timeout() == old(self).timeout(),
                self.waiting_since() == old(self).waiting_since(),
                self.origin() == old(self).origin(),
                old(self).chained() ==> self.chained(),
                self.log() == before + added,
                written <= buf.len(),
                room ==> is_burst(added, buf@.take(written as int), written as int),
                !room ==> is_burst(added, buf@, written as int),
            decreases buf.len() - written + if room { 1int } else { 0int },
        {
            let ghost so_far = self.log();
            let byte: u8 = buf[written];
            let sent = self.write_byte(byte);
            let ghost status = self.log()[so_far.len() as int]->Load_value;
            match sent {
                Poll::Ready(_) => {
                    proof {
                        lemma_burst_sent(added, buf@, written as int, status);
                        added = added.push(Event::Load { reg: Register::Lsr, value: status }).push(
                            Event::Store { reg: Register::Io, value: byte as u32 },
                        );
                        assert(self.log() =~= before + added);
                    }
                    written = written + 1;
                },
                Poll::Pending => {
                    proof {
                        lemma_burst_stalled(added, buf@, written as int, status);
                        added = added.push(Event::Load { reg: Register::Lsr, value: status });
                        assert(self.log() =~= before + added);
                    }
                    room = false;
                },
            }
        }
        proof {
            assert(buf@.take(buf.len() as int) =~= buf@);
            assert((before + added).skip(before.len() as int) =~= added);
        }
        written
    }

    /// Sends as much of the text `s`, from `from` on, as goes out without
    /// waiting, a carriage return before each line feed, and returns the
    /// cursor from which the rest is to be sent. Begun at
    /// `TextCursor::start()` and repeated until the cursor is done, the
    /// calls together send the line form of the whole text.
    pub fn write_str(&mut self, s: &str, from: TextCursor) -> (to: TextCursor)
        ensures
            final(self).timeout() == old(self).timeout(),
            final(self).waiting_since() == old(self).waiting_since(),
            final(self).origin() == old(self).origin(),
            old(self).chained() ==> final(self).chained(),
            old(self).log().is_prefix_of(final(self).log()),
            to.remaining(s.spec_bytes()).len() <= from.remaining(s.spec_bytes()).len(),
            to.spec_is_done(s.spec_bytes()) <==> to.remaining(s.spec_bytes()).len() == 0,
            from.spec_is_done(s.spec_bytes()) ==> to == from,
            is_burst(
                final(self).log().skip(old(self).log().len() as int),
                from.remaining(s.spec_bytes()),
                from.remaining(s.spec_bytes()).len() - to.remaining(s.spec_bytes()).len(),
            ),
            to.remaining(s.spec_bytes()) == from.remaining(s.spec_bytes()).skip(
                from.remaining(s.spec_bytes()).len() - to.remaining(s.spec_bytes()).len(),
            ),
    {
        let bytes = s.as_bytes();
        let len: usize = bytes.len();
        let ghost before = self.log();
        let ghost out = from.remaining(bytes@);
        let ghost mut added: Seq<Event> = Seq::empty();
        let ghost mut written: int = 0;
        let mut cursor = from;
        let mut room: bool = true;
        proof {
            assert(out.skip(0) =~= out);
        }
        while room && cursor.index < len
            invariant
                len == bytes@.len(),
                self.timeout() == old(self).timeout(),
                self.waiting_since() == old(self).waiting_since(),
                self.origin() == old(self).origin(),
                old(self).chained() ==> self.chained(),
                self.log() == before + added,
                0 <= written <= out.len(),
                cursor.remaining(bytes@) == out.skip(written),
                from.index >= len ==> cursor == from,
                room ==> is_burst(added, out.take(written), written),
                !room ==> is_burst(added, out, written),
            decreases
                    2 * (len - cursor.index) + if cursor.cr_sent { 0int } else { 1int } + if room {
                        1int
                    } else {
                        0int
                    },
        {
            let ghost so_far = self.log();
            let byte: u8 = bytes[cursor.index];
            let first: bool = byte == LINE_FEED && !cursor.cr_sent;
            let send: u8 = if first { CARRIAGE_RETURN } else { byte };
            proof {
                lemma_remaining_front(cursor, bytes@);
                assert(out.skip(written)[0] == out[written]);
            }
            let sent = self.write_byte(send);
            let ghost status = self.log()[so_far.len() as int]->Load_value;
            match sent {
                Poll::Ready(_) => {
                    proof {
                        lemma_burst_sent(added, out, written, status);
                        added = added.push(Event::Load { reg: Register::Lsr, value: status }).push(
                            Event::Store { reg: Register::Io, value: send as u32 },
                        );
                        assert(self.log() =~= before + added);
                        assert(out.skip(written).skip(1) =~= out.skip(written + 1));
                        written = written + 1;
                    }
                    cursor = if first {
                        TextCursor { index: cursor.index, cr_sent: true }
                    } else {
                        TextCursor { index: cursor.index + 1, cr_sent: false }
                    };
                },
                Poll::Pending => {
                    proof {
                        lemma_burst_stalled(added, out, written, status);
                        added = added.push(Event::Load { reg: Register::Lsr, value: status });
                        assert(self.log() =~= before + added);
                    }
                    room = false;
                },
            }
        }
        proof {
            if room {
                lemma_remaining_front(cursor, bytes@);
                assert(out.take(written) =~= out);
            }
            assert((before + added).skip(before.len() as int) =~= added);
        }
        cursor
    }

    /// Does nothing: the driver holds no bytes back that a flush could send.
    pub fn flush(&mut self)
        ensures
            final(self).timeout() == old(self).timeout(),
            final(self).waiting_since() == old(self).waiting_since(),
            final(self).log() == old(self).log(),
            final(self).machine() == old(self).machine(),
            final(self).origin() == old(self).origin(),
            final(self).states() == old(self).states(),
    {
    }
}

} // verus!
