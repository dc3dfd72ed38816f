//! Length-prefixed framing codec (4-byte little-endian length + payload).

use crate::io::IoFailure;
use crate::io::IoFailureView;
use crate::text::decimal;
use crate::text;
use vstd::prelude::*;
use vstd::slice::*;
use vstd::string::*;

verus! {

/// Default absolute upper bound on a single frame payload: 1 MiB.
pub const DEFAULT_MAX_FRAME_BYTES: usize = 1_048_576;

/// Bytes of the length prefix.
pub const HEADER_LEN: usize = 4;

/// Errors raised by the framing codec.
#[derive(Debug, PartialEq, Eq)]
pub enum FrameError {
    /// The payload length exceeded the configured maximum.
    TooLarge { len: usize, max: usize },
    /// The connection closed before a full header or payload was read.
    UnexpectedEof { read: usize, needed: usize },
    /// The JSON payload could not be (de)serialised; the codec's message.
    Json(String),
    /// An underlying I/O failure.
    Io(IoFailure),
}

/// What a [`FrameError`] says.
pub enum FrameErrorView {
    TooLarge { len: usize, max: usize },
    UnexpectedEof { read: usize, needed: usize },
    Json(Seq<char>),
    Io(IoFailureView),
}

impl View for FrameError {
    type V = FrameErrorView;

    open spec fn view(&self) -> FrameErrorView {
        match self {
            FrameError::TooLarge { len, max } => FrameErrorView::TooLarge { len: *len, max: *max },
            FrameError::UnexpectedEof { read, needed } => FrameErrorView::UnexpectedEof {
                read: *read,
                needed: *needed,
            },
            FrameError::Json(t) => FrameErrorView::Json(t@),
            FrameError::Io(source) => FrameErrorView::Io(source@),
        }
    }
}

/// The message of a framing error.
pub open spec fn frame_error_message(e: FrameErrorView) -> Seq<char> {
    match e {
        FrameErrorView::TooLarge { len, max } => "frame length "@ + text::decimal_text(len as nat)
            + " too large (max "@ + text::decimal_text(max as nat) + " bytes)"@,
        FrameErrorView::UnexpectedEof { read, needed } => "connection closed: read "@
            + text::decimal_text(read as nat) + " of "@ + text::decimal_text(needed as nat) + " bytes"@,
        FrameErrorView::Json(t) => "json codec error: "@ + t,
        FrameErrorView::Io(source) => "io error: "@ + source.text,
    }
}

impl FrameError {
    /// The message of the error.
    pub fn message(&self) -> (r: String)
        ensures
            r@ == frame_error_message(self@),
    {
        match self {
            FrameError::TooLarge { len, max } => "frame length ".to_owned().concat(
                decimal(*len as u64).as_str(),
            ).concat(" too large (max ").concat(decimal(*max as u64).as_str()).concat(" bytes)"),
            FrameError::UnexpectedEof { read, needed } => "connection closed: read ".to_owned().concat(
                decimal(*read as u64).as_str(),
            ).concat(" of ").concat(decimal(*needed as u64).as_str()).concat(" bytes"),
            FrameError::Json(t) => "json codec error: ".to_owned().concat(t.as_str()),
            FrameError::Io(source) => "io error: ".to_owned().concat(source.text.as_str()),
        }
    }
}

/// `n` as four bytes, lowest first.
pub open spec fn le_bytes(n: int) -> Seq<u8> {
    seq![
        (n % 0x100) as u8,
        (n / 0x100 % 0x100) as u8,
        (n / 0x1_0000 % 0x100) as u8,
        (n / 0x100_0000 % 0x100) as u8,
    ]
}

/// The number that four bytes make, lowest first.
pub open spec fn le_value(b: Seq<u8>) -> int {
    b[0] + 0x100 * b[1] + 0x1_0000 * b[2] + 0x100_0000 * b[3]
}

/// The length that the header of a payload declares: a payload too long for
/// four bytes declares the most that they can say.
pub open spec fn declared_len(len: int) -> int {
    if len <= u32::MAX {
        len
    } else {
        u32::MAX as int
    }
}

/// A payload with its length prefix.
pub open spec fn framed(payload: Seq<u8>) -> Seq<u8> {
    le_bytes(declared_len(payload.len() as int)) + payload
}

/// Writes a payload with a 4-byte LE length prefix. A payload over the limit
/// writes nothing.
pub fn write_frame_bytes(writer: &mut Vec<u8>, payload: &[u8], max_frame: usize) -> (r: Result<
    (),
    FrameError,
>)
    ensures
        if payload@.len() > max_frame {
            &&& r matches Err(e) && e@ == (FrameErrorView::TooLarge {
                len: payload@.len() as usize,
                max: max_frame,
            })
            &&& final(writer)@ == old(writer)@
        } else {
            &&& r is Ok
            &&& final(writer)@ == old(writer)@ + framed(payload@)
        },
{
    let len: usize = payload.len();
    if len > max_frame {
        return Err(FrameError::TooLarge { len, max: max_frame });
    }
    let declared: u64 = if len as u64 <= u32::MAX as u64 {
        len as u64
    } else {
        u32::MAX as u64
    };
    writer.push((declared % 0x100) as u8);
    writer.push((declared / 0x100 % 0x100) as u8);
    writer.push((declared / 0x1_0000 % 0x100) as u8);
    writer.push((declared / 0x100_0000 % 0x100) as u8);
    let mut tail = slice_to_vec(payload);
    writer.append(&mut tail);
    assert(writer@ =~= old(writer)@ + framed(payload@));
    Ok(())
}

/// Writes one framed payload under [`DEFAULT_MAX_FRAME_BYTES`].
pub fn write_frame(writer: &mut Vec<u8>, payload: &[u8]) -> (r: Result<(), FrameError>)
    ensures
        if payload@.len() > DEFAULT_MAX_FRAME_BYTES {
            &&& r matches Err(e) && e@ == (FrameErrorView::TooLarge {
                len: payload@.len() as usize,
                max: DEFAULT_MAX_FRAME_BYTES,
            })
            &&& final(writer)@ == old(writer)@
        } else {
            &&& r is Ok
            &&& final(writer)@ == old(writer)@ + framed(payload@)
        },
{
    write_frame_bytes(writer, payload, DEFAULT_MAX_FRAME_BYTES)
}

/// What is at the start of a stream of bytes that ends where they end.
pub enum Parsed {
    /// The stream ends inside the header or the payload.
    Short { read: int, needed: int },
    /// The header declares more than the limit.
    Oversized { len: int },
    /// A whole frame, and what follows it.
    Frame { payload: Seq<u8>, rest: Seq<u8> },
}

/// Reads the start of a stream.
pub open spec fn parsed(input: Seq<u8>, max_frame: int) -> Parsed {
    if input.len() < HEADER_LEN {
        Parsed::Short { read: input.len() as int, needed: HEADER_LEN as int }
    } else {
        let len = le_value(input);
        if len > max_frame {
            Parsed::Oversized { len }
        } else if input.len() < HEADER_LEN + len {
            Parsed::Short { read: input.len() - HEADER_LEN, needed: len }
        } else {
            Parsed::Frame {
                payload: input.subrange(HEADER_LEN as int, HEADER_LEN + len),
                rest: input.skip(HEADER_LEN + len),
            }
        }
    }
}

/// Whether `r` and what is left of the stream are what `p` says. A frame that
/// cannot be read uses up what was read of it.
pub open spec fn read_as(p: Parsed, max_frame: usize, r: Result<Vec<u8>, FrameError>) -> bool {
    match p {
        Parsed::Short { read, needed } => r matches Err(e) && e@ == (FrameErrorView::UnexpectedEof {
            read: read as usize,
            needed: needed as usize,
        }),
        Parsed::Oversized { len } => r matches Err(e) && e@ == (FrameErrorView::TooLarge {
            len: len as usize,
            max: max_frame,
        }),
        Parsed::Frame { payload, .. } => r matches Ok(bytes) && bytes@ == payload,
    }
}

/// How far a stream of one frame has been read.
#[derive(Debug, Clone, Copy, PartialEq, Eq, Structural)]
pub enum ReadStep {
    /// Read at most this many bytes more.
    Want(usize),
    /// The declared length is over the limit.
    Oversized(usize),
    /// The frame is there.
    Complete,
}

/// What to do after `input` was read.
pub open spec fn read_step(input: Seq<u8>, max_frame: int) -> ReadStep {
    if input.len() < HEADER_LEN {
        ReadStep::Want((HEADER_LEN - input.len()) as usize)
    } else if le_value(input) > max_frame {
        ReadStep::Oversized(le_value(input) as usize)
    } else if input.len() < HEADER_LEN + le_value(input) {
        ReadStep::Want((HEADER_LEN + le_value(input) - input.len()) as usize)
    } else {
        ReadStep::Complete
    }
}

/// Reads one frame from a stream that hands its bytes out piece by piece.
#[derive(Debug, PartialEq, Eq)]
pub struct FrameReader {
    max_frame: usize,
    header: Vec<u8>,
    payload: Vec<u8>,
}

/// What a [`FrameReader`] knows.
pub struct FrameReaderView {
    pub max_frame: usize,
    /// The bytes read so far.
    pub input: Seq<u8>,
}

impl View for FrameReader {
    type V = FrameReaderView;

    closed spec fn view(&self) -> FrameReaderView {
        FrameReaderView { max_frame: self.max_frame, input: self.header@ + self.payload@ }
    }
}

impl FrameReader {
    /// The header comes first, and nothing beyond the frame was read.
    pub closed spec fn wf(&self) -> bool {
        &&& self.header@.len() <= HEADER_LEN
        &&& self.header@.len() < HEADER_LEN ==> self.payload@.len() == 0
        &&& self.payload@.len() > 0 ==> le_value(self.header@) <= self.max_frame
            && self.payload@.len() <= le_value(self.header@)
    }

    /// A reader that has read nothing.
    pub fn new(max_frame: usize) -> (r: Self)
        ensures
            r.wf(),
            r@.max_frame == max_frame,
            r@.input.len() == 0,
    {
        FrameReader { max_frame, header: Vec::new(), payload: Vec::new() }
    }

    fn declared(&self) -> (r: u32)
        requires
            self.header@.len() == HEADER_LEN,
        ensures
            r == le_value(self.header@),
    {
        let a = self.header[0];
        let b = self.header[1];
        let c = self.header[2];
        let d = self.header[3];
        a as u32 + 0x100 * (b as u32) + 0x1_0000 * (c as u32) + 0x100_0000 * (d as u32)
    }

    /// What to do next.
    pub fn step(&self) -> (r: ReadStep)
        requires
            self.wf(),
        ensures
            r == read_step(self@.input, self@.max_frame as int),
    {
        let got: usize = self.header.len();
        if got < HEADER_LEN {
            return ReadStep::Want(HEADER_LEN - got);
        }
        let len: usize = self.declared() as usize;
        assert(le_value(self@.input) == le_value(self.header@));
        if len > self.max_frame {
            ReadStep::Oversized(len)
        } else if self.payload.len() < len {
            ReadStep::Want(len - self.payload.len())
        } else {
            ReadStep::Complete
        }
    }

    /// Takes in the next bytes of the stream, no more than were wanted.
    pub fn feed(&mut self, bytes: &[u8])
        requires
            old(self).wf(),
            read_step(old(self)@.input, old(self)@.max_frame as int) matches ReadStep::Want(n)
                && bytes@.len() <= n,
        ensures
            final(self).wf(),
            final(self)@.max_frame == old(self)@.max_frame,
            final(self)@.input == old(self)@.input + bytes@,
    {
        let mut more = slice_to_vec(bytes);
        if self.header.len() < HEADER_LEN {
            self.header.append(&mut more);
        } else {
            assert(le_value(self@.input) == le_value(self.header@));
            self.payload.append(&mut more);
        }
        assert(self@.input =~= old(self)@.input + bytes@);
    }

    /// Ends the reading: the payload if the frame is complete, else why it is
    /// not, the stream having ended here.
    pub fn finish(self) -> (r: Result<Vec<u8>, FrameError>)
        requires
            self.wf(),
        ensures
            read_as(parsed(self@.input, self@.max_frame as int), self@.max_frame, r),
    {
        let got: usize = self.header.len();
        let ghost input = self@.input;
        if got < HEADER_LEN {
            return Err(FrameError::UnexpectedEof { read: got, needed: HEADER_LEN });
        }
        let len: usize = self.declared() as usize;
        assert(le_value(input) == le_value(self.header@));
        if len > self.max_frame {
            Err(FrameError::TooLarge { len, max: self.max_frame })
        } else if self.payload.len() < len {
            Err(FrameError::UnexpectedEof { read: self.payload.len(), needed: len })
        } else {
            assert(input.subrange(HEADER_LEN as int, HEADER_LEN + len) =~= self.payload@);
            Ok(self.payload)
        }
    }
}

/// Takes the bytes that `reader` wants off `input`. Nothing is left to want
/// unless the input is used up.
fn fill(reader: &mut FrameReader, input: &mut &[u8])
    requires
        old(reader).wf(),
    ensures
        final(reader).wf(),
        final(reader)@.max_frame == old(reader)@.max_frame,
        final(reader)@.input + final(input)@ == old(reader)@.input + old(input)@,
        read_step(old(reader)@.input, old(reader)@.max_frame as int) matches ReadStep::Want(n)
            ==> final(reader)@.input.len() == old(reader)@.input.len() + (if n <= old(input)@.len() {
            n as int
        } else {
            old(input)@.len() as int
        }),
        !(read_step(old(reader)@.input, old(reader)@.max_frame as int) is Want) ==> *final(reader)
            == *old(reader) && *final(input) == *old(input),
{
    if let ReadStep::Want(n) = reader.step() {
        let all: &[u8] = *input;
        let k: usize = if n <= all.len() {
            n
        } else {
            all.len()
        };
        reader.feed(slice_subrange(all, 0, k));
        *input = slice_subrange(all, k, all.len());
        assert(reader@.input + input@ =~= old(reader)@.input + old(input)@);
    }
}

/// Reads one framed payload off the front of `reader`.
pub fn read_frame_bytes(reader: &mut &[u8], max_frame: usize) -> (r: Result<Vec<u8>, FrameError>)
    ensures
        read_as(parsed(old(reader)@, max_frame as int), max_frame, r),
        match parsed(old(reader)@, max_frame as int) {
            Parsed::Short { .. } => final(reader)@.len() == 0,
            Parsed::Oversized { .. } => final(reader)@ == old(reader)@.skip(HEADER_LEN as int),
            Parsed::Frame { rest, .. } => final(reader)@ == rest,
        },
        r matches Ok(payload) ==> {
            &&& payload@.len() <= max_frame
            &&& old(reader)@.len() >= 4 + payload@.len()
            &&& le_value(old(reader)@) == payload@.len()
            &&& payload@ == old(reader)@.subrange(4, 4int + payload@.len())
            &&& final(reader)@ == old(reader)@.skip(4int + payload@.len())
        },
        r matches Err(e) ==> e@ is UnexpectedEof || e@ is TooLarge,
{
    let mut frame = FrameReader::new(max_frame);
    let ghost all = reader@;
    assert(frame@.input + all =~= all);
    fill(&mut frame, reader);
    let ghost head = frame@.input;
    assert(all.take(head.len() as int) =~= head);
    fill(&mut frame, reader);
    let ghost taken = frame@.input;
    proof {
        assert(all.take(taken.len() as int) =~= taken);
        assert(all.skip(taken.len() as int) =~= reader@);
        if all.len() >= HEADER_LEN {
            assert(le_value(taken) == le_value(all));
            assert(le_value(head) == le_value(all));
            if le_value(all) <= max_frame && all.len() >= HEADER_LEN + le_value(all) {
                assert(taken.len() == HEADER_LEN + le_value(all));
                assert(taken.subrange(HEADER_LEN as int, taken.len() as int) =~= all.subrange(
                    HEADER_LEN as int,
                    HEADER_LEN + le_value(all),
                ));
            }
        } else {
            assert(taken.len() == all.len());
        }
    }
    frame.finish()
}

/// Reads one framed payload under [`DEFAULT_MAX_FRAME_BYTES`].
pub fn read_frame(reader: &mut &[u8]) -> (r: Result<Vec<u8>, FrameError>)
    ensures
        read_as(
            parsed(old(reader)@, DEFAULT_MAX_FRAME_BYTES as int),
            DEFAULT_MAX_FRAME_BYTES,
            r,
        ),
        match parsed(old(reader)@, DEFAULT_MAX_FRAME_BYTES as int) {
            Parsed::Short { .. } => final(reader)@.len() == 0,
            Parsed::Oversized { .. } => final(reader)@ == old(reader)@.skip(HEADER_LEN as int),
            Parsed::Frame { rest, .. } => final(reader)@ == rest,
        },
{
    read_frame_bytes(reader, DEFAULT_MAX_FRAME_BYTES)
}

/// Four bytes give back the number that they were made of.
pub proof fn lemma_le_value_of_le_bytes(n: int)
    requires
        0 <= n <= u32::MAX,
    ensures
        le_value(le_bytes(n)) == n,
{
    let a = n % 0x100;
    let b = n / 0x100 % 0x100;
    let c = n / 0x1_0000 % 0x100;
    let d = n / 0x100_0000 % 0x100;
    assert(a + 0x100 * b + 0x1_0000 * c + 0x100_0000 * d == n);
}

/// A frame that was written is read back: the payload, and the bytes after the
/// frame, whatever they are. The limit must admit the payload, and four bytes
/// must be able to say its length.
pub proof fn lemma_frame_round_trip(payload: Seq<u8>, after: Seq<u8>, max_frame: int)
    requires
        payload.len() <= max_frame,
        payload.len() <= u32::MAX,
    ensures
        parsed(framed(payload) + after, max_frame) == (Parsed::Frame { payload, rest: after }),
{
    let input = framed(payload) + after;
    lemma_le_value_of_le_bytes(payload.len() as int);
    assert(le_value(input) == le_value(le_bytes(payload.len() as int)));
    assert(input.subrange(HEADER_LEN as int, HEADER_LEN + payload.len()) =~= payload);
    assert(input.skip(HEADER_LEN + payload.len()) =~= after);
}

/// Frames do not run into each other: two payloads written one after the other
/// are read back as those two.
pub proof fn lemma_frames_in_a_row(first: Seq<u8>, second: Seq<u8>, max_frame: int)
    requires
        first.len() <= max_frame,
        second.len() <= max_frame,
        first.len() <= u32::MAX,
        second.len() <= u32::MAX,
    ensures
        parsed(framed(first) + framed(second), max_frame) == (Parsed::Frame {
            payload: first,
            rest: framed(second),
        }),
        parsed(framed(second), max_frame) == (Parsed::Frame {
            payload: second,
            rest: Seq::empty(),
        }),
{
    lemma_frame_round_trip(first, framed(second), max_frame);
    lemma_frame_round_trip(second, Seq::empty(), max_frame);
    assert(framed(second) + Seq::<u8>::empty() =~= framed(second));
}

/// No frame that is read holds more than the limit, however it was written.
pub proof fn lemma_frames_are_bounded(input: Seq<u8>, max_frame: int)
    ensures
        parsed(input, max_frame) matches Parsed::Frame { payload, .. } ==> payload.len()
            <= max_frame,
{
}

/// However a stream is cut into pieces, reading is done exactly when the bytes
/// so far settle the frame: nothing is wanted once they hold it or declare too
/// much, and no byte beyond the frame is ever wanted.
pub proof fn lemma_wanted_stays_within_frame(input: Seq<u8>, max_frame: usize)
    ensures
        read_step(input, max_frame as int) matches ReadStep::Want(n) ==> {
            &&& n > 0
            &&& parsed(input, max_frame as int) is Short
            &&& input.len() + n <= HEADER_LEN || input.len() + n == HEADER_LEN + le_value(input)
        },
        !(read_step(input, max_frame as int) is Want) ==> !(parsed(input, max_frame as int) is Short),
{
}

/// The lowest byte of a length comes first: a length below 256 is its own first
/// byte, and a byte put in front of three others counts once where those count
/// 256 times what they counted alone.
pub proof fn lemma_lowest_byte_first(n: int, low: u8, b: Seq<u8>)
    requires
        0 <= n < 0x100_0000,
        b.len() == 4,
        b[3] == 0,
    ensures
        n < 0x100 ==> le_bytes(n) == seq![n as u8, 0u8, 0u8, 0u8],
        le_bytes(0x100 * n + low) == seq![low] + le_bytes(n).take(3),
        le_value(seq![low] + b.take(3)) == low + 0x100 * le_value(b),
{
    let all = seq![low] + b.take(3);
    assert(all[0] == low && all[1] == b[0] && all[2] == b[1] && all[3] == b[2]);
    let m = 0x100 * n + low;
    assert(m % 0x100 == low);
    assert(m / 0x100 == n);
    assert(m / 0x1_0000 == n / 0x100);
    assert(m / 0x100_0000 == n / 0x1_0000);
    assert(le_bytes(m) =~= seq![low] + le_bytes(n).take(3));
}

/// A frame is four bytes that say how long the payload is, and the payload.
pub proof fn lemma_frame_is_length_and_payload(payload: Seq<u8>)
    ensures
        framed(payload).len() == 4 + payload.len(),
        framed(payload).skip(4) == payload,
        payload.len() <= u32::MAX ==> le_value(framed(payload)) == payload.len(),
        payload.len() > u32::MAX ==> le_value(framed(payload)) == u32::MAX,
{
    lemma_le_value_of_le_bytes(declared_len(payload.len() as int));
    assert(framed(payload).skip(4) =~= payload);
    assert(le_value(framed(payload)) == le_value(le_bytes(declared_len(payload.len() as int))));
}

/// What is read of a stream is what stands there: the payload as long as the
/// header says, within the limit, and the rest untouched.
pub proof fn lemma_read_frame_stands_in_stream(input: Seq<u8>, max_frame: int)
    ensures
        parsed(input, max_frame) matches Parsed::Frame { payload, rest } ==> {
            &&& input.len() >= 4
            &&& le_value(input) == payload.len()
            &&& payload.len() <= max_frame
            &&& input == input.take(4) + payload + rest
        },
{
    if let Parsed::Frame { payload, rest } = parsed(input, max_frame) {
        assert(input =~= input.take(4) + payload + rest);
    }
}

/// A frame that was cut off is short, and told how much of it was there: of the
/// header as long as that is not complete, else of the payload.
pub proof fn lemma_cut_frame_is_short(payload: Seq<u8>, max_frame: int, k: int)
    requires
        payload.len() <= max_frame,
        payload.len() <= u32::MAX,
        0 <= k < 4 + payload.len(),
    ensures
        parsed(framed(payload).take(k), max_frame) == (if k < 4 {
            Parsed::Short { read: k, needed: 4 }
        } else {
            Parsed::Short { read: k - 4, needed: payload.len() as int }
        }),
{
    lemma_frame_is_length_and_payload(payload);
    if k >= 4 {
        assert(le_value(framed(payload).take(k)) == le_value(framed(payload)));
    }
}

/// A frame over the limit is refused with the length it declares, as soon as its
/// header is there and however much of it follows.
pub proof fn lemma_oversized_frame_is_refused(payload: Seq<u8>, max_frame: int, k: int)
    requires
        payload.len() > max_frame,
        payload.len() <= u32::MAX,
        4 <= k <= 4 + payload.len(),
    ensures
        parsed(framed(payload).take(k), max_frame) == (Parsed::Oversized {
            len: payload.len() as int,
        }),
{
    lemma_frame_is_length_and_payload(payload);
    assert(le_value(framed(payload).take(k)) == le_value(framed(payload)));
}

/// The reader's next step and what a stream that ends here comes to agree: it is
/// complete exactly if a frame is there, refuses exactly what is over the limit,
/// with the declared length, and wants exactly the bytes that the header or the
/// payload lacks.
pub proof fn lemma_next_step_is_exact(input: Seq<u8>, max_frame: usize)
    ensures
        read_step(input, max_frame as int) is Complete <==> parsed(input, max_frame as int) is Frame,
        parsed(input, max_frame as int) matches Parsed::Oversized { len } ==> len > max_frame && (
        0 <= len <= usize::MAX ==> read_step(input, max_frame as int) == ReadStep::Oversized(
            len as usize,
        )),
        read_step(input, max_frame as int) is Oversized ==> parsed(input, max_frame as int)
            is Oversized,
        input.len() < 4 ==> read_step(input, max_frame as int) == ReadStep::Want(
            (4 - input.len()) as usize,
        ),
        parsed(input, max_frame as int) matches Parsed::Short { read, needed } ==> read_step(
            input,
            max_frame as int,
        ) == ReadStep::Want((needed - read) as usize),
{
}

/// The result of reading says what was parsed: the payload, or the numbers of the
/// error.
pub proof fn lemma_result_says_what_was_parsed(
    p: Parsed,
    max_frame: usize,
    r: Result<Vec<u8>, FrameError>,
)
    requires
        read_as(p, max_frame, r),
    ensures
        r is Ok <==> p is Frame,
        p matches Parsed::Frame { payload, .. } ==> (r matches Ok(bytes) && bytes@ == payload),
        p matches Parsed::Short { read, needed } ==> (r matches Err(
            FrameError::UnexpectedEof { read: a, needed: b },
        ) && a == read as usize && b == needed as usize),
        p matches Parsed::Oversized { len } ==> (r matches Err(
            FrameError::TooLarge { len: a, max },
        ) && a == len as usize && max == max_frame),
{
}

/// The default limit is a mebibyte, and the length prefix four bytes.
pub proof fn lemma_default_limit(payload: Seq<u8>, after: Seq<u8>)
    requires
        payload.len() <= 1024 * 1024,
    ensures
        parsed(framed(payload) + after, DEFAULT_MAX_FRAME_BYTES as int) == (Parsed::Frame {
            payload,
            rest: after,
        }),
        DEFAULT_MAX_FRAME_BYTES == 1024 * 1024,
        HEADER_LEN == 4,
{
    lemma_frame_round_trip(payload, after, DEFAULT_MAX_FRAME_BYTES as int);
}

/// Messages say the numbers and texts of the error.
pub proof fn lemma_frame_messages(a: usize, b: usize, t: Seq<char>, source: IoFailureView)
    ensures
        frame_error_message(FrameErrorView::TooLarge { len: a, max: b }) == "frame length "@
            + text::decimal_text(a as nat) + " too large (max "@ + text::decimal_text(b as nat)
            + " bytes)"@,
        frame_error_message(FrameErrorView::UnexpectedEof { read: a, needed: b })
            == "connection closed: read "@ + text::decimal_text(a as nat) + " of "@
            + text::decimal_text(b as nat) + " bytes"@,
        frame_error_message(FrameErrorView::Json(t)) == "json codec error: "@ + t,
        frame_error_message(FrameErrorView::Io(source)) == "io error: "@ + source.text,
{
}

} // verus!
