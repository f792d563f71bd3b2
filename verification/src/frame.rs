//! Frames on the wire: a length of four bytes, most significant first, and
//! then a body of that many bytes.

use crate::text::{decimal, push_decimal};
use vstd::prelude::*;
use vstd::std_specs::convert::FromSpecImpl;
use vstd::string::StringExecFns;

verus! {

/// The largest body that a frame may carry, in bytes: 16 MiB.
pub const MAX_FRAME_SIZE: u32 = 16 * 1024 * 1024;

/// The bytes before the body of a frame.
pub const HEADER_LEN: usize = 4;

/// `std::io::Error`, the failure of the transport underneath a frame. It is
/// carried through as it is; nothing is known of what it holds.
#[verifier::external_type_specification]
#[verifier::external_body]
pub struct ExIoError(std::io::Error);

/// Why a frame could not be written or read.
#[derive(Debug)]
pub enum FrameError {
    /// The transport failed.
    Io(std::io::Error),
    /// A body of this many bytes is more than a frame may carry.
    TooLarge(u32),
}

impl From<std::io::Error> for FrameError {
    fn from(err: std::io::Error) -> (e: FrameError) {
        FrameError::Io(err)
    }
}

impl FromSpecImpl<std::io::Error> for FrameError {
    open spec fn obeys_from_spec() -> bool {
        true
    }

    open spec fn from_spec(err: std::io::Error) -> FrameError {
        FrameError::Io(err)
    }
}

/// The four bytes that stand for `n`, most significant first.
pub open spec fn be32(n: u32) -> Seq<u8> {
    seq![
        (n / 0x100_0000) as u8,
        (n / 0x1_0000 % 0x100) as u8,
        (n / 0x100 % 0x100) as u8,
        (n % 0x100) as u8,
    ]
}

/// The number that four bytes stand for, most significant first.
pub open spec fn be32_value(bytes: Seq<u8>) -> int {
    bytes[0] * 0x100_0000 + bytes[1] * 0x1_0000 + bytes[2] * 0x100 + bytes[3]
}

/// The frame that carries `body`.
pub open spec fn frame_of(body: Seq<u8>) -> Seq<u8> {
    be32(body.len() as u32) + body
}

/// The length reported for a body that is too large: its own, or the largest
/// that the four bytes can say where it is beyond even that.
pub open spec fn reported_len(len: nat) -> u32 {
    if len <= u32::MAX {
        len as u32
    } else {
        u32::MAX
    }
}

/// Four bytes stand for the number that they were made from, and a number
/// stands in exactly four bytes.
pub proof fn lemma_be32_round_trip(n: u32)
    ensures
        be32(n).len() == 4,
        be32_value(be32(n)) == n,
{
}

/// The four bytes that stand for `n`, most significant first.
pub fn encode_length(n: u32) -> (bytes: [u8; 4])
    ensures
        bytes@ == be32(n),
{
    let bytes = [
        (n / 0x100_0000) as u8,
        (n / 0x1_0000 % 0x100) as u8,
        (n / 0x100 % 0x100) as u8,
        (n % 0x100) as u8,
    ];
    assert(bytes@ =~= be32(n));
    bytes
}

/// The number that the four bytes of a header stand for.
pub fn decode_length(header: &[u8; 4]) -> (n: u32)
    ensures
        n == be32_value(header@),
{
    (header[0] as u32) * 0x100_0000 + (header[1] as u32) * 0x1_0000 + (header[2] as u32) * 0x100
        + (header[3] as u32)
}

/// The length that a header announces, or `TooLarge` with that length where
/// it is more than a frame may carry. The body of a frame that is too large
/// is not to be read.
pub fn frame_length(header: &[u8; 4]) -> (r: Result<u32, FrameError>)
    ensures
        be32_value(header@) <= MAX_FRAME_SIZE ==> r == Ok::<u32, FrameError>(
            be32_value(header@) as u32,
        ),
        be32_value(header@) > MAX_FRAME_SIZE ==> r == Err::<u32, FrameError>(
            FrameError::TooLarge(be32_value(header@) as u32),
        ),
{
    let len = decode_length(header);
    if len > MAX_FRAME_SIZE {
        Err(FrameError::TooLarge(len))
    } else {
        Ok(len)
    }
}

/// The frame that carries `body`, or `TooLarge` where the body is more than
/// a frame may carry.
pub fn write_frame(body: &[u8]) -> (r: Result<Vec<u8>, FrameError>)
    ensures
        body@.len() <= MAX_FRAME_SIZE ==> (r matches Ok(frame) && frame@ == frame_of(body@)),
        body@.len() > MAX_FRAME_SIZE ==> r == Err::<Vec<u8>, FrameError>(
            FrameError::TooLarge(reported_len(body@.len())),
        ),
{
    let len = body.len();
    if len > MAX_FRAME_SIZE as usize {
        let reported: u32 = if len > u32::MAX as usize {
            u32::MAX
        } else {
            len as u32
        };
        return Err(FrameError::TooLarge(reported));
    }
    let header = encode_length(len as u32);
    let mut frame: Vec<u8> = Vec::with_capacity(len + HEADER_LEN);
    frame.push(header[0]);
    frame.push(header[1]);
    frame.push(header[2]);
    frame.push(header[3]);
    let mut i: usize = 0;
    while i < len
        invariant
            len == body@.len(),
            i <= len,
            frame@ == be32(len as u32) + body@.take(i as int),
        decreases len - i,
    {
        frame.push(body[i]);
        proof {
            assert(body@.take(i + 1) == body@.take(i as int).push(body@[i as int]));
        }
        i += 1;
    }
    proof {
        assert(body@.take(len as int) == body@);
    }
    Ok(frame)
}

/// What the front of a byte stream holds.
pub enum Framed {
    /// A whole frame with this body; `used` bytes of the stream were its.
    Frame { body: Vec<u8>, used: usize },
    /// Not yet a whole frame: the stream has to grow before it can be read.
    Partial,
}

/// What the front of `stream` holds, as a value of the mathematical model:
/// the body and the bytes used, nothing where the frame is not whole yet.
pub open spec fn front_frame(stream: Seq<u8>) -> Option<(Seq<u8>, int)> {
    if stream.len() < 4 {
        None
    } else {
        let len = be32_value(stream.take(4));
        if stream.len() < 4 + len {
            None
        } else {
            Some((stream.subrange(4, 4 + len), 4 + len))
        }
    }
}

/// Reads the frame at the front of `stream`. A header that announces more
/// than a frame may carry is refused with `TooLarge` whatever follows it, and
/// no body is looked at. Otherwise the body comes back once all of it is
/// there.
pub fn read_frame(stream: &[u8]) -> (r: Result<Framed, FrameError>)
    ensures
        stream@.len() >= 4 && be32_value(stream@.take(4)) > MAX_FRAME_SIZE ==> r == Err::<
            Framed,
            FrameError,
        >(FrameError::TooLarge(be32_value(stream@.take(4)) as u32)),
        !(stream@.len() >= 4 && be32_value(stream@.take(4)) > MAX_FRAME_SIZE) ==> match r {
            Ok(Framed::Frame { body, used }) => front_frame(stream@) == Some((body@, used as int)),
            Ok(Framed::Partial) => front_frame(stream@) is None,
            Err(_) => false,
        },
{
    if stream.len() < HEADER_LEN {
        return Ok(Framed::Partial);
    }
    let header = [stream[0], stream[1], stream[2], stream[3]];
    assert(header@ =~= stream@.take(4));
    let len = match frame_length(&header) {
        Ok(len) => len as usize,
        Err(e) => {
            return Err(e);
        },
    };
    if stream.len() - HEADER_LEN < len {
        return Ok(Framed::Partial);
    }
    let mut body: Vec<u8> = Vec::with_capacity(len);
    let mut i: usize = 0;
    while i < len
        invariant
            i <= len <= MAX_FRAME_SIZE,
            HEADER_LEN + len <= stream@.len(),
            body@ == stream@.subrange(4, 4 + i),
        decreases len - i,
    {
        body.push(stream[HEADER_LEN + i]);
        proof {
            assert(stream@.subrange(4, 4 + i + 1) == stream@.subrange(4, 4 + i).push(
                stream@[4 + i],
            ));
        }
        i += 1;
    }
    Ok(Framed::Frame { body, used: HEADER_LEN + len })
}

/// A frame that was written is read back as it was: whatever follows it on
/// the stream, the body that comes out is the body that went in, and the
/// bytes used are those of the frame.
pub proof fn lemma_frame_round_trip(body: Seq<u8>, rest: Seq<u8>)
    requires
        body.len() <= MAX_FRAME_SIZE,
    ensures
        be32_value((frame_of(body) + rest).take(4)) == body.len(),
        front_frame(frame_of(body) + rest) == Some((body, frame_of(body).len() as int)),
{
    let stream = frame_of(body) + rest;
    lemma_be32_round_trip(body.len() as u32);
    assert(stream.take(4) =~= be32(body.len() as u32));
    assert(stream.subrange(4, 4 + body.len() as int) =~= body);
}

/// The text that `std::io::Error` shows of itself through `Display`. Nothing
/// is claimed of it.
#[verifier::external_body]
fn describe_io_error(err: &std::io::Error) -> String {
    format!("{}", err)
}

impl FrameError {
    /// Whether `text` shows this error: a frame that is too large is shown
    /// with its length, and a failure of the transport as `IO error: `
    /// followed by what the transport says of it.
    pub open spec fn shown_as(self, text: Seq<char>) -> bool {
        match self {
            FrameError::Io(_) => "IO error: "@.is_prefix_of(text),
            FrameError::TooLarge(size) => text == "Frame too large: "@ + decimal(size as nat)
                + " bytes"@,
        }
    }

    /// The error as shown to people.
    pub fn to_string(&self) -> (s: String)
        ensures
            self.shown_as(s@),
    {
        match self {
            FrameError::Io(e) => {
                let mut s = "IO error: ".to_owned();
                let cause = describe_io_error(e);
                s.append(cause.as_str());
                s
            },
            FrameError::TooLarge(size) => {
                let mut s = "Frame too large: ".to_owned();
                push_decimal(&mut s, *size as u64);
                s.append(" bytes");
                s
            },
        }
    }
}

} // verus!
