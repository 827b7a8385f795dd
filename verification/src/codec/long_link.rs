//! The long-link wire format and its default codec.
//!
//! A frame is a fixed header of 14 bytes followed by the payload. The header
//! holds, most significant byte first, the protocol version (4 bytes), the
//! command id (4), the task id (4) and the payload's length (2).

use crate::buffer::{lemma_wrote_twice, AutoBuffer};
use vstd::prelude::*;
use vstd::slice::slice_subrange;

verus! {

/// How an attempt to decode one frame ended.
#[derive(Debug, Clone, Copy, PartialEq, Eq, Structural)]
pub enum DecodeStatus {
    /// A whole frame was decoded.
    Success,
    /// The bytes violate the protocol.
    Fail,
    /// More bytes are needed before a frame can be decoded.
    Continue,
}

/// Names the command that a frame carries.
pub type CmdId = u32;

/// Ties a response to the request that it answers.
pub type TaskId = u32;

/// The task id that frames of the identify exchange carry.
pub const IDENTIFY_CHECKER_TASK_ID: TaskId = 0xFFFFFFFE;

/// The protocol version of a default header.
pub const DEFAULT_VERSION: u32 = 100;

/// The length of a header on the wire: three fields of four bytes and one of
/// two.
pub const DEFAULT_HEADER_LEN: usize = 4 + 4 + 4 + 2;

/// The header in front of every payload.
#[derive(Debug, Clone, Copy, PartialEq, Eq, Structural)]
pub struct MsgHeader {
    pub version: u32,
    pub cmd_id: CmdId,
    pub task_id: TaskId,
    pub body_len: u16,
}

/// Why bytes do not start with a header of the expected version.
#[derive(Debug, Clone, Copy, PartialEq, Eq, Structural)]
pub enum ParseHeaderError {
    /// Fewer bytes than a header has.
    Underlength,
    /// The version field holds another version than the expected one.
    VersionMismatch,
}

/// What stands at the front of a stream of received bytes.
pub enum Decoded {
    /// Not yet a whole frame.
    Continue,
    /// A header of another protocol version.
    Fail,
    /// A whole frame.
    Frame { cmd_id: CmdId, task_id: TaskId, body: Seq<u8> },
}

/// The four bytes that hold `value`, most significant first.
pub open spec fn u32_be(value: u32) -> Seq<u8> {
    seq![
        (value / 0x100_0000) as u8,
        (value / 0x1_0000 % 0x100) as u8,
        (value / 0x100 % 0x100) as u8,
        (value % 0x100) as u8,
    ]
}

/// The two bytes that hold `value`, most significant first.
pub open spec fn u16_be(value: u16) -> Seq<u8> {
    seq![(value / 0x100) as u8, (value % 0x100) as u8]
}

/// The value that the four bytes of `bytes` from `at` on hold, most
/// significant first.
pub open spec fn be_u32(bytes: Seq<u8>, at: int) -> u32
    recommends
        0 <= at,
        at + 4 <= bytes.len(),
{
    (bytes[at] * 0x100_0000 + bytes[at + 1] * 0x1_0000 + bytes[at + 2] * 0x100 + bytes[at
        + 3]) as u32
}

/// The value that the two bytes of `bytes` from `at` on hold, most
/// significant first.
pub open spec fn be_u16(bytes: Seq<u8>, at: int) -> u16
    recommends
        0 <= at,
        at + 2 <= bytes.len(),
{
    (bytes[at] * 0x100 + bytes[at + 1]) as u16
}

/// The 14 bytes of a header on the wire.
pub open spec fn header_bytes(header: MsgHeader) -> Seq<u8> {
    u32_be(header.version) + u32_be(header.cmd_id) + u32_be(header.task_id) + u16_be(
        header.body_len,
    )
}

/// The header that the first 14 bytes of `input` hold.
pub open spec fn header_at(input: Seq<u8>) -> MsgHeader
    recommends
        input.len() >= DEFAULT_HEADER_LEN,
{
    MsgHeader {
        version: be_u32(input, 0),
        cmd_id: be_u32(input, 4),
        task_id: be_u32(input, 8),
        body_len: be_u16(input, 12),
    }
}

/// The length field of a frame for a payload of `len` bytes: the low 16 bits
/// of `len`, which is `len` itself up to 65535.
pub open spec fn body_len_field(len: nat) -> u16 {
    (len % 0x1_0000) as u16
}

/// The frame for a message: its header, then its payload.
pub open spec fn frame_bytes(version: u32, cmd_id: CmdId, task_id: TaskId, payload: Seq<u8>) -> Seq<
    u8,
> {
    header_bytes(MsgHeader { version, cmd_id, task_id, body_len: body_len_field(payload.len()) })
        + payload
}

/// The header at the front of `input`, where there is one of protocol version
/// `version`.
pub open spec fn parse_header(input: Seq<u8>, version: u32) -> Result<MsgHeader, ParseHeaderError> {
    if input.len() < DEFAULT_HEADER_LEN {
        Err(ParseHeaderError::Underlength)
    } else if header_at(input).version != version {
        Err(ParseHeaderError::VersionMismatch)
    } else {
        Ok(header_at(input))
    }
}

/// What stands at the front of `input` for a codec of protocol version
/// `version`: nothing yet while the header or the payload is incomplete, a
/// violation where the header names another version, else one frame.
pub open spec fn decoded(input: Seq<u8>, version: u32) -> Decoded {
    match parse_header(input, version) {
        Err(ParseHeaderError::Underlength) => Decoded::Continue,
        Err(ParseHeaderError::VersionMismatch) => Decoded::Fail,
        Ok(header) => if input.len() < DEFAULT_HEADER_LEN + header.body_len {
            Decoded::Continue
        } else {
            Decoded::Frame {
                cmd_id: header.cmd_id,
                task_id: header.task_id,
                body: input.subrange(
                    DEFAULT_HEADER_LEN as int,
                    DEFAULT_HEADER_LEN + header.body_len,
                ),
            }
        },
    }
}

/// What `decode` returns and leaves in the body buffer where `found` stands
/// at the front of its input.
pub open spec fn decode_outcome(
    found: Decoded,
    res: (DecodeStatus, CmdId, TaskId, usize),
    body_before: AutoBuffer,
    body_after: AutoBuffer,
) -> bool {
    match found {
        Decoded::Continue => res == (DecodeStatus::Continue, 0u32, 0u32, 0usize)
            && body_after.same_as(body_before),
        Decoded::Fail => res == (DecodeStatus::Fail, 0u32, 0u32, 0usize) && body_after.same_as(
            body_before,
        ),
        Decoded::Frame { cmd_id, task_id, body } => res == (
            DecodeStatus::Success,
            cmd_id,
            task_id,
            body.len() as usize,
        ) && body_after.wrote(body_before, body),
    }
}

/// A codec of long-link frames.
pub trait Codec: Send {
    /// The bytes that `encode` produces for a message.
    spec fn spec_encode(
        &self,
        cmd_id: CmdId,
        task_id: TaskId,
        payload: Seq<u8>,
        extend: Seq<u8>,
    ) -> Seq<u8>;

    /// What `decode` finds at the front of `input`.
    spec fn spec_decode(&self, input: Seq<u8>) -> Decoded;

    /// Writes the frame for a message at the cursor of `out_buffer`.
    fn encode(
        &self,
        cmd_id: CmdId,
        task_id: TaskId,
        in_buffer: &AutoBuffer,
        extend_buffer: &AutoBuffer,
        out_buffer: &mut AutoBuffer,
    )
        ensures
            final(out_buffer).wrote(
                *old(out_buffer),
                self.spec_encode(cmd_id, task_id, in_buffer@, extend_buffer@),
            ),
    ;

    /// Decodes the frame at the front of `in_buffer`, where a whole one
    /// stands there, and writes its payload at the cursor of `body_buffer`.
    /// Returns the status with the frame's command id, task id and payload
    /// length, which are zero unless the status is `Success`. A decoded frame lies
    /// within the input.
    fn decode(
        &self,
        in_buffer: &AutoBuffer,
        body_buffer: &mut AutoBuffer,
        extend_buffer: &mut AutoBuffer,
    ) -> (res: (DecodeStatus, CmdId, TaskId, usize))
        ensures
            decode_outcome(
                self.spec_decode(in_buffer@),
                res,
                *old(body_buffer),
                *final(body_buffer),
            ),
            res.0 == DecodeStatus::Success ==> DEFAULT_HEADER_LEN + res.3 <= in_buffer@.len(),
    ;
}

impl Default for MsgHeader {
    /// The header of the default version, with every other field zero.
    fn default() -> (header: Self)
        ensures
            header == (MsgHeader { version: DEFAULT_VERSION, cmd_id: 0, task_id: 0, body_len: 0 }),
    {
        MsgHeader { version: DEFAULT_VERSION, cmd_id: 0, task_id: 0, body_len: 0 }
    }
}

impl<'a> TryFrom<&'a [u8]> for MsgHeader {
    type Error = ParseHeaderError;

    /// The header at the front of `bytes`, where there is one of the default
    /// protocol version.
    fn try_from(bytes: &'a [u8]) -> (res: Result<Self, ParseHeaderError>)
        ensures
            res == parse_header(bytes@, DEFAULT_VERSION),
    {
        MsgHeader::parse(bytes, DEFAULT_VERSION)
    }
}

impl<'a> vstd::std_specs::convert::TryFromSpecImpl<&'a [u8]> for MsgHeader {
    open spec fn obeys_try_from_spec() -> bool {
        true
    }

    open spec fn try_from_spec(bytes: &'a [u8]) -> Result<Self, ParseHeaderError> {
        parse_header(bytes@, DEFAULT_VERSION)
    }
}

impl MsgHeader {
    /// The header at the front of `bytes`, where there is one of protocol
    /// version `version`.
    pub fn parse(bytes: &[u8], version: u32) -> (res: Result<MsgHeader, ParseHeaderError>)
        ensures
            res == parse_header(bytes@, version),
    {
        if bytes.len() < DEFAULT_HEADER_LEN {
            return Err(ParseHeaderError::Underlength);
        }
        let header = MsgHeader {
            version: read_u32(bytes, 0),
            cmd_id: read_u32(bytes, 4),
            task_id: read_u32(bytes, 8),
            body_len: read_u16(bytes, 12),
        };
        if header.version != version {
            return Err(ParseHeaderError::VersionMismatch);
        }
        Ok(header)
    }

    /// Writes the 14 bytes of the header at the cursor of `out_buffer`.
    pub fn write_to(&self, out_buffer: &mut AutoBuffer)
        ensures
            final(out_buffer).wrote(*old(out_buffer), header_bytes(*self)),
    {
        proof {
            use_type_invariant(&*out_buffer);
        }
        let ghost b0 = *out_buffer;
        write_u32(out_buffer, self.version);
        let ghost b1 = *out_buffer;
        write_u32(out_buffer, self.cmd_id);
        let ghost b2 = *out_buffer;
        write_u32(out_buffer, self.task_id);
        let ghost b3 = *out_buffer;
        write_u16(out_buffer, self.body_len);
        proof {
            use_type_invariant(&*out_buffer);
            lemma_wrote_twice(b0, b1, b2, u32_be(self.version), u32_be(self.cmd_id));
            lemma_wrote_twice(
                b0,
                b2,
                b3,
                u32_be(self.version) + u32_be(self.cmd_id),
                u32_be(self.task_id),
            );
            lemma_wrote_twice(
                b0,
                b3,
                *out_buffer,
                u32_be(self.version) + u32_be(self.cmd_id) + u32_be(self.task_id),
                u16_be(self.body_len),
            );
        }
    }
}

/// The value that the four bytes of `bytes` from `at` on hold.
fn read_u32(bytes: &[u8], at: usize) -> (value: u32)
    requires
        at + 4 <= bytes@.len(),
    ensures
        value == be_u32(bytes@, at as int),
{
    let b0 = bytes[at] as u32;
    let b1 = bytes[at + 1] as u32;
    let b2 = bytes[at + 2] as u32;
    let b3 = bytes[at + 3] as u32;
    b0 * 0x100_0000 + b1 * 0x1_0000 + b2 * 0x100 + b3
}

/// The value that the two bytes of `bytes` from `at` on hold.
fn read_u16(bytes: &[u8], at: usize) -> (value: u16)
    requires
        at + 2 <= bytes@.len(),
    ensures
        value == be_u16(bytes@, at as int),
{
    let b0 = bytes[at] as u16;
    let b1 = bytes[at + 1] as u16;
    b0 * 0x100 + b1
}

/// Writes the four bytes of `value` at the cursor of `out_buffer`.
fn write_u32(out_buffer: &mut AutoBuffer, value: u32)
    ensures
        final(out_buffer).wrote(*old(out_buffer), u32_be(value)),
{
    let bytes: [u8; 4] = [
        (value / 0x100_0000) as u8,
        (value / 0x1_0000 % 0x100) as u8,
        (value / 0x100 % 0x100) as u8,
        (value % 0x100) as u8,
    ];
    assert(bytes@ =~= u32_be(value));
    out_buffer.write(bytes.as_slice());
}

/// Writes the two bytes of `value` at the cursor of `out_buffer`.
fn write_u16(out_buffer: &mut AutoBuffer, value: u16)
    ensures
        final(out_buffer).wrote(*old(out_buffer), u16_be(value)),
{
    let bytes: [u8; 2] = [(value / 0x100) as u8, (value % 0x100) as u8];
    assert(bytes@ =~= u16_be(value));
    out_buffer.write(bytes.as_slice());
}

/// The codec of the wire format above, for one protocol version.
pub struct DefaultCodec {
    version: u32,
}

impl DefaultCodec {
    /// The protocol version that this codec writes and accepts.
    pub closed spec fn version(&self) -> u32 {
        self.version
    }

    /// A codec that writes and accepts frames of protocol version `version`.
    pub fn new(version: u32) -> (codec: Self)
        ensures
            codec.version() == version,
    {
        DefaultCodec { version }
    }
}

impl Codec for DefaultCodec {
    /// The frame of this codec's version. What `extend` holds is not part
    /// of it.
    open spec fn spec_encode(
        &self,
        cmd_id: CmdId,
        task_id: TaskId,
        payload: Seq<u8>,
        extend: Seq<u8>,
    ) -> Seq<u8> {
        frame_bytes(self.version(), cmd_id, task_id, payload)
    }

    open spec fn spec_decode(&self, input: Seq<u8>) -> Decoded {
        decoded(input, self.version())
    }

    fn encode(
        &self,
        cmd_id: CmdId,
        task_id: TaskId,
        in_buffer: &AutoBuffer,
        extend_buffer: &AutoBuffer,
        out_buffer: &mut AutoBuffer,
    ) {
        encode_frame(self.version, cmd_id, task_id, in_buffer, out_buffer);
    }

    fn decode(
        &self,
        in_buffer: &AutoBuffer,
        body_buffer: &mut AutoBuffer,
        extend_buffer: &mut AutoBuffer,
    ) -> (res: (DecodeStatus, CmdId, TaskId, usize))
        ensures
            final(extend_buffer).same_as(*old(extend_buffer)),
    {
        decode_frame(self.version, in_buffer, body_buffer)
    }
}

/// Writes the frame of protocol version `version` for a message at the cursor
/// of `out_buffer`.
pub fn encode_frame(
    version: u32,
    cmd_id: CmdId,
    task_id: TaskId,
    in_buffer: &AutoBuffer,
    out_buffer: &mut AutoBuffer,
)
    ensures
        final(out_buffer).wrote(
            *old(out_buffer),
            frame_bytes(version, cmd_id, task_id, in_buffer@),
        ),
{
    proof {
        use_type_invariant(&*out_buffer);
    }
    let ghost before = *out_buffer;
    let header = MsgHeader {
        version,
        cmd_id,
        task_id,
        body_len: (in_buffer.len() % 0x1_0000) as u16,
    };
    header.write_to(out_buffer);
    let ghost mid = *out_buffer;
    out_buffer.write_from(in_buffer);
    proof {
        lemma_wrote_twice(before, mid, *out_buffer, header_bytes(header), in_buffer@);
    }
}

/// Decodes the frame of protocol version `version` at the front of
/// `in_buffer`, where a whole one stands there, and writes its payload at the
/// cursor of `body_buffer`.
pub fn decode_frame(version: u32, in_buffer: &AutoBuffer, body_buffer: &mut AutoBuffer) -> (res: (
    DecodeStatus,
    CmdId,
    TaskId,
    usize,
))
    ensures
        decode_outcome(decoded(in_buffer@, version), res, *old(body_buffer), *final(body_buffer)),
        res.0 == DecodeStatus::Success ==> DEFAULT_HEADER_LEN + res.3 <= in_buffer@.len(),
{
    let bytes = in_buffer.as_slice(0);
    assert(bytes@ == in_buffer@);
    let header = match MsgHeader::parse(bytes, version) {
        Ok(header) => header,
        Err(ParseHeaderError::Underlength) => {
            return (DecodeStatus::Continue, 0, 0, 0);
        },
        Err(ParseHeaderError::VersionMismatch) => {
            return (DecodeStatus::Fail, 0, 0, 0);
        },
    };
    let body_len = header.body_len as usize;
    let pack_len = DEFAULT_HEADER_LEN + body_len;
    if in_buffer.len() < pack_len {
        return (DecodeStatus::Continue, 0, 0, 0);
    }
    body_buffer.write(slice_subrange(bytes, DEFAULT_HEADER_LEN, pack_len));
    (DecodeStatus::Success, header.cmd_id, header.task_id, body_len)
}

/// The bytes of a 32-bit value hold that value.
pub proof fn lemma_u32_round_trip(value: u32)
    ensures
        u32_be(value).len() == 4,
        be_u32(u32_be(value), 0) == value,
{
}

/// The bytes of a 16-bit value hold that value.
pub proof fn lemma_u16_round_trip(value: u16)
    ensures
        u16_be(value).len() == 2,
        be_u16(u16_be(value), 0) == value,
{
}

/// The bytes of a header are 14, and whatever follows them, they hold that
/// header.
pub proof fn lemma_header_round_trip(header: MsgHeader, rest: Seq<u8>)
    ensures
        header_bytes(header).len() == DEFAULT_HEADER_LEN,
        header_at(header_bytes(header) + rest) == header,
{
    lemma_u32_round_trip(header.version);
    lemma_u32_round_trip(header.cmd_id);
    lemma_u32_round_trip(header.task_id);
    lemma_u16_round_trip(header.body_len);
    let input = header_bytes(header) + rest;
    assert(input.subrange(0, 4) =~= u32_be(header.version));
    assert(input.subrange(4, 8) =~= u32_be(header.cmd_id));
    assert(input.subrange(8, 12) =~= u32_be(header.task_id));
    assert(input.subrange(12, 14) =~= u16_be(header.body_len));
    assert(be_u32(input, 0) == be_u32(input.subrange(0, 4), 0));
    assert(be_u32(input, 4) == be_u32(input.subrange(4, 8), 0));
    assert(be_u32(input, 8) == be_u32(input.subrange(8, 12), 0));
    assert(be_u16(input, 12) == be_u16(input.subrange(12, 14), 0));
}

/// Decoding what was encoded gives the message back: for a payload of up to
/// 65535 bytes, the frame decodes to its command id, its task id and that
/// payload.
pub proof fn lemma_decode_encoded(version: u32, cmd_id: CmdId, task_id: TaskId, payload: Seq<u8>)
    requires
        payload.len() <= u16::MAX,
    ensures
        frame_bytes(version, cmd_id, task_id, payload).len() == DEFAULT_HEADER_LEN + payload.len(),
        decoded(frame_bytes(version, cmd_id, task_id, payload), version) == (Decoded::Frame {
            cmd_id,
            task_id,
            body: payload,
        }),
{
    lemma_decode_with_rest(version, cmd_id, task_id, payload, Seq::empty());
    assert(frame_bytes(version, cmd_id, task_id, payload) + Seq::<u8>::empty()
        =~= frame_bytes(version, cmd_id, task_id, payload));
}

/// A frame followed by more bytes decodes to its message, and what follows
/// it is what is left behind the decoded span.
pub proof fn lemma_decode_with_rest(
    version: u32,
    cmd_id: CmdId,
    task_id: TaskId,
    payload: Seq<u8>,
    rest: Seq<u8>,
)
    requires
        payload.len() <= u16::MAX,
    ensures
        decoded(frame_bytes(version, cmd_id, task_id, payload) + rest, version) == (Decoded::Frame {
            cmd_id,
            task_id,
            body: payload,
        }),
        (frame_bytes(version, cmd_id, task_id, payload) + rest).skip(
            DEFAULT_HEADER_LEN + payload.len(),
        ) == rest,
{
    let header = MsgHeader { version, cmd_id, task_id, body_len: body_len_field(payload.len()) };
    let input = frame_bytes(version, cmd_id, task_id, payload) + rest;
    lemma_header_round_trip(header, payload + rest);
    assert(input =~= header_bytes(header) + (payload + rest));
    assert(input.subrange(DEFAULT_HEADER_LEN as int, DEFAULT_HEADER_LEN + payload.len())
        =~= payload);
    assert(input.skip(DEFAULT_HEADER_LEN + payload.len()) =~= rest);
}

/// Any proper prefix of a frame, of a payload of up to 65535 bytes, is not
/// yet a frame.
pub proof fn lemma_decode_prefix(
    version: u32,
    cmd_id: CmdId,
    task_id: TaskId,
    payload: Seq<u8>,
    k: int,
)
    requires
        payload.len() <= u16::MAX,
        0 <= k < DEFAULT_HEADER_LEN + payload.len(),
    ensures
        decoded(frame_bytes(version, cmd_id, task_id, payload).take(k), version)
            == Decoded::Continue,
{
    let header = MsgHeader { version, cmd_id, task_id, body_len: body_len_field(payload.len()) };
    let frame = frame_bytes(version, cmd_id, task_id, payload);
    lemma_header_round_trip(header, Seq::empty());
    if k >= DEFAULT_HEADER_LEN {
        let tail = payload.take(k - DEFAULT_HEADER_LEN);
        lemma_header_round_trip(header, tail);
        assert(frame.take(k) =~= header_bytes(header) + tail);
    }
}

/// A frame of another protocol version than the codec's is a violation,
/// whatever follows it.
pub proof fn lemma_decode_other_version(
    version: u32,
    other: u32,
    cmd_id: CmdId,
    task_id: TaskId,
    payload: Seq<u8>,
    rest: Seq<u8>,
)
    requires
        other != version,
    ensures
        decoded(frame_bytes(other, cmd_id, task_id, payload) + rest, version) == Decoded::Fail,
{
    let header = MsgHeader {
        version: other,
        cmd_id,
        task_id,
        body_len: body_len_field(payload.len()),
    };
    let input = frame_bytes(other, cmd_id, task_id, payload) + rest;
    lemma_header_round_trip(header, payload + rest);
    assert(input =~= header_bytes(header) + (payload + rest));
}

} // verus!
