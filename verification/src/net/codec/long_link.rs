//! The long-link codec of the link layer, with ids as types of their own.
//! The wire format is that of `crate::codec::long_link`.

use crate::buffer::AutoBuffer;
use crate::codec::long_link::{decode_frame, decode_outcome, encode_frame, Decoded};
use vstd::prelude::*;

pub use crate::codec::long_link::{DecodeStatus, MsgHeader, DEFAULT_HEADER_LEN, DEFAULT_VERSION};

verus! {

/// A command id.
#[derive(Debug, Clone, Copy, PartialEq, Eq, Structural)]
pub struct CmdId(pub u32);

/// A task id.
#[derive(Debug, Clone, Copy, PartialEq, Eq, Structural)]
pub struct TaskId(pub u32);

/// The task id that frames of the identify exchange carry.
pub fn identify_checker_task_id() -> (task_id: TaskId)
    ensures
        task_id == TaskId(crate::codec::long_link::IDENTIFY_CHECKER_TASK_ID),
{
    TaskId(crate::codec::long_link::IDENTIFY_CHECKER_TASK_ID)
}

/// A codec of long-link frames.
pub trait Codec: Send {
    /// The bytes that `encode` produces for a message.
    spec fn spec_encode(
        &self,
        cmd_id: CmdId,
        task_id: TaskId,
        payload: Seq<u8>,
        extend: Seq<u8>,
    ) -> Seq<u8>;

    /// What `decode` finds at the front of `input`.
    spec fn spec_decode(&self, input: Seq<u8>) -> Decoded;

    /// Writes the frame for a message at the cursor of `out_buffer`.
    fn encode(
        &self,
        cmd_id: &CmdId,
        task_id: &TaskId,
        in_buffer: &AutoBuffer,
        extend_buffer: &AutoBuffer,
        out_buffer: &mut AutoBuffer,
    )
        ensures
            final(out_buffer).wrote(
                *old(out_buffer),
                self.spec_encode(*cmd_id, *task_id, in_buffer@, extend_buffer@),
            ),
    ;

    /// Decodes the frame at the front of `in_buffer`, where a whole one
    /// stands there, and writes its payload at the cursor of `body_buffer`.
    /// Returns the status with the frame's command id, task id and payload
    /// length, which are zero unless the status is `Success`. A decoded
    /// frame lies within the input.
    fn decode(
        &self,
        in_buffer: &AutoBuffer,
        body_buffer: &mut AutoBuffer,
        extend_buffer: &mut AutoBuffer,
    ) -> (res: (DecodeStatus, CmdId, TaskId, usize))
        ensures
            decode_outcome(
                self.spec_decode(in_buffer@),
                (res.0, res.1.0, res.2.0, res.3),
                *old(body_buffer),
                *final(body_buffer),
            ),
            res.0 == DecodeStatus::Success ==> DEFAULT_HEADER_LEN + res.3 <= in_buffer@.len(),
    ;
}

/// The codec of the long-link wire format, for one protocol version.
pub struct DefaultLongLinkCodec {
    version: u32,
}

impl DefaultLongLinkCodec {
    /// The protocol version that this codec writes and accepts.
    pub closed spec fn version(&self) -> u32 {
        self.version
    }

    /// A codec that writes and accepts frames of protocol version `version`.
    pub fn new(version: u32) -> (codec: Self)
        ensures
            codec.version() == version,
    {
        DefaultLongLinkCodec { version }
    }
}

impl Codec for DefaultLongLinkCodec {
    /// The frame of this codec's version. What `extend` holds is not part
    /// of it.
    open spec fn spec_encode(
        &self,
        cmd_id: CmdId,
        task_id: TaskId,
        payload: Seq<u8>,
        extend: Seq<u8>,
    ) -> Seq<u8> {
        crate::codec::long_link::frame_bytes(self.version(), cmd_id.0, task_id.0, payload)
    }

    open spec fn spec_decode(&self, input: Seq<u8>) -> Decoded {
        crate::codec::long_link::decoded(input, self.version())
    }

    fn encode(
        &self,
        cmd_id: &CmdId,
        task_id: &TaskId,
        in_buffer: &AutoBuffer,
        extend_buffer: &AutoBuffer,
        out_buffer: &mut AutoBuffer,
    ) {
        encode_frame(self.version, cmd_id.0, task_id.0, in_buffer, out_buffer);
    }

    fn decode(
        &self,
        in_buffer: &AutoBuffer,
        body_buffer: &mut AutoBuffer,
        extend_buffer: &mut AutoBuffer,
    ) -> (res: (DecodeStatus, CmdId, TaskId, usize))
        ensures
            final(extend_buffer).same_as(*old(extend_buffer)),
    {
        let (status, cmd_id, task_id, body_len) = decode_frame(
            self.version,
            in_buffer,
            body_buffer,
        );
        (status, CmdId(cmd_id), TaskId(task_id), body_len)
    }
}

} // verus!
