//! The policy that a caller supplies for the identify exchange.

use super::identify_mode::Mode;
use super::identify_step::Step;
use crate::buffer::AutoBuffer;
use crate::codec::long_link::CmdId;
use vstd::prelude::*;

verus! {

/// The caller's part in the identify exchange.
///
/// What a callback answers is its own policy. The two relations below give
/// that policy a name, so that whoever asks the callback can say that its
/// result follows from an answer to the question it was asked. Left as they
/// are, they admit every answer.
pub trait Callback: Send {
    /// Whether this callback, asked for its identify payload, may write
    /// `payload` into the empty buffer and return `mode` and `cmd_id`, and be
    /// `after` afterwards.
    open spec fn may_produce(
        &self,
        mode: Mode,
        cmd_id: CmdId,
        payload: Seq<u8>,
        after: &Self,
    ) -> bool {
        true
    }

    /// Whether this callback, asked for its verdict on `payload`, may return
    /// `step`, and be `after` afterwards.
    open spec fn may_judge(&self, payload: Seq<u8>, step: Step, after: &Self) -> bool {
        true
    }

    /// Writes the identify payload into `identify_buffer`, which is handed
    /// over empty, and returns when to send it and the command id to send
    /// it under.
    fn get_long_link_identify_check_buffer(&mut self, identify_buffer: &mut AutoBuffer) -> (res: (
        Mode,
        CmdId,
    ))
        requires
            old(identify_buffer)@.len() == 0,
        ensures
            old(self).may_produce(res.0, res.1, final(identify_buffer)@, final(self)),
    ;

    /// Judges the payload of the server's identify response.
    fn verify_long_link_identify(&mut self, response_buffer: &AutoBuffer) -> (step: Step)
        ensures
            old(self).may_judge(response_buffer@, step, final(self)),
    ;
}

} // verus!
