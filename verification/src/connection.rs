use crate::codec::{decode, spec_decode, DecodeError, DecodeErrorV};
use crate::envelope::{GatewayPayload, GatewayPayloadV};
use vstd::prelude::*;

verus! {

/// Why opening a connection failed: the upgrade was answered with
/// something other than switching-protocols, or the transport itself
/// (name resolution, the TCP stream, TLS) gave out.
#[derive(Clone, Copy, Debug, PartialEq, Eq, Structural)]
pub enum ConnectError {
    HandshakeRejected { status: u16 },
    TransportFailure,
}

/// The status that accepts a protocol upgrade.
pub const SWITCHING_PROTOCOLS: u16 = 101;

/// Judge the upgrade response: only switching-protocols opens a
/// connection; every other status is a handshake rejection carrying that
/// status.
pub fn check_upgrade_status(status: u16) -> (r: Result<(), ConnectError>)
    ensures
        r is Ok <==> status == SWITCHING_PROTOCOLS,
        r is Err ==> r == Err::<(), ConnectError>(ConnectError::HandshakeRejected { status }),
{
    if status == SWITCHING_PROTOCOLS {
        Ok(())
    } else {
        Err(ConnectError::HandshakeRejected { status })
    }
}

/// What the read loop does with one incoming text frame: a decodable
/// frame is handed on to the inbound queue; a frame that does not decode
/// is reported and skipped — one bad frame must not kill the connection.
#[derive(Debug, PartialEq)]
pub enum ReadStep {
    Deliver(GatewayPayload),
    Skip(DecodeError),
}

/// Decide the read loop's step for one frame.
pub fn on_frame(raw: &str) -> (r: ReadStep)
    ensures
        match r {
            ReadStep::Deliver(e) => spec_decode(raw@) == Ok::<GatewayPayloadV, DecodeErrorV>(e@),
            ReadStep::Skip(err) => spec_decode(raw@) == Err::<GatewayPayloadV, DecodeErrorV>(err@)
                && err.spec_raw_text() == raw@,
        },
{
    match decode(raw) {
        Ok(e) => ReadStep::Deliver(e),
        Err(err) => ReadStep::Skip(err),
    }
}

/// The life of one connection's two loops. Reads and writes proceed at
/// their own pace in their own halves; the connection as a whole is
/// finished as soon as either direction ends, whatever the state of the
/// other — a stream that can no longer be read from, or no longer be
/// written to, is dead.
#[derive(Clone, Copy, Debug, PartialEq, Eq, Structural)]
pub struct ConnectionRun {
    pub read_open: bool,
    pub write_open: bool,
}

impl ConnectionRun {
    /// Both halves alive: the state right after a successful handshake.
    pub fn new() -> (c: ConnectionRun)
        ensures
            c.read_open && c.write_open,
            !c.spec_finished(),
    {
        ConnectionRun { read_open: true, write_open: true }
    }

    /// First-to-finish wins: one closed half finishes the run.
    pub open spec fn spec_finished(self) -> bool {
        !self.read_open || !self.write_open
    }

    pub fn finished(&self) -> (b: bool)
        ensures
            b == self.spec_finished(),
    {
        !self.read_open || !self.write_open
    }

    /// The read half ended: by graceful close, protocol error, or the
    /// peer going away.
    pub fn on_read_end(&mut self)
        ensures
            !final(self).read_open,
            final(self).write_open == old(self).write_open,
            final(self).spec_finished(),
    {
        self.read_open = false;
    }

    /// The write half ended: the stream no longer accepts frames.
    pub fn on_write_end(&mut self)
        ensures
            !final(self).write_open,
            final(self).read_open == old(self).read_open,
            final(self).spec_finished(),
    {
        self.write_open = false;
    }
}

/// Fail-fast on half-closure: a run whose write side alone has ended is
/// finished, even though the read side is still open — and the other way
/// around.
pub proof fn lemma_fail_fast_on_half_closure(c: ConnectionRun)
    ensures
        !c.write_open ==> c.spec_finished(),
        !c.read_open ==> c.spec_finished(),
        c.spec_finished() ==> !c.read_open || !c.write_open,
{
}

} // verus!
