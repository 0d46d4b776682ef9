//! The server side of the RTMP handshake, one received block at a time.

use vstd::prelude::*;

use crate::bytes::{be32_bytes, push_all, push_be32};
use crate::error::RtmpError;

verus! {

/// The size of the C1/S1 and C2/S2 handshake blocks.
pub const HANDSHAKE_BLOCK_SIZE: usize = 1536;

/// The RTMP protocol version byte (C0/S0).
pub const RTMP_VERSION: u8 = 0x03;

/// Where the server is in the handshake: which block it waits for.
#[derive(Clone, Copy, Debug, PartialEq, Eq, Structural)]
pub enum HandshakeStage {
    /// Waiting for C0, the client's version byte.
    AwaitC0,
    /// Waiting for C1, the client's first block.
    AwaitC1,
    /// Waiting for C2, the client's echo of S1.
    AwaitC2,
    /// The handshake is over.
    Done,
}

/// How many bytes the server reads at a stage.
pub open spec fn expected_len(stage: HandshakeStage) -> int {
    match stage {
        HandshakeStage::AwaitC0 => 1,
        _ => HANDSHAKE_BLOCK_SIZE as int,
    }
}

/// `n` zero bytes.
pub open spec fn zeros(n: int) -> Seq<u8> {
    Seq::new(n as nat, |i: int| 0u8)
}

/// What the server does with the block `received` at `stage`, the clock
/// reading `now` seconds: the next stage and the bytes to send back.
///
/// C0 must be version 3; the answer is S0 and S1 (the time, four zero bytes
/// and a zero signature). The answer to C1 is S2: C1 with the time written
/// over its bytes 4 to 7. C2 must echo the zero signature from byte 8 on.
pub open spec fn spec_handshake(stage: HandshakeStage, received: Seq<u8>, now: u32) -> Result<
    (HandshakeStage, Seq<u8>),
    RtmpError,
> {
    match stage {
        HandshakeStage::AwaitC0 => if received[0] == RTMP_VERSION {
            Ok(
                (
                    HandshakeStage::AwaitC1,
                    seq![RTMP_VERSION] + be32_bytes(now) + zeros(4) + zeros(1528),
                ),
            )
        } else {
            Err(RtmpError::WrongVersion(received[0]))
        },
        HandshakeStage::AwaitC1 => Ok(
            (
                HandshakeStage::AwaitC2,
                received.take(4) + be32_bytes(now) + received.skip(8),
            ),
        ),
        HandshakeStage::AwaitC2 => if received.skip(8) == zeros(1528) {
            Ok((HandshakeStage::Done, Seq::empty()))
        } else {
            Err(RtmpError::SignatureMismatch)
        },
        HandshakeStage::Done => Ok((HandshakeStage::Done, Seq::empty())),
    }
}

/// Appends `n` zero bytes to `buf`.
fn push_zeros(buf: &mut Vec<u8>, n: usize)
    ensures
        final(buf)@ == old(buf)@ + zeros(n as int),
{
    let mut i: usize = 0;
    while i < n
        invariant
            i <= n,
            buf@ == old(buf)@ + zeros(i as int),
        decreases n - i,
    {
        buf.push(0);
        i = i + 1;
        assert(buf@ =~= old(buf)@ + zeros(i as int));
    }
}

/// Advances the handshake at `stage` with the block `received` (one byte
/// for C0, 1536 for C1 and C2), the clock reading `now` seconds; gives the
/// next stage and the bytes to send, or why the client is refused.
pub fn handshake(stage: HandshakeStage, received: &[u8], now: u32) -> (r: Result<
    (HandshakeStage, Vec<u8>),
    RtmpError,
>)
    requires
        stage != HandshakeStage::Done,
        received@.len() == expected_len(stage),
    ensures
        match spec_handshake(stage, received@, now) {
            Ok((next, out)) => r matches Ok((n, o)) && n == next && o@ == out,
            Err(e) => r matches Err(x) && x == e,
        },
{
    let mut out: Vec<u8> = Vec::new();
    match stage {
        HandshakeStage::AwaitC0 => {
            // C0
            let init = received[0];
            if init != RTMP_VERSION {
                return Err(RtmpError::WrongVersion(init));
            }
            // S0
            out.push(RTMP_VERSION);
            // S1
            push_be32(&mut out, now);
            push_zeros(&mut out, 4);
            push_zeros(&mut out, 1528);
            Ok((HandshakeStage::AwaitC1, out))
        },
        HandshakeStage::AwaitC1 => {
            // C1 -> S2
            push_all(&mut out, received.split_at(4).0);
            push_be32(&mut out, now);
            push_all(&mut out, received.split_at(8).1);
            Ok((HandshakeStage::AwaitC2, out))
        },
        _ => {
            // C2
            let mut i: usize = 8;
            while i < received.len()
                invariant
                    8 <= i <= received@.len(),
                    stage == HandshakeStage::AwaitC2,
                    received@.len() == HANDSHAKE_BLOCK_SIZE,
                    forall|j: int| 8 <= j < i ==> received@[j] == 0,
                decreases received@.len() - i,
            {
                if received[i] != 0 {
                    assert(received@.skip(8)[i - 8] != zeros(1528)[i - 8]);
                    assert(received@.skip(8) != zeros(1528));
                    assert(stage == HandshakeStage::AwaitC2);
                    return Err(RtmpError::SignatureMismatch);
                }
                i = i + 1;
            }
            assert(received@.skip(8) =~= zeros(1528));
            Ok((HandshakeStage::Done, out))
        },
    }
}

/// A client that sends version 3, any first block, then a second block that
/// echoes the zero signature completes the handshake in three steps, and the
/// server's S2 is the client's C1 with the server's time in bytes 4 to 7.
pub proof fn lemma_handshake_completes(c0: Seq<u8>, c1: Seq<u8>, c2: Seq<u8>, t1: u32, t2: u32)
    requires
        c0.len() == 1,
        c0[0] == RTMP_VERSION,
        c1.len() == HANDSHAKE_BLOCK_SIZE,
        c2.len() == HANDSHAKE_BLOCK_SIZE,
        forall|j: int| 8 <= j < c2.len() ==> c2[j] == 0,
    ensures
        spec_handshake(HandshakeStage::AwaitC0, c0, t1) matches Ok((s1, out1)) && s1
            == HandshakeStage::AwaitC1 && out1.len() == 1 + HANDSHAKE_BLOCK_SIZE,
        spec_handshake(HandshakeStage::AwaitC1, c1, t2) matches Ok((s2, out2)) && s2
            == HandshakeStage::AwaitC2 && out2.len() == HANDSHAKE_BLOCK_SIZE && out2.take(4)
            == c1.take(4) && out2.skip(8) == c1.skip(8),
        spec_handshake(HandshakeStage::AwaitC2, c2, t2) matches Ok((s3, _)) && s3
            == HandshakeStage::Done,
{
    assert(c2.skip(8) =~= zeros(1528));
    let out2 = c1.take(4) + be32_bytes(t2) + c1.skip(8);
    assert(out2.take(4) =~= c1.take(4));
    assert(out2.skip(8) =~= c1.skip(8));
}

} // verus!
