//! SUMP command framing: turns transport bytes into discrete commands.
//!
//! The decoder keeps a bounded scratch buffer. Single-byte opcodes
//! (Reset, Arm, GetId, GetMeta) decode as soon as they are buffered;
//! every other opcode heads a five-byte frame and decodes only once five
//! bytes are buffered. An unrecognized opcode with a full five-byte
//! window resynchronizes by dropping one byte. The consumed prefix is
//! always removed, so decoding is chunking-invariant: feeding bytes one
//! at a time yields the same command sequence as feeding them at once
//! ([`lemma_chunking_invariant`]).

use vstd::prelude::*;

verus! {

/// Bytes the decoder's scratch buffer can hold; bytes past a full buffer
/// are dropped until earlier frames are consumed.
pub const SCRATCH_BYTES: usize = 64;

/// A decoded SUMP command, consumed by the controller as soon as it is
/// produced.
#[derive(Clone, Copy, PartialEq, Eq, Structural, Debug)]
pub enum SumpCommand {
    /// Reset the analyzer's command stream.
    Reset,
    /// Arm the analyzer to start an acquisition.
    Arm,
    /// Retrieve the device identifier.
    GetId,
    /// Retrieve the device metadata.
    GetMeta,
    /// Set the sampling rate divisor.
    SetDivisor(u16),
    /// Set the number of samples to read back.
    SetReadCount(usize),
    /// Set the configuration flags.
    SetFlags(u8),
    /// Set the trigger mask of one stage.
    SetTriggerMask(u8, u32),
    /// Set the trigger pattern of one stage.
    SetTriggerValues(u8, u32),
    /// Set the trigger delay of one stage.
    SetTriggerDelay(u8, u32),
}

/// The four opcodes that form a complete one-byte frame.
pub open spec fn is_short_opcode(b: u8) -> bool {
    b == 0x00 || b == 0x01 || b == 0x02 || b == 0x04
}

/// The command a one-byte frame decodes to.
pub open spec fn short_command(b: u8) -> SumpCommand {
    if b == 0x00 {
        SumpCommand::Reset
    } else if b == 0x01 {
        SumpCommand::Arm
    } else if b == 0x02 {
        SumpCommand::GetId
    } else {
        SumpCommand::GetMeta
    }
}

/// The value of two operand bytes read little-endian.
pub open spec fn le16(b0: u8, b1: u8) -> u16 {
    (b0 + b1 * 0x100) as u16
}

/// The value of four operand bytes read little-endian.
pub open spec fn le32(b0: u8, b1: u8, b2: u8, b3: u8) -> u32 {
    (b0 + b1 * 0x100 + b2 * 0x1_0000 + b3 * 0x100_0000) as u32
}

/// Whether `b` selects a trigger stage for the command family starting
/// at opcode `base`: the four opcodes `base`, `base+4`, `base+8`,
/// `base+12`.
pub open spec fn is_stage_opcode(b: u8, base: u8) -> bool {
    b == base || b == base + 4 || b == base + 8 || b == base + 12
}

/// The stage index a trigger-family opcode selects.
pub open spec fn stage_of(b: u8, base: u8) -> u8 {
    (((b - base) as u8) / 4) as u8
}

/// The command a five-byte frame decodes to, or `None` for an
/// unrecognized opcode.
pub open spec fn long_command(b0: u8, b1: u8, b2: u8, b3: u8, b4: u8) -> Option<SumpCommand> {
    if b0 == 0x80 {
        Some(SumpCommand::SetDivisor(le16(b1, b2)))
    } else if b0 == 0x81 {
        Some(SumpCommand::SetReadCount(le16(b1, b2) as usize))
    } else if b0 == 0x82 {
        Some(SumpCommand::SetFlags(b1))
    } else if is_stage_opcode(b0, 0xc0) {
        Some(SumpCommand::SetTriggerMask(stage_of(b0, 0xc0), le32(b1, b2, b3, b4)))
    } else if is_stage_opcode(b0, 0xc1) {
        Some(SumpCommand::SetTriggerValues(stage_of(b0, 0xc1), le32(b1, b2, b3, b4)))
    } else if is_stage_opcode(b0, 0xc2) {
        Some(SumpCommand::SetTriggerDelay(stage_of(b0, 0xc2), le16(b1, b2) as u32))
    } else {
        None
    }
}

/// How many buffered bytes one decode attempt consumes: one for a
/// one-byte frame, five for a recognized five-byte frame, one to
/// resynchronize past an unrecognized opcode once five bytes are
/// buffered, and zero while a frame is still incomplete.
pub open spec fn step_len(buf: Seq<u8>) -> nat {
    if buf.len() == 0 {
        0
    } else if is_short_opcode(buf[0]) {
        1
    } else if buf.len() >= 5 {
        if long_command(buf[0], buf[1], buf[2], buf[3], buf[4]) is Some {
            5
        } else {
            1
        }
    } else {
        0
    }
}

/// The command one decode attempt yields, if any.
pub open spec fn step_cmd(buf: Seq<u8>) -> Option<SumpCommand> {
    if buf.len() == 0 {
        None
    } else if is_short_opcode(buf[0]) {
        Some(short_command(buf[0]))
    } else if buf.len() >= 5 {
        long_command(buf[0], buf[1], buf[2], buf[3], buf[4])
    } else {
        None
    }
}

/// All commands obtained by decoding `buf` to exhaustion, in order.
pub open spec fn decode_commands(buf: Seq<u8>) -> Seq<SumpCommand>
    decreases buf.len(),
{
    if step_len(buf) == 0 {
        seq![]
    } else {
        let tail = decode_commands(buf.skip(step_len(buf) as int));
        match step_cmd(buf) {
            Some(c) => seq![c] + tail,
            None => tail,
        }
    }
}

/// The undecodable suffix left after decoding `buf` to exhaustion:
/// either empty or an incomplete five-byte frame.
pub open spec fn decode_rest(buf: Seq<u8>) -> Seq<u8>
    decreases buf.len(),
{
    if step_len(buf) == 0 {
        buf
    } else {
        decode_rest(buf.skip(step_len(buf) as int))
    }
}

/// What the scratch buffer holds after feeding `bytes` into `buf`:
/// the new bytes are appended only up to the buffer's capacity.
pub open spec fn buffered_after(buf: Seq<u8>, bytes: Seq<u8>) -> Seq<u8> {
    if buf.len() + bytes.len() <= SCRATCH_BYTES {
        buf + bytes
    } else {
        buf + bytes.take(SCRATCH_BYTES - buf.len())
    }
}

/// One-byte frames decode from exactly one byte, whatever follows.
pub proof fn lemma_short_frame(buf: Seq<u8>)
    requires
        buf.len() >= 1,
        is_short_opcode(buf[0]),
    ensures
        step_len(buf) == 1,
        step_cmd(buf) == Some(short_command(buf[0])),
{
}

/// A recognized five-byte frame consumes exactly five bytes, and a
/// trigger-family frame selects stage `(opcode - base) / 4`, always in
/// `0..4`.
pub proof fn lemma_long_frame(buf: Seq<u8>)
    requires
        buf.len() >= 5,
        !is_short_opcode(buf[0]),
        long_command(buf[0], buf[1], buf[2], buf[3], buf[4]) is Some,
    ensures
        step_len(buf) == 5,
        step_cmd(buf) == long_command(buf[0], buf[1], buf[2], buf[3], buf[4]),
        match step_cmd(buf) {
            Some(SumpCommand::SetTriggerMask(s, _)) => s == stage_of(buf[0], 0xc0) && s < 4,
            Some(SumpCommand::SetTriggerValues(s, _)) => s == stage_of(buf[0], 0xc1) && s < 4,
            Some(SumpCommand::SetTriggerDelay(s, _)) => s == stage_of(buf[0], 0xc2) && s < 4,
            _ => true,
        },
{
}

/// An unrecognized opcode with five bytes buffered yields no command and
/// consumes exactly one byte.
pub proof fn lemma_resync(buf: Seq<u8>)
    requires
        buf.len() >= 5,
        !is_short_opcode(buf[0]),
        long_command(buf[0], buf[1], buf[2], buf[3], buf[4]) is None,
    ensures
        step_len(buf) == 1,
        step_cmd(buf) is None,
{
}

/// What one decode attempt does to `a` it also does to `a + b`: a frame
/// decided by the buffered prefix is not changed by later bytes.
proof fn lemma_step_extends(a: Seq<u8>, b: Seq<u8>)
    requires
        step_len(a) != 0,
    ensures
        step_len(a + b) == step_len(a),
        step_cmd(a + b) == step_cmd(a),
        (a + b).skip(step_len(a) as int) == a.skip(step_len(a) as int) + b,
{
    assert((a + b).skip(step_len(a) as int) =~= a.skip(step_len(a) as int) + b);
}

/// Decoding never gets stuck short of the undecodable suffix: the suffix
/// itself admits no further step.
pub proof fn lemma_rest_is_stuck(buf: Seq<u8>)
    ensures
        step_len(decode_rest(buf)) == 0,
    decreases buf.len(),
{
    if step_len(buf) != 0 {
        lemma_rest_is_stuck(buf.skip(step_len(buf) as int));
    }
}

/// Decoding is incremental: appending `b` first decodes everything `a`
/// already determined, then continues from `a`'s undecodable suffix.
pub proof fn lemma_decode_extends(a: Seq<u8>, b: Seq<u8>)
    ensures
        decode_commands(a + b) =~= decode_commands(a) + decode_commands(decode_rest(a) + b),
        decode_rest(a + b) == decode_rest(decode_rest(a) + b),
    decreases a.len(),
{
    if step_len(a) == 0 {
        assert(a + b =~= decode_rest(a) + b);
    } else {
        let k = step_len(a) as int;
        lemma_step_extends(a, b);
        lemma_decode_extends(a.skip(k), b);
    }
}

/// The command sequence produced by feeding `chunks` in turn into a
/// decoder whose buffer holds `pending`, draining fully after each feed.
pub open spec fn decode_chunks(pending: Seq<u8>, chunks: Seq<Seq<u8>>) -> Seq<SumpCommand>
    decreases chunks.len(),
{
    if chunks.len() == 0 {
        seq![]
    } else {
        let buf = pending + chunks[0];
        decode_commands(buf) + decode_chunks(decode_rest(buf), chunks.skip(1))
    }
}

/// Chunking invariance: however a byte sequence is split into chunks,
/// feeding the chunks one after the other yields exactly the commands of
/// decoding the whole sequence in one call.
pub proof fn lemma_chunking_invariant(pending: Seq<u8>, chunks: Seq<Seq<u8>>)
    requires
        step_len(pending) == 0,
    ensures
        decode_chunks(pending, chunks) =~= decode_commands(pending + chunks.flatten()),
    decreases chunks.len(),
{
    if chunks.len() == 0 {
        assert(chunks.flatten() =~= Seq::<u8>::empty());
        assert(decode_commands(pending + chunks.flatten()) =~= seq![]);
    } else {
        let buf = pending + chunks[0];
        lemma_rest_is_stuck(buf);
        lemma_chunking_invariant(decode_rest(buf), chunks.skip(1));
        lemma_decode_extends(buf, chunks.skip(1).flatten());
        assert(chunks.flatten() == chunks[0] + chunks.skip(1).flatten()) by {
            assert(chunks.drop_first() =~= chunks.skip(1));
        }
        assert(pending + chunks.flatten() =~= buf + chunks.skip(1).flatten());
    }
}

/// The byte-stream decoder: a bounded scratch buffer fed by the
/// transport, drained frame by frame.
pub struct CommandProtocol {
    scratch: Vec<u8>,
}

impl View for CommandProtocol {
    type V = Seq<u8>;

    /// The bytes currently buffered, oldest first.
    closed spec fn view(&self) -> Seq<u8> {
        self.scratch@
    }
}

impl CommandProtocol {
    /// The scratch buffer never exceeds its capacity.
    pub open spec fn inv(self) -> bool {
        self@.len() <= SCRATCH_BYTES
    }

    /// A decoder with an empty buffer.
    pub fn new() -> (p: CommandProtocol)
        ensures
            p@ =~= Seq::<u8>::empty(),
            p.inv(),
    {
        CommandProtocol { scratch: Vec::new() }
    }

    /// Forgets all buffered bytes.
    pub fn clear(&mut self)
        ensures
            final(self)@ =~= Seq::<u8>::empty(),
            final(self).inv(),
    {
        self.scratch.clear();
    }

    /// Appends the newly read `bytes` (up to the buffer's remaining
    /// capacity) and attempts one decode from the front of the buffer,
    /// removing the consumed prefix.
    pub fn feed(&mut self, bytes: &[u8]) -> (cmd: Option<SumpCommand>)
        requires
            old(self).inv(),
        ensures
            final(self).inv(),
            ({
                let buf = buffered_after(old(self)@, bytes@);
                cmd == step_cmd(buf) && final(self)@ == buf.skip(step_len(buf) as int)
            }),
    {
        let ghost orig: Seq<u8> = self.scratch@;
        let remaining = SCRATCH_BYTES - self.scratch.len();
        let n = if bytes.len() < remaining {
            bytes.len()
        } else {
            remaining
        };
        for j in 0..n
            invariant
                n <= bytes@.len(),
                orig.len() + n <= SCRATCH_BYTES,
                self.scratch@ == orig + bytes@.take(j as int),
        {
            self.scratch.push(bytes[j]);
        }
        proof {
            assert(self.scratch@ =~= buffered_after(orig, bytes@));
        }
        self.try_decode()
    }

    /// Attempts one decode from the front of the buffer.
    fn try_decode(&mut self) -> (cmd: Option<SumpCommand>)
        requires
            old(self).inv(),
        ensures
            final(self).inv(),
            cmd == step_cmd(old(self)@),
            final(self)@ == old(self)@.skip(step_len(old(self)@) as int),
    {
        if self.scratch.len() == 0 {
            assert(self.scratch@ =~= self.scratch@.skip(0));
            return None;
        }
        let b0 = self.scratch[0];
        if b0 == 0x00 {
            self.drop_front(1);
            Some(SumpCommand::Reset)
        } else if b0 == 0x01 {
            self.drop_front(1);
            Some(SumpCommand::Arm)
        } else if b0 == 0x02 {
            self.drop_front(1);
            Some(SumpCommand::GetId)
        } else if b0 == 0x04 {
            self.drop_front(1);
            Some(SumpCommand::GetMeta)
        } else if self.scratch.len() >= 5 {
            let b1 = self.scratch[1];
            let b2 = self.scratch[2];
            let b3 = self.scratch[3];
            let b4 = self.scratch[4];
            if b0 == 0x80 {
                self.drop_front(5);
                Some(SumpCommand::SetDivisor(le16_value(b1, b2)))
            } else if b0 == 0x81 {
                self.drop_front(5);
                Some(SumpCommand::SetReadCount(le16_value(b1, b2) as usize))
            } else if b0 == 0x82 {
                self.drop_front(5);
                Some(SumpCommand::SetFlags(b1))
            } else if b0 == 0xc0 || b0 == 0xc4 || b0 == 0xc8 || b0 == 0xcc {
                let stage = (b0 - 0xc0) / 4;
                self.drop_front(5);
                Some(SumpCommand::SetTriggerMask(stage, le32_value(b1, b2, b3, b4)))
            } else if b0 == 0xc1 || b0 == 0xc5 || b0 == 0xc9 || b0 == 0xcd {
                let stage = (b0 - 0xc1) / 4;
                self.drop_front(5);
                Some(SumpCommand::SetTriggerValues(stage, le32_value(b1, b2, b3, b4)))
            } else if b0 == 0xc2 || b0 == 0xc6 || b0 == 0xca || b0 == 0xce {
                let stage = (b0 - 0xc2) / 4;
                self.drop_front(5);
                Some(SumpCommand::SetTriggerDelay(stage, le16_value(b1, b2) as u32))
            } else {
                self.drop_front(1);
                None
            }
        } else {
            assert(self.scratch@ =~= self.scratch@.skip(0));
            None
        }
    }

    /// Removes the `k` oldest buffered bytes, shifting the rest forward.
    fn drop_front(&mut self, k: usize)
        requires
            k <= old(self)@.len(),
        ensures
            final(self)@ == old(self)@.skip(k as int),
            final(self)@.len() == old(self)@.len() - k,
    {
        let ghost orig: Seq<u8> = self.scratch@;
        let mut j: usize = 0;
        while j < k
            invariant
                j <= k <= orig.len(),
                self.scratch@ == orig.skip(j as int),
            decreases k - j,
        {
            self.scratch.remove(0);
            proof {
                assert(orig.skip(j as int).remove(0) =~= orig.skip(j + 1));
            }
            j += 1;
        }
    }
}

/// Reads two operand bytes little-endian.
fn le16_value(b0: u8, b1: u8) -> (r: u16)
    ensures
        r == le16(b0, b1),
{
    b0 as u16 + (b1 as u16) * 0x100
}

/// Reads four operand bytes little-endian.
fn le32_value(b0: u8, b1: u8, b2: u8, b3: u8) -> (r: u32)
    ensures
        r == le32(b0, b1, b2, b3),
{
    b0 as u32 + (b1 as u32) * 0x100 + (b2 as u32) * 0x1_0000 + (b3 as u32) * 0x100_0000
}

} // verus!
