//! The acquisition engine: owns the coprocessor program slot and the
//! capture buffer across arm/retrigger/drain cycles.
//!
//! The engine is a two-state machine. In standby the buffer is idle and
//! a default continuous-capture program is installed; armed means the
//! acquisition hardware is filling the buffer under a freshly compiled
//! trigger program. Arming always wins: starting while armed abandons
//! the in-flight capture. Draining while armed reclaims the buffer and
//! reformats it for the wire — most recent two-word chunk first, each
//! chunk reduced to the bytes of the enabled channel groups — and
//! returns to standby; draining in standby is a benign no-op.
//!
//! The hardware itself is an outside collaborator: the caller hands in
//! the words it captured ([`Sampler::capture`]) and sends the bytes
//! [`Sampler::drain`] returns.

use vstd::prelude::*;

use crate::compiler::program_cost;
use crate::compiler::CompileStrategy;
use crate::compiler::TriggerError;
use crate::pio_asm::asm_assemble_program;
use crate::pio_asm::asm_new;
use crate::pio_asm::asm_push;
use crate::pio_asm::prog_len;
use crate::pio_asm::prog_origin;
use crate::pio_asm::prog_wrap_source;
use crate::pio_asm::prog_wrap_target;
use crate::trigger::Trigger;
use crate::trigger::TriggerStage;
use crate::BUFFER_WORDS;

verus! {

/// The four bytes of a capture word, least significant first.
pub open spec fn word_bytes(w: u32) -> Seq<u8> {
    seq![
        (w & 0xff) as u8,
        ((w >> 8u32) & 0xff) as u8,
        ((w >> 16u32) & 0xff) as u8,
        ((w >> 24u32) & 0xff) as u8,
    ]
}

/// Bytes per drained chunk for the given enabled groups.
pub open spec fn chunk_width(g0: bool, g1: bool) -> nat {
    if g0 && g1 {
        8
    } else if g0 || g1 {
        4
    } else {
        0
    }
}

/// The wire bytes of one buffer chunk — the capture-word pair
/// (`w_low`, `w_high`). The pair's second word carries the even-numbered
/// probe samples and is sent first; within each word's four bytes, the
/// even byte offsets belong to channel group 0 (probes 0..8) and the odd
/// offsets to group 1 (probes 8..16). Only enabled groups' bytes are
/// sent.
pub open spec fn chunk_bytes(w_low: u32, w_high: u32, g0: bool, g1: bool) -> Seq<u8> {
    let even = word_bytes(w_high);
    let odd = word_bytes(w_low);
    if g0 && g1 {
        even + odd
    } else if g0 {
        seq![even[0], even[2], odd[0], odd[2]]
    } else if g1 {
        seq![even[1], even[3], odd[1], odd[3]]
    } else {
        seq![]
    }
}

/// The wire bytes of the first `n` chunks of the buffer, most recently
/// captured chunk first (chunk `k` is the word pair at `2k`, `2k + 1`).
pub open spec fn drain_chunks(mem: Seq<u32>, n: nat, g0: bool, g1: bool) -> Seq<u8>
    decreases n,
{
    if n == 0 {
        seq![]
    } else {
        chunk_bytes(mem[2 * (n - 1)], mem[2 * (n - 1) + 1], g0, g1) + drain_chunks(
            mem,
            (n - 1) as nat,
            g0,
            g1,
        )
    }
}

/// How many chunks a drain emits: one more than the configured sample
/// count, bounded by the chunks the buffer holds.
pub open spec fn drained_chunk_count(samples: nat, words: nat) -> nat {
    if samples + 1 <= words / 2 {
        samples + 1
    } else {
        words / 2
    }
}

/// The full wire output of draining a buffer.
pub open spec fn drain_bytes(mem: Seq<u32>, samples: nat, g0: bool, g1: bool) -> Seq<u8> {
    drain_chunks(mem, drained_chunk_count(samples, mem.len()), g0, g1)
}

/// A drain emits exactly its chunk count times the per-chunk width:
/// eight bytes per chunk with both groups enabled, four with one, none
/// with neither.
pub proof fn lemma_drain_chunks_len(mem: Seq<u32>, n: nat, g0: bool, g1: bool)
    ensures
        drain_chunks(mem, n, g0, g1).len() == n * chunk_width(g0, g1),
    decreases n,
{
    if n > 0 {
        lemma_drain_chunks_len(mem, (n - 1) as nat, g0, g1);
        assert(n * chunk_width(g0, g1) == chunk_width(g0, g1) + (n - 1) * chunk_width(g0, g1))
            by (nonlinear_arith);
    }
}

/// A full drain's byte count: its chunk count times the per-chunk
/// width. With both groups enabled each of the `samples + 1` chunks
/// takes eight bytes, with one group four, with none zero (the count is
/// bounded by the chunks the buffer holds).
pub proof fn lemma_drain_bytes_len(mem: Seq<u32>, samples: nat, g0: bool, g1: bool)
    ensures
        drain_bytes(mem, samples, g0, g1).len() == drained_chunk_count(samples, mem.len())
            * chunk_width(g0, g1),
{
    lemma_drain_chunks_len(mem, drained_chunk_count(samples, mem.len()), g0, g1);
}

/// A chunk's bytes take exactly the per-chunk width.
proof fn lemma_chunk_bytes_len(w_low: u32, w_high: u32, g0: bool, g1: bool)
    ensures
        chunk_bytes(w_low, w_high, g0, g1).len() == chunk_width(g0, g1),
{
}

/// The drain's order, explicitly: the `j`-th chunk of the output is
/// buffer chunk `n - 1 - j` — the most recently captured chunk leaves
/// first.
pub proof fn lemma_drain_chunk_at(mem: Seq<u32>, n: nat, g0: bool, g1: bool, j: nat)
    requires
        j < n,
    ensures
        drain_chunks(mem, n, g0, g1).subrange(
            j * chunk_width(g0, g1) as int,
            (j + 1) * chunk_width(g0, g1) as int,
        ) == chunk_bytes(mem[2 * (n - 1 - j)], mem[2 * (n - 1 - j) + 1], g0, g1),
    decreases j,
{
    let w = chunk_width(g0, g1);
    let head = chunk_bytes(mem[2 * (n - 1)], mem[2 * (n - 1) + 1], g0, g1);
    let rest = drain_chunks(mem, (n - 1) as nat, g0, g1);
    lemma_chunk_bytes_len(mem[2 * (n - 1)], mem[2 * (n - 1) + 1], g0, g1);
    lemma_drain_chunks_len(mem, (n - 1) as nat, g0, g1);
    if j == 0 {
        assert(drain_chunks(mem, n, g0, g1).subrange(0, w as int) =~= head);
    } else {
        lemma_drain_chunk_at(mem, (n - 1) as nat, g0, g1, (j - 1) as nat);
        assert((j - 1) * w == j * w - w && (j - 1 + 1) * w == (j + 1) * w - w) by (nonlinear_arith);
        assert(drain_chunks(mem, n, g0, g1).subrange(j * w as int, (j + 1) * w as int)
            =~= rest.subrange((j - 1) * w as int, (j - 1 + 1) * w as int));
    }
}

/// The acquisition engine. Owns the capture buffer and the program
/// installed in the coprocessor's slot; at most one program is installed
/// at a time, and the previous one is uninstalled before a new one is.
pub struct Sampler {
    armed: bool,
    program: pio::Program<32>,
    buffer: Vec<u32>,
    divisor: u16,
    samples: usize,
    group0: bool,
    group1: bool,
    strategy: CompileStrategy,
}

impl Sampler {
    /// Whether an acquisition is in flight (the hardware owns the
    /// buffer).
    pub closed spec fn armed(self) -> bool {
        self.armed
    }

    /// The installed coprocessor program.
    pub closed spec fn program(self) -> pio::Program<32> {
        self.program
    }

    /// The capture buffer's words.
    pub closed spec fn buffer(self) -> Seq<u32> {
        self.buffer@
    }

    /// The configured rate divisor (effective divider is one more).
    pub closed spec fn divisor(self) -> u16 {
        self.divisor
    }

    /// The configured sample count.
    pub closed spec fn samples(self) -> usize {
        self.samples
    }

    /// Whether channel group 0 (probes 0..8) is sent on drain.
    pub closed spec fn group0(self) -> bool {
        self.group0
    }

    /// Whether channel group 1 (probes 8..16) is sent on drain.
    pub closed spec fn group1(self) -> bool {
        self.group1
    }

    /// The configured compilation strategy.
    pub closed spec fn strategy(self) -> CompileStrategy {
        self.strategy
    }

    /// The buffer is allocated once, at its fixed capacity.
    pub open spec fn wf(self) -> bool {
        self.buffer().len() == BUFFER_WORDS
    }

    /// All capture configuration of `b` is as in `a`.
    pub open spec fn same_config(a: Sampler, b: Sampler) -> bool {
        &&& a.divisor() == b.divisor()
        &&& a.samples() == b.samples()
        &&& a.group0() == b.group0()
        &&& a.group1() == b.group1()
        &&& a.strategy() == b.strategy()
    }

    /// The acquisition state of `b` — arming, installed program, buffer —
    /// is as in `a`.
    pub open spec fn same_acquisition(a: Sampler, b: Sampler) -> bool {
        &&& a.armed() == b.armed()
        &&& a.program() == b.program()
        &&& a.buffer() == b.buffer()
    }

    /// What [`Sampler::set_divisor`] does: the divisor becomes `d` and
    /// nothing else moves.
    pub open spec fn divisor_set(pre: Sampler, post: Sampler, d: u16) -> bool {
        &&& Sampler::same_acquisition(pre, post)
        &&& post.divisor() == d
        &&& post.samples() == pre.samples()
        &&& post.group0() == pre.group0()
        &&& post.group1() == pre.group1()
        &&& post.strategy() == pre.strategy()
    }

    /// What [`Sampler::set_sample_memory`] does: the sample count becomes
    /// `n` and nothing else moves.
    pub open spec fn samples_set(pre: Sampler, post: Sampler, n: usize) -> bool {
        &&& Sampler::same_acquisition(pre, post)
        &&& post.samples() == n
        &&& post.divisor() == pre.divisor()
        &&& post.group0() == pre.group0()
        &&& post.group1() == pre.group1()
        &&& post.strategy() == pre.strategy()
    }

    /// What [`Sampler::set_flags`] does: each channel group is enabled
    /// exactly when its disable bit is clear, and nothing else moves.
    pub open spec fn flags_set(pre: Sampler, post: Sampler, flags: u8) -> bool {
        &&& Sampler::same_acquisition(pre, post)
        &&& post.group0() == ((flags >> 2u8) & 1 == 0)
        &&& post.group1() == ((flags >> 3u8) & 1 == 0)
        &&& post.divisor() == pre.divisor()
        &&& post.samples() == pre.samples()
        &&& post.strategy() == pre.strategy()
    }

    /// What [`Sampler::start`] does under trigger stages `t`: if the
    /// compiled program fits, the engine is armed with it installed —
    /// length, wrap points and origin exactly as compiled — over the
    /// reused buffer; if not, nothing at all changes.
    pub open spec fn started(pre: Sampler, post: Sampler, t: Seq<TriggerStage>) -> bool {
        &&& Sampler::same_config(pre, post)
        &&& post.buffer() == pre.buffer()
        &&& if program_cost(t, pre.strategy()) > 32 {
            post == pre
        } else {
            &&& post.armed()
            &&& prog_len(post.program()) == program_cost(t, pre.strategy())
            &&& prog_wrap_source(post.program()) == program_cost(t, pre.strategy()) - 1
            &&& prog_wrap_target(post.program()) == program_cost(t, pre.strategy()) - 1
            &&& prog_origin(post.program()) == Some(0u8)
        }
    }

    /// What [`Sampler::capture`] does: the captured `words` land at the
    /// front of the buffer, the rest keeps its old contents, and nothing
    /// else moves.
    pub open spec fn captured(pre: Sampler, post: Sampler, words: Seq<u32>) -> bool {
        &&& Sampler::same_config(pre, post)
        &&& post.armed() == pre.armed()
        &&& post.program() == pre.program()
        &&& post.buffer() == words + pre.buffer().skip(words.len() as int)
    }

    /// What [`Sampler::drain`] does: a standby engine is untouched and
    /// emits nothing; an armed one returns to standby, keeps its buffer
    /// and program, and emits the captured chunks' wire bytes.
    pub open spec fn drained(pre: Sampler, post: Sampler, out: Seq<u8>) -> bool {
        &&& !post.armed()
        &&& post.program() == pre.program()
        &&& post.buffer() == pre.buffer()
        &&& Sampler::same_config(pre, post)
        &&& if pre.armed() {
            out == drain_bytes(pre.buffer(), pre.samples() as nat, pre.group0(), pre.group1())
        } else {
            post == pre && out == Seq::<u8>::empty()
        }
    }

    /// A standby engine with the given compilation strategy, a zeroed
    /// buffer, full-rate divisor, no samples configured, both channel
    /// groups off, and the default continuous-capture program (a single
    /// blocking push) installed.
    pub fn new_with_strategy(strategy: CompileStrategy) -> (s: Sampler)
        ensures
            s.wf(),
            !s.armed(),
            s.divisor() == 0,
            s.samples() == 0,
            !s.group0(),
            !s.group1(),
            s.strategy() == strategy,
            s.buffer() =~= Seq::new(BUFFER_WORDS as nat, |i: int| 0u32),
            prog_len(s.program()) == 1,
    {
        let mut a = asm_new();
        asm_push(&mut a, true, true);
        let program = asm_assemble_program(a);
        let mut buffer: Vec<u32> = Vec::new();
        let mut i: usize = 0;
        while i < BUFFER_WORDS
            invariant
                i <= BUFFER_WORDS,
                buffer@.len() == i,
                forall|k: int| 0 <= k < i ==> buffer@[k] == 0u32,
            decreases BUFFER_WORDS - i,
        {
            buffer.push(0);
            i = i + 1;
        }
        proof {
            assert(buffer@ =~= Seq::new(BUFFER_WORDS as nat, |k: int| 0u32));
        }
        Sampler {
            armed: false,
            program,
            buffer,
            divisor: 0,
            samples: 0,
            group0: false,
            group1: false,
            strategy,
        }
    }

    /// A standby engine under the device's configured strategy.
    pub fn new() -> (s: Sampler)
        ensures
            s.wf(),
            !s.armed(),
            s.divisor() == 0,
            s.samples() == 0,
            !s.group0(),
            !s.group1(),
            s.strategy() == CompileStrategy::ShiftCompare,
            s.buffer() =~= Seq::new(BUFFER_WORDS as nat, |i: int| 0u32),
            prog_len(s.program()) == 1,
    {
        Sampler::new_with_strategy(CompileStrategy::ShiftCompare)
    }

    /// Sets the channel-group configuration: each group is enabled when
    /// its disable flag bit (bit 2 for group 0, bit 3 for group 1) is
    /// clear.
    pub fn set_flags(&mut self, flags: u8)
        ensures
            Sampler::flags_set(*old(self), *final(self), flags),
    {
        self.group0 = (flags >> 2) & 1 == 0;
        self.group1 = (flags >> 3) & 1 == 0;
    }

    /// Sets the sampling rate divisor.
    pub fn set_divisor(&mut self, divisor: u16)
        ensures
            Sampler::divisor_set(*old(self), *final(self), divisor),
    {
        self.divisor = divisor;
    }

    /// Sets how many samples the next drain reads back.
    pub fn set_sample_memory(&mut self, samples: usize)
        ensures
            Sampler::samples_set(*old(self), *final(self), samples),
    {
        self.samples = samples;
    }

    /// Whether an acquisition is in flight.
    pub fn is_armed(&self) -> (b: bool)
        ensures
            b == self.armed(),
    {
        self.armed
    }

    /// The program currently installed in the coprocessor's slot.
    pub fn installed_program(&self) -> (p: &pio::Program<32>)
        ensures
            *p == self.program(),
    {
        &self.program
    }

    /// Arms an acquisition under `trigger`. A later arm supersedes an
    /// earlier one unconditionally: an in-flight capture is abandoned
    /// and its partial data discarded. The previously installed program
    /// is uninstalled and the compiled trigger program installed in its
    /// place. If the compiled program would not fit the coprocessor's
    /// instruction slots, nothing changes: the engine stays in standby
    /// (or armed, as it was) with its previous program untouched.
    pub fn start(&mut self, trigger: Trigger) -> (r: Result<(), TriggerError>)
        requires
            old(self).wf(),
        ensures
            final(self).wf(),
            Sampler::started(*old(self), *final(self), trigger@),
            r is Err <==> program_cost(trigger@, old(self).strategy()) > 32,
            r is Err ==> r == Err::<(), TriggerError>(TriggerError::ProgramTooLarge),
    {
        match trigger.compile_with(self.strategy) {
            Ok(program) => {
                // The abandoned transfer's buffer is reused for the new
                // acquisition; the old program is dropped (uninstalled)
                // as the new one replaces it.
                self.program = program;
                self.armed = true;
                Ok(())
            },
            Err(e) => Err(e),
        }
    }

    /// Stores words the acquisition hardware captured into the front of
    /// the buffer. Only the hardware writes the buffer, and only while
    /// an acquisition is armed.
    pub fn capture(&mut self, words: &[u32])
        requires
            old(self).wf(),
            old(self).armed(),
            words@.len() <= BUFFER_WORDS,
        ensures
            final(self).wf(),
            Sampler::captured(*old(self), *final(self), words@),
    {
        let mut i: usize = 0;
        while i < words.len()
            invariant
                i <= words@.len(),
                words@.len() <= self.buffer@.len(),
                self.buffer@.len() == old(self).buffer().len(),
                self.armed == old(self).armed,
                self.program == old(self).program,
                self.divisor == old(self).divisor,
                self.samples == old(self).samples,
                self.group0 == old(self).group0,
                self.group1 == old(self).group1,
                self.strategy == old(self).strategy,
                forall|k: int| 0 <= k < i ==> self.buffer@[k] == words@[k],
                forall|k: int|
                    i <= k < self.buffer@.len() ==> self.buffer@[k] == old(self).buffer()[k],
            decreases words@.len() - i,
        {
            self.buffer[i] = words[i];
            i = i + 1;
        }
        proof {
            assert(self.buffer@ =~= words@ + old(self).buffer().skip(words@.len() as int));
        }
    }

    /// Completes an acquisition: if armed, reclaims the buffer, returns
    /// to standby, and returns the wire bytes of the captured chunks —
    /// `samples + 1` of them, most recent first, each reduced to the
    /// enabled channel groups. In standby this is a benign no-op (a
    /// stray completion indication) and returns nothing.
    pub fn drain(&mut self) -> (out: Vec<u8>)
        requires
            old(self).wf(),
        ensures
            final(self).wf(),
            Sampler::drained(*old(self), *final(self), out@),
    {
        let mut out: Vec<u8> = Vec::new();
        if !self.armed {
            return out;
        }
        self.armed = false;
        let half = BUFFER_WORDS / 2;
        let n = if self.samples < half {
            self.samples + 1
        } else {
            half
        };
        let ghost g0 = self.group0;
        let ghost g1 = self.group1;
        let ghost mem = self.buffer@;
        let mut k: usize = n;
        while k > 0
            invariant
                k <= n,
                n <= mem.len() / 2,
                mem.len() == BUFFER_WORDS,
                self.buffer@ == mem,
                mem == old(self).buffer(),
                g0 == self.group0,
                g1 == self.group1,
                self.armed == false,
                self.program == old(self).program,
                self.divisor == old(self).divisor,
                self.samples == old(self).samples,
                self.group0 == old(self).group0,
                self.group1 == old(self).group1,
                self.strategy == old(self).strategy,
                out@ + drain_chunks(mem, k as nat, g0, g1) == drain_chunks(mem, n as nat, g0, g1),
            decreases k,
        {
            let w_low = self.buffer[2 * (k - 1)];
            let w_high = self.buffer[2 * (k - 1) + 1];
            proof {
                assert((out@ + chunk_bytes(w_low, w_high, g0, g1)) + drain_chunks(
                    mem,
                    (k - 1) as nat,
                    g0,
                    g1,
                ) =~= out@ + drain_chunks(mem, k as nat, g0, g1));
            }
            self.emit_chunk(&mut out, w_low, w_high);
            k = k - 1;
        }
        proof {
            assert(out@ + drain_chunks(mem, 0, g0, g1) =~= out@);
        }
        out
    }

    /// Appends the wire bytes of one chunk to `out`.
    fn emit_chunk(&self, out: &mut Vec<u8>, w_low: u32, w_high: u32)
        ensures
            final(out)@ == old(out)@ + chunk_bytes(w_low, w_high, self.group0(), self.group1()),
    {
        let even = word_le_bytes(w_high);
        let odd = word_le_bytes(w_low);
        if self.group0 && self.group1 {
            out.push(even[0]);
            out.push(even[1]);
            out.push(even[2]);
            out.push(even[3]);
            out.push(odd[0]);
            out.push(odd[1]);
            out.push(odd[2]);
            out.push(odd[3]);
            proof {
                assert(out@ =~= old(out)@ + chunk_bytes(
                    w_low,
                    w_high,
                    self.group0(),
                    self.group1(),
                ));
            }
        } else if self.group0 {
            out.push(even[0]);
            out.push(even[2]);
            out.push(odd[0]);
            out.push(odd[2]);
            proof {
                assert(out@ =~= old(out)@ + chunk_bytes(
                    w_low,
                    w_high,
                    self.group0(),
                    self.group1(),
                ));
            }
        } else if self.group1 {
            out.push(even[1]);
            out.push(even[3]);
            out.push(odd[1]);
            out.push(odd[3]);
            proof {
                assert(out@ =~= old(out)@ + chunk_bytes(
                    w_low,
                    w_high,
                    self.group0(),
                    self.group1(),
                ));
            }
        } else {
            proof {
                assert(out@ =~= old(out)@ + chunk_bytes(
                    w_low,
                    w_high,
                    self.group0(),
                    self.group1(),
                ));
            }
        }
    }
}

/// Arming over an in-flight acquisition and then draining returns the
/// engine to standby with the very buffer it has always owned: the
/// superseded capture's partial data is discarded and nothing leaks.
pub proof fn lemma_rearm_then_drain_returns_resources(
    s0: Sampler,
    s1: Sampler,
    s2: Sampler,
    t: Seq<TriggerStage>,
    out: Seq<u8>,
)
    requires
        s0.armed(),
        Sampler::started(s0, s1, t),
        Sampler::drained(s1, s2, out),
    ensures
        !s2.armed(),
        s2.buffer() == s0.buffer(),
        Sampler::same_config(s0, s2),
{
}

/// The four bytes of a capture word, least significant first.
fn word_le_bytes(w: u32) -> (bytes: [u8; 4])
    ensures
        bytes@ == word_bytes(w),
{
    let bytes: [u8; 4] = [
        (w & 0xff) as u8,
        ((w >> 8) & 0xff) as u8,
        ((w >> 16) & 0xff) as u8,
        ((w >> 24) & 0xff) as u8,
    ];
    proof {
        assert(bytes@ =~= word_bytes(w));
    }
    bytes
}

} // verus!
