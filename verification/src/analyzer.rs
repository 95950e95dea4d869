//! The controller: owns the decoder, the trigger specification and the
//! acquisition engine, applies decoded commands, and produces the
//! protocol responses.
//!
//! Transport and interrupts are outside collaborators: the transport
//! interrupt hands [`LogicAnalyzer::poll_serial`] the bytes it read and
//! sends back the bytes returned; the acquisition-complete interrupt
//! calls [`LogicAnalyzer::acquisition_done`] and sends what it returns;
//! the capture hardware's writes are handed in through
//! [`LogicAnalyzer::capture`].
//!
//! Reset clears only the decoder's buffered bytes; the trigger
//! specification and capture configuration persist across acquisitions
//! (observed protocol revisions differ here; this is the behavior this
//! device exposes). The metadata response ends in the six-byte trailer
//! `0x24, 0, 0, 0, 2, 0`, with the final padding byte included — the
//! other choice revisions make is to omit it.

use vstd::prelude::*;

use crate::compiler::CompileStrategy;
use crate::protocol::buffered_after;
use crate::protocol::step_cmd;
use crate::protocol::step_len;
use crate::protocol::CommandProtocol;
use crate::protocol::SumpCommand;
use crate::sampler::Sampler;
use crate::trigger::delay_set;
use crate::trigger::mask_set;
use crate::trigger::pattern_set;
use crate::trigger::Trigger;
use crate::BUFFER_WORDS;
use crate::PROBES;
use crate::SAMPLE_MEMORY;
use crate::SAMPLE_RATE;

verus! {

/// The device identifier sent for GetId: the bytes of `"1ALS"`.
pub open spec fn id_bytes() -> Seq<u8> {
    seq![0x31u8, 0x41u8, 0x4cu8, 0x53u8]
}

/// The device name advertised in the metadata: the bytes of
/// `"uLA: Micro Logic Analyzer"`.
pub open spec fn device_name_bytes() -> Seq<u8> {
    seq![
        0x75u8, 0x4cu8, 0x41u8, 0x3au8, 0x20u8, 0x4du8, 0x69u8, 0x63u8, 0x72u8, 0x6fu8, 0x20u8,
        0x4cu8, 0x6fu8, 0x67u8, 0x69u8, 0x63u8, 0x20u8, 0x41u8, 0x6eu8, 0x61u8, 0x6cu8, 0x79u8,
        0x7au8, 0x65u8, 0x72u8,
    ]
}

/// The four bytes of a capability value, most significant first.
pub open spec fn be32(v: u32) -> Seq<u8> {
    seq![
        ((v >> 24u32) & 0xff) as u8,
        ((v >> 16u32) & 0xff) as u8,
        ((v >> 8u32) & 0xff) as u8,
        (v & 0xff) as u8,
    ]
}

/// The metadata sent for GetMeta: the device name, then the probe
/// count, sample-memory and sample-rate capabilities, then the protocol
/// trailer.
pub open spec fn meta_bytes() -> Seq<u8> {
    seq![0x01u8] + device_name_bytes() + seq![0x00u8] + seq![0x20u8] + be32(PROBES) + seq![0x21u8]
        + be32(SAMPLE_MEMORY) + seq![0x23u8] + be32(SAMPLE_RATE) + seq![
        0x24u8, 0x00u8, 0x00u8, 0x00u8, 0x02u8, 0x00u8,
    ]
}

/// The response a command produces on the transport; every command but
/// GetId and GetMeta acts by side effect alone.
pub open spec fn response_bytes(cmd: SumpCommand) -> Seq<u8> {
    match cmd {
        SumpCommand::GetId => id_bytes(),
        SumpCommand::GetMeta => meta_bytes(),
        _ => Seq::<u8>::empty(),
    }
}

/// The logic analyzer: decoder, trigger specification and acquisition
/// engine under one lock, driven by the two interrupt sources.
pub struct LogicAnalyzer {
    protocol: CommandProtocol,
    trigger: Trigger,
    sampler: Sampler,
}

impl LogicAnalyzer {
    /// The decoder's buffered bytes.
    pub closed spec fn protocol_bytes(self) -> Seq<u8> {
        self.protocol@
    }

    /// The current trigger specification.
    pub closed spec fn trigger(self) -> Trigger {
        self.trigger
    }

    /// The acquisition engine's state.
    pub closed spec fn sampler(self) -> Sampler {
        self.sampler
    }

    /// The decoder's buffer is bounded and the engine's buffer is at its
    /// fixed capacity.
    pub open spec fn wf(self) -> bool {
        self.protocol_bytes().len() <= crate::protocol::SCRATCH_BYTES && self.sampler().wf()
    }

    /// What applying `cmd` does to the controller, where `rest` is what
    /// the decoder keeps buffered afterwards and `out` is the response
    /// written back to the transport.
    pub open spec fn command_applied(
        pre: LogicAnalyzer,
        post: LogicAnalyzer,
        cmd: SumpCommand,
        out: Seq<u8>,
        rest: Seq<u8>,
    ) -> bool {
        out == response_bytes(cmd) && match cmd {
            SumpCommand::Reset => {
                &&& post.protocol_bytes() == Seq::<u8>::empty()
                &&& post.trigger() == pre.trigger()
                &&& post.sampler() == pre.sampler()
            },
            SumpCommand::Arm => {
                &&& post.protocol_bytes() == rest
                &&& post.trigger() == pre.trigger()
                &&& Sampler::started(pre.sampler(), post.sampler(), pre.trigger()@)
            },
            SumpCommand::GetId | SumpCommand::GetMeta => {
                &&& post.protocol_bytes() == rest
                &&& post.trigger() == pre.trigger()
                &&& post.sampler() == pre.sampler()
            },
            SumpCommand::SetDivisor(d) => {
                &&& post.protocol_bytes() == rest
                &&& post.trigger() == pre.trigger()
                &&& Sampler::divisor_set(pre.sampler(), post.sampler(), d)
            },
            SumpCommand::SetReadCount(n) => {
                &&& post.protocol_bytes() == rest
                &&& post.trigger() == pre.trigger()
                &&& Sampler::samples_set(pre.sampler(), post.sampler(), n)
            },
            SumpCommand::SetFlags(f) => {
                &&& post.protocol_bytes() == rest
                &&& post.trigger() == pre.trigger()
                &&& Sampler::flags_set(pre.sampler(), post.sampler(), f)
            },
            SumpCommand::SetTriggerMask(s, m) => {
                &&& post.protocol_bytes() == rest
                &&& post.sampler() == pre.sampler()
                &&& if s < 4 {
                    mask_set(pre.trigger()@, post.trigger()@, s as int, m)
                } else {
                    post.trigger() == pre.trigger()
                }
            },
            SumpCommand::SetTriggerValues(s, p) => {
                &&& post.protocol_bytes() == rest
                &&& post.sampler() == pre.sampler()
                &&& if s < 4 {
                    pattern_set(pre.trigger()@, post.trigger()@, s as int, p)
                } else {
                    post.trigger() == pre.trigger()
                }
            },
            SumpCommand::SetTriggerDelay(s, d) => {
                &&& post.protocol_bytes() == rest
                &&& post.sampler() == pre.sampler()
                &&& if s < 4 {
                    delay_set(pre.trigger()@, post.trigger()@, s as int, d)
                } else {
                    post.trigger() == pre.trigger()
                }
            },
        }
    }

    /// A fresh analyzer under the given compilation strategy: empty
    /// decoder buffer, all-zero trigger, standby engine.
    pub fn new_with_strategy(strategy: CompileStrategy) -> (a: LogicAnalyzer)
        ensures
            a.wf(),
            a.protocol_bytes() == Seq::<u8>::empty(),
            a.trigger()@.len() == 4,
            forall|i: int| 0 <= i < 4 ==> (#[trigger] a.trigger()@[i]).is_zero(),
            !a.sampler().armed(),
            a.sampler().divisor() == 0,
            a.sampler().samples() == 0,
            !a.sampler().group0(),
            !a.sampler().group1(),
            a.sampler().strategy() == strategy,
    {
        LogicAnalyzer {
            protocol: CommandProtocol::new(),
            trigger: Trigger::new(),
            sampler: Sampler::new_with_strategy(strategy),
        }
    }

    /// A fresh analyzer under the device's configured strategy.
    pub fn new() -> (a: LogicAnalyzer)
        ensures
            a.wf(),
            a.protocol_bytes() == Seq::<u8>::empty(),
            a.trigger()@.len() == 4,
            forall|i: int| 0 <= i < 4 ==> (#[trigger] a.trigger()@[i]).is_zero(),
            !a.sampler().armed(),
            a.sampler().divisor() == 0,
            a.sampler().samples() == 0,
            !a.sampler().group0(),
            !a.sampler().group1(),
            a.sampler().strategy() == CompileStrategy::ShiftCompare,
    {
        LogicAnalyzer::new_with_strategy(CompileStrategy::ShiftCompare)
    }

    /// Feeds the bytes the transport delivered, decodes at most one
    /// command, applies it, and returns the response bytes to send (for
    /// GetId and GetMeta; every other command responds with nothing).
    pub fn poll_serial(&mut self, bytes: &[u8]) -> (out: Vec<u8>)
        requires
            old(self).wf(),
        ensures
            final(self).wf(),
            ({
                let buf = buffered_after(old(self).protocol_bytes(), bytes@);
                let rest = buf.skip(step_len(buf) as int);
                match step_cmd(buf) {
                    None => {
                        &&& final(self).protocol_bytes() == rest
                        &&& final(self).trigger() == old(self).trigger()
                        &&& final(self).sampler() == old(self).sampler()
                        &&& out@ == Seq::<u8>::empty()
                    },
                    Some(cmd) => LogicAnalyzer::command_applied(
                        *old(self),
                        *final(self),
                        cmd,
                        out@,
                        rest,
                    ),
                }
            }),
    {
        let cmd = self.protocol.feed(bytes);
        match cmd {
            None => Vec::new(),
            Some(SumpCommand::Reset) => {
                self.protocol.clear();
                Vec::new()
            },
            Some(SumpCommand::Arm) => {
                // A too-large compiled program leaves the engine as it
                // was; the protocol has no failure reply to send.
                let _armed = self.sampler.start(self.trigger);
                Vec::new()
            },
            Some(SumpCommand::GetId) => id_response(),
            Some(SumpCommand::GetMeta) => meta_response(),
            Some(SumpCommand::SetDivisor(d)) => {
                self.sampler.set_divisor(d);
                Vec::new()
            },
            Some(SumpCommand::SetReadCount(n)) => {
                self.sampler.set_sample_memory(n);
                Vec::new()
            },
            Some(SumpCommand::SetFlags(f)) => {
                self.sampler.set_flags(f);
                Vec::new()
            },
            Some(SumpCommand::SetTriggerMask(s, m)) => {
                if s < 4 {
                    self.trigger.set_mask(s as usize, m);
                }
                Vec::new()
            },
            Some(SumpCommand::SetTriggerValues(s, p)) => {
                if s < 4 {
                    self.trigger.set_pattern(s as usize, p);
                }
                Vec::new()
            },
            Some(SumpCommand::SetTriggerDelay(s, d)) => {
                if s < 4 {
                    self.trigger.set_delay(s as usize, d);
                }
                Vec::new()
            },
        }
    }

    /// Handles the acquisition-complete signal: drains the engine and
    /// returns the capture's wire bytes (empty for a stray signal in
    /// standby).
    pub fn acquisition_done(&mut self) -> (out: Vec<u8>)
        requires
            old(self).wf(),
        ensures
            final(self).wf(),
            final(self).protocol_bytes() == old(self).protocol_bytes(),
            final(self).trigger() == old(self).trigger(),
            Sampler::drained(old(self).sampler(), final(self).sampler(), out@),
    {
        self.sampler.drain()
    }

    /// Hands in words the capture hardware wrote. Ignored in standby:
    /// the hardware only owns the buffer while an acquisition is armed.
    pub fn capture(&mut self, words: &[u32])
        requires
            old(self).wf(),
            words@.len() <= BUFFER_WORDS,
        ensures
            final(self).wf(),
            final(self).protocol_bytes() == old(self).protocol_bytes(),
            final(self).trigger() == old(self).trigger(),
            old(self).sampler().armed() ==> Sampler::captured(
                old(self).sampler(),
                final(self).sampler(),
                words@,
            ),
            !old(self).sampler().armed() ==> final(self).sampler() == old(self).sampler(),
    {
        if self.sampler.is_armed() {
            self.sampler.capture(words);
        }
    }
}

/// Builds the GetId response.
fn id_response() -> (v: Vec<u8>)
    ensures
        v@ == id_bytes(),
{
    let mut v: Vec<u8> = Vec::new();
    v.push(0x31);
    v.push(0x41);
    v.push(0x4c);
    v.push(0x53);
    proof {
        assert(v@ =~= id_bytes());
    }
    v
}

/// The four bytes of a capability value, most significant first.
fn be32_value(v: u32) -> (bytes: [u8; 4])
    ensures
        bytes@ == be32(v),
{
    let bytes: [u8; 4] = [
        ((v >> 24) & 0xff) as u8,
        ((v >> 16) & 0xff) as u8,
        ((v >> 8) & 0xff) as u8,
        (v & 0xff) as u8,
    ];
    proof {
        assert(bytes@ =~= be32(v));
    }
    bytes
}

/// Builds the GetMeta response.
fn meta_response() -> (v: Vec<u8>)
    ensures
        v@ == meta_bytes(),
{
    let mut v: Vec<u8> = Vec::new();
    v.push(0x01);
    let name: [u8; 25] = [
        0x75, 0x4c, 0x41, 0x3a, 0x20, 0x4d, 0x69, 0x63, 0x72, 0x6f, 0x20, 0x4c, 0x6f, 0x67, 0x69,
        0x63, 0x20, 0x41, 0x6e, 0x61, 0x6c, 0x79, 0x7a, 0x65, 0x72,
    ];
    let mut i: usize = 0;
    while i < 25
        invariant
            i <= 25,
            name@ == device_name_bytes(),
            v@ == seq![0x01u8] + device_name_bytes().take(i as int),
        decreases 25 - i,
    {
        v.push(name[i]);
        i = i + 1;
    }
    v.push(0x00);
    v.push(0x20);
    let probes = be32_value(PROBES);
    push_four(&mut v, probes);
    v.push(0x21);
    let memory = be32_value(SAMPLE_MEMORY);
    push_four(&mut v, memory);
    v.push(0x23);
    let rate = be32_value(SAMPLE_RATE);
    push_four(&mut v, rate);
    v.push(0x24);
    v.push(0x00);
    v.push(0x00);
    v.push(0x00);
    v.push(0x02);
    v.push(0x00);
    proof {
        assert(name@ =~= device_name_bytes());
        assert(v@ =~= meta_bytes());
    }
    v
}

/// Appends four bytes to `v`.
fn push_four(v: &mut Vec<u8>, bytes: [u8; 4])
    ensures
        final(v)@ == old(v)@ + bytes@,
{
    v.push(bytes[0]);
    v.push(bytes[1]);
    v.push(bytes[2]);
    v.push(bytes[3]);
    proof {
        assert(v@ =~= old(v)@ + bytes@);
    }
}

} // verus!
