//! Trigger specification: four ordered stages of mask/pattern/delay.
//!
//! A stage with a zero mask is disabled. The stages are mutated by the
//! `SetTrigger*` protocol commands and read by the compiler.

use vstd::prelude::*;

verus! {

/// One trigger stage. A probe bit takes part in the stage's condition
/// exactly when the corresponding `mask` bit is set; the probe must then
/// equal the corresponding `pattern` bit. `delay` is accepted from the
/// protocol but reserved: the compiler does not use it.
#[derive(Clone, Copy, PartialEq, Eq, Structural, Debug)]
pub struct TriggerStage {
    mask: u32,
    pattern: u32,
    delay: u32,
}

impl TriggerStage {
    /// The stage's probe mask.
    pub closed spec fn mask(self) -> u32 {
        self.mask
    }

    /// The stage's expected probe pattern.
    pub closed spec fn pattern(self) -> u32 {
        self.pattern
    }

    /// The stage's reserved delay field.
    pub closed spec fn delay(self) -> u32 {
        self.delay
    }

    /// True of a stage whose three fields are all zero (the disabled default).
    pub open spec fn is_zero(self) -> bool {
        self.mask() == 0 && self.pattern() == 0 && self.delay() == 0
    }

    /// Reads the stage's probe mask.
    pub fn read_mask(&self) -> (m: u32)
        ensures
            m == self.mask(),
    {
        self.mask
    }

    /// Reads the stage's expected probe pattern.
    pub fn read_pattern(&self) -> (p: u32)
        ensures
            p == self.pattern(),
    {
        self.pattern
    }
}

/// The full trigger specification: exactly four stages, default all-zero.
#[derive(Clone, Copy, PartialEq, Eq, Structural, Debug)]
pub struct Trigger {
    stage0: TriggerStage,
    stage1: TriggerStage,
    stage2: TriggerStage,
    stage3: TriggerStage,
}

impl View for Trigger {
    type V = Seq<TriggerStage>;

    /// The four stages in order.
    closed spec fn view(&self) -> Seq<TriggerStage> {
        seq![self.stage0, self.stage1, self.stage2, self.stage3]
    }
}

/// A trigger always views as exactly its four stages.
pub proof fn lemma_stage_count(t: Trigger)
    ensures
        t@.len() == 4,
{
}

/// What [`Trigger::set_mask`] does: stage `stage`'s mask becomes `mask`
/// and nothing else moves.
pub open spec fn mask_set(pre: Seq<TriggerStage>, post: Seq<TriggerStage>, stage: int, mask: u32) -> bool {
    &&& post.len() == 4
    &&& post[stage].mask() == mask
    &&& post[stage].pattern() == pre[stage].pattern()
    &&& post[stage].delay() == pre[stage].delay()
    &&& forall|i: int| 0 <= i < 4 && i != stage ==> post[i] == pre[i]
}

/// What [`Trigger::set_pattern`] does: stage `stage`'s pattern becomes
/// `pattern` and nothing else moves.
pub open spec fn pattern_set(pre: Seq<TriggerStage>, post: Seq<TriggerStage>, stage: int, pattern: u32) -> bool {
    &&& post.len() == 4
    &&& post[stage].mask() == pre[stage].mask()
    &&& post[stage].pattern() == pattern
    &&& post[stage].delay() == pre[stage].delay()
    &&& forall|i: int| 0 <= i < 4 && i != stage ==> post[i] == pre[i]
}

/// What [`Trigger::set_delay`] does: stage `stage`'s delay becomes
/// `delay` and nothing else moves.
pub open spec fn delay_set(pre: Seq<TriggerStage>, post: Seq<TriggerStage>, stage: int, delay: u32) -> bool {
    &&& post.len() == 4
    &&& post[stage].mask() == pre[stage].mask()
    &&& post[stage].pattern() == pre[stage].pattern()
    &&& post[stage].delay() == delay
    &&& forall|i: int| 0 <= i < 4 && i != stage ==> post[i] == pre[i]
}

impl Trigger {
    /// A trigger with all four stages disabled.
    pub fn new() -> (t: Trigger)
        ensures
            t@.len() == 4,
            forall|i: int| 0 <= i < 4 ==> (#[trigger] t@[i]).is_zero(),
    {
        Trigger {
            stage0: TriggerStage { mask: 0, pattern: 0, delay: 0 },
            stage1: TriggerStage { mask: 0, pattern: 0, delay: 0 },
            stage2: TriggerStage { mask: 0, pattern: 0, delay: 0 },
            stage3: TriggerStage { mask: 0, pattern: 0, delay: 0 },
        }
    }

    /// Sets the probe mask of stage `stage`, leaving everything else as it was.
    pub fn set_mask(&mut self, stage: usize, mask: u32)
        requires
            stage < 4,
        ensures
            mask_set(old(self)@, final(self)@, stage as int, mask),
    {
        match stage {
            0 => self.stage0.mask = mask,
            1 => self.stage1.mask = mask,
            2 => self.stage2.mask = mask,
            _ => self.stage3.mask = mask,
        }
    }

    /// Sets the expected pattern of stage `stage`, leaving everything else as it was.
    pub fn set_pattern(&mut self, stage: usize, pattern: u32)
        requires
            stage < 4,
        ensures
            pattern_set(old(self)@, final(self)@, stage as int, pattern),
    {
        match stage {
            0 => self.stage0.pattern = pattern,
            1 => self.stage1.pattern = pattern,
            2 => self.stage2.pattern = pattern,
            _ => self.stage3.pattern = pattern,
        }
    }

    /// Sets the reserved delay of stage `stage`, leaving everything else as it was.
    pub fn set_delay(&mut self, stage: usize, delay: u32)
        requires
            stage < 4,
        ensures
            delay_set(old(self)@, final(self)@, stage as int, delay),
    {
        match stage {
            0 => self.stage0.delay = delay,
            1 => self.stage1.delay = delay,
            2 => self.stage2.delay = delay,
            _ => self.stage3.delay = delay,
        }
    }

    /// Reads stage `i`.
    pub fn stage(&self, i: usize) -> (s: TriggerStage)
        requires
            i < 4,
        ensures
            s == self@[i as int],
    {
        match i {
            0 => self.stage0,
            1 => self.stage1,
            2 => self.stage2,
            _ => self.stage3,
        }
    }
}

impl Default for Trigger {
    /// Same as [`Trigger::new`]: all four stages disabled.
    fn default() -> (t: Trigger)
        ensures
            t@.len() == 4,
            forall|i: int| 0 <= i < 4 ==> (#[trigger] t@[i]).is_zero(),
    {
        Trigger::new()
    }
}

} // verus!
