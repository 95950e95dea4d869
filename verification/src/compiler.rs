//! The trigger compiler: turns a [`Trigger`] specification into a native
//! program for the sampling coprocessor.
//!
//! The compiler works in two layers. The verified planner decomposes
//! each enabled stage's mask into runs — a run of clear bits is
//! discarded in one instruction, a single set bit becomes an
//! extract-and-loop pair, and a run of set bits is split into
//! compare chunks of at most five bits (the machine's immediate width).
//! The emitter then maps each planned operation onto fixed calls into
//! the trusted assembler boundary, closing the program with the wrap
//! body: one capture instruction that, once triggered, loops forever.
//!
//! Two planning strategies exist behind the same interface, chosen at
//! configuration time: the shift-and-compare decomposition above, and a
//! simpler equivalent that emits one blocking wait per set mask bit.

use vstd::prelude::*;
use vstd::std_specs::bits::axiom_u32_trailing_ones;
use vstd::std_specs::bits::axiom_u32_trailing_zeros;
use vstd::std_specs::bits::u32_trailing_ones;
use vstd::std_specs::bits::u32_trailing_zeros;

use crate::trigger::Trigger;
use crate::trigger::TriggerStage;

verus! {

/// One planned operation of a shift-and-compare stage. The stage first
/// snapshots the probe pins into the shift register (bit-reversed, so
/// shifting out aligns with ascending probe index); each operation then
/// consumes register bits from the low end of the mask upward.
#[derive(Clone, Copy, PartialEq, Eq, Structural, Debug)]
pub enum RunOp {
    /// Discard `bits` bits not covered by the mask: one instruction.
    Discard { bits: u8 },
    /// Extract a single masked bit and loop back to the stage's
    /// snapshot until it equals `expected`: an extract/jump pair. The
    /// two jump conditions differ by the expected bit on purpose.
    MatchBit { expected: bool },
    /// Extract `bits` masked bits (two to five) and loop back to the
    /// stage's snapshot until they equal `value`: a load/extract/jump
    /// triple.
    MatchRun { bits: u8, value: u8 },
}

/// One planned operation of a wait-per-bit stage: block until probe
/// `pin` reads `high`.
#[derive(Clone, Copy, PartialEq, Eq, Structural, Debug)]
pub struct WaitOp {
    /// The probe waited on.
    pub pin: u8,
    /// The level waited for.
    pub high: bool,
}

/// Which planning strategy the compiler uses; fixed when the device is
/// configured, not per acquisition.
#[derive(Clone, Copy, PartialEq, Eq, Structural, Debug)]
pub enum CompileStrategy {
    /// Snapshot the pins, then shift and compare mask runs.
    ShiftCompare,
    /// One blocking wait per set mask bit, in ascending probe order.
    WaitPerBit,
}

/// Fault at arm time.
#[derive(Clone, Copy, PartialEq, Eq, Structural, Debug)]
pub enum TriggerError {
    /// The compiled program does not fit the coprocessor's 32
    /// instruction slots.
    ProgramTooLarge,
}

/// The run decomposition of one stage's `mask` and `pattern`, scanning
/// from the low bit upward until the mask is exhausted.
pub open spec fn run_ops(mask: u32, pattern: u32) -> Seq<RunOp>
    decreases mask,
    via run_ops_decreases
{
    if mask == 0 {
        seq![]
    } else if mask & 1 == 0 {
        let z = u32_trailing_zeros(mask);
        seq![RunOp::Discard { bits: z as u8 }] + run_ops(mask >> z, pattern >> z)
    } else {
        let o = u32_trailing_ones(mask);
        if o == 1 {
            seq![RunOp::MatchBit { expected: pattern & 1 == 1 }] + run_ops(mask >> 1u32, pattern >> 1u32)
        } else {
            let b: u32 = if o < 5 { o } else { 5 };
            seq![RunOp::MatchRun { bits: b as u8, value: (pattern & (((1u32 << b) - 1) as u32)) as u8 }]
                + run_ops(mask >> b, pattern >> b)
        }
    }
}

/// For a non-zero mask whose low bit is clear, the zero run has length
/// one to thirty-one and shifting it away strictly shrinks the mask.
proof fn lemma_zero_run_shrinks(mask: u32)
    requires
        mask != 0,
        mask & 1 == 0,
    ensures
        1 <= u32_trailing_zeros(mask) < 32,
        mask >> u32_trailing_zeros(mask) < mask,
{
    axiom_u32_trailing_zeros(mask);
    let z = u32_trailing_zeros(mask);
    assert(mask >> 0u32 == mask) by (bit_vector);
    assert((mask >> z) < mask) by (bit_vector)
        requires
            mask != 0,
            1 <= z < 32,
    ;
}

/// For a mask whose low bit is set, the one run has length at least one
/// and shifting one to five bits away strictly shrinks the mask.
proof fn lemma_one_run_shrinks(mask: u32, b: u32)
    requires
        mask & 1 == 1,
        1 <= b <= 5,
    ensures
        1 <= u32_trailing_ones(mask),
        mask >> b < mask,
{
    axiom_u32_trailing_ones(mask);
    assert(mask >> 0u32 == mask) by (bit_vector);
    assert(mask & 1 == 1 ==> mask != 0) by (bit_vector);
    assert((mask >> b) < mask) by (bit_vector)
        requires
            mask != 0,
            1 <= b <= 5,
    ;
}

#[via_fn]
proof fn run_ops_decreases(mask: u32, pattern: u32) {
    if mask != 0 {
        if mask & 1 == 0 {
            lemma_zero_run_shrinks(mask);
        } else {
            assert(mask & 1 == 0 || mask & 1 == 1) by (bit_vector);
            let o = u32_trailing_ones(mask);
            let b: u32 = if o < 5 { o } else { 5 };
            lemma_one_run_shrinks(mask, 1);
            if o != 1 {
                lemma_one_run_shrinks(mask, b);
            }
        }
    }
}

/// The wait decomposition of one stage from bit `i` upward: one blocking
/// wait per set mask bit, in ascending probe order.
pub open spec fn wait_ops_from(mask: u32, pattern: u32, i: nat) -> Seq<WaitOp>
    decreases 32 - i,
{
    if i >= 32 {
        seq![]
    } else {
        let rest = wait_ops_from(mask, pattern, i + 1);
        if (mask >> (i as u32)) & 1 == 1 {
            seq![WaitOp { pin: i as u8, high: (pattern >> (i as u32)) & 1 == 1 }] + rest
        } else {
            rest
        }
    }
}

/// The full wait decomposition of one stage.
pub open spec fn wait_ops(mask: u32, pattern: u32) -> Seq<WaitOp> {
    wait_ops_from(mask, pattern, 0)
}

/// An operation the emitter can realize: immediates fit their
/// instruction fields.
pub open spec fn run_op_wf(op: RunOp) -> bool {
    match op {
        RunOp::Discard { bits } => 1 <= bits <= 31,
        RunOp::MatchBit { expected } => true,
        RunOp::MatchRun { bits, value } => 2 <= bits <= 5 && value <= 31,
    }
}

/// Every operation of the sequence can be realized.
pub open spec fn runs_wf(ops: Seq<RunOp>) -> bool
    decreases ops.len(),
{
    ops.len() == 0 || (run_op_wf(ops[0]) && runs_wf(ops.skip(1)))
}

/// Instructions one planned operation costs.
pub open spec fn run_op_cost(op: RunOp) -> nat {
    match op {
        RunOp::Discard { .. } => 1,
        RunOp::MatchBit { .. } => 2,
        RunOp::MatchRun { .. } => 3,
    }
}

/// Instructions a stage's run decomposition costs, not counting the
/// stage's pin snapshot.
pub open spec fn runs_cost(ops: Seq<RunOp>) -> nat
    decreases ops.len(),
{
    if ops.len() == 0 {
        0
    } else {
        run_op_cost(ops[0]) + runs_cost(ops.skip(1))
    }
}

/// The shift-and-compare plan: the run decomposition of each enabled
/// stage, in stage order.
pub open spec fn shift_plan(stages: Seq<TriggerStage>) -> Seq<Seq<RunOp>>
    decreases stages.len(),
{
    if stages.len() == 0 {
        seq![]
    } else {
        let head: Seq<Seq<RunOp>> = if stages[0].mask() != 0 {
            seq![run_ops(stages[0].mask(), stages[0].pattern())]
        } else {
            seq![]
        };
        head + shift_plan(stages.skip(1))
    }
}

/// The wait-per-bit plan: the wait decomposition of each enabled stage,
/// in stage order.
pub open spec fn wait_plan(stages: Seq<TriggerStage>) -> Seq<Seq<WaitOp>>
    decreases stages.len(),
{
    if stages.len() == 0 {
        seq![]
    } else {
        let head: Seq<Seq<WaitOp>> = if stages[0].mask() != 0 {
            seq![wait_ops(stages[0].mask(), stages[0].pattern())]
        } else {
            seq![]
        };
        head + wait_plan(stages.skip(1))
    }
}

/// Instructions a shift-and-compare plan costs: one pin snapshot per
/// enabled stage plus its runs.
pub open spec fn shift_plan_cost(plan: Seq<Seq<RunOp>>) -> nat
    decreases plan.len(),
{
    if plan.len() == 0 {
        0
    } else {
        1 + runs_cost(plan[0]) + shift_plan_cost(plan.skip(1))
    }
}

/// Instructions a wait-per-bit plan costs: one per wait.
pub open spec fn wait_plan_cost(plan: Seq<Seq<WaitOp>>) -> nat
    decreases plan.len(),
{
    if plan.len() == 0 {
        0
    } else {
        plan[0].len() + wait_plan_cost(plan.skip(1))
    }
}

/// Instructions the compiled program takes: the chosen plan's stages
/// plus the single wrap-body capture instruction.
pub open spec fn program_cost(stages: Seq<TriggerStage>, strategy: CompileStrategy) -> nat {
    1 + match strategy {
        CompileStrategy::ShiftCompare => shift_plan_cost(shift_plan(stages)),
        CompileStrategy::WaitPerBit => wait_plan_cost(wait_plan(stages)),
    }
}

/// Every operation the run decomposition plans can be realized.
pub proof fn lemma_run_ops_wf(mask: u32, pattern: u32)
    ensures
        runs_wf(run_ops(mask, pattern)),
    decreases mask,
{
    if mask == 0 {
    } else if mask & 1 == 0 {
        let z = u32_trailing_zeros(mask);
        lemma_zero_run_shrinks(mask);
        lemma_run_ops_wf(mask >> z, pattern >> z);
        assert(run_ops(mask, pattern).skip(1) =~= run_ops(mask >> z, pattern >> z));
    } else {
        assert(mask & 1 == 0 || mask & 1 == 1) by (bit_vector);
        let o = u32_trailing_ones(mask);
        lemma_one_run_shrinks(mask, 1);
        if o == 1 {
            lemma_run_ops_wf(mask >> 1u32, pattern >> 1u32);
            assert(run_ops(mask, pattern).skip(1) =~= run_ops(mask >> 1u32, pattern >> 1u32));
        } else {
            let b: u32 = if o < 5 { o } else { 5 };
            lemma_one_run_shrinks(mask, b);
            lemma_run_ops_wf(mask >> b, pattern >> b);
            assert(2 <= b <= 5 ==> (pattern & (((1u32 << b) - 1) as u32)) <= 31) by (bit_vector);
            assert(run_ops(mask, pattern).skip(1) =~= run_ops(mask >> b, pattern >> b));
        }
    }
}

/// The run decomposition plans at most one operation per mask value step;
/// in particular it is finite and its cost is bounded.
pub proof fn lemma_run_ops_len(mask: u32, pattern: u32)
    ensures
        run_ops(mask, pattern).len() <= mask,
    decreases mask,
{
    if mask == 0 {
    } else if mask & 1 == 0 {
        let z = u32_trailing_zeros(mask);
        lemma_zero_run_shrinks(mask);
        lemma_run_ops_len(mask >> z, pattern >> z);
    } else {
        assert(mask & 1 == 0 || mask & 1 == 1) by (bit_vector);
        let o = u32_trailing_ones(mask);
        lemma_one_run_shrinks(mask, 1);
        if o == 1 {
            lemma_run_ops_len(mask >> 1u32, pattern >> 1u32);
        } else {
            let b: u32 = if o < 5 { o } else { 5 };
            lemma_one_run_shrinks(mask, b);
            lemma_run_ops_len(mask >> b, pattern >> b);
        }
    }
}

/// A stage's run cost is at most three instructions per planned
/// operation.
pub proof fn lemma_runs_cost_le(ops: Seq<RunOp>)
    ensures
        runs_cost(ops) <= 3 * ops.len(),
    decreases ops.len(),
{
    if ops.len() > 0 {
        lemma_runs_cost_le(ops.skip(1));
    }
}

/// A shift-and-compare plan built from `stages` costs at most
/// `stages.len() * (1 + 3 * u32::MAX)` instructions — finite, so the
/// compiler's size check can be computed exactly.
pub proof fn lemma_shift_plan_cost_bound(stages: Seq<TriggerStage>)
    ensures
        shift_plan_cost(shift_plan(stages)) <= stages.len() * (1 + 3 * 0xffff_ffff),
    decreases stages.len(),
{
    if stages.len() > 0 {
        lemma_shift_plan_cost_bound(stages.skip(1));
        if stages[0].mask() != 0 {
            lemma_run_ops_len(stages[0].mask(), stages[0].pattern());
            lemma_runs_cost_le(run_ops(stages[0].mask(), stages[0].pattern()));
            assert(shift_plan(stages).skip(1) =~= shift_plan(stages.skip(1)));
        }
        assert(stages.len() * (1 + 3 * 0xffff_ffff) == (1 + 3 * 0xffff_ffff) + (stages.len() - 1) * (1
            + 3 * 0xffff_ffff)) by (nonlinear_arith);
    }
}

/// The wait decomposition of one stage holds at most one wait per bit
/// scanned, each waiting on a probe index below 32.
pub proof fn lemma_wait_ops_from_bound(mask: u32, pattern: u32, i: nat)
    requires
        i <= 32,
    ensures
        wait_ops_from(mask, pattern, i).len() <= 32 - i,
        forall|k: int|
            0 <= k < wait_ops_from(mask, pattern, i).len() ==> (#[trigger] wait_ops_from(
                mask,
                pattern,
                i,
            )[k]).pin <= 31,
    decreases 32 - i,
{
    if i < 32 {
        lemma_wait_ops_from_bound(mask, pattern, i + 1);
    }
}

/// A wait-per-bit plan built from `stages` costs at most 32 instructions
/// per stage.
pub proof fn lemma_wait_plan_cost_bound(stages: Seq<TriggerStage>)
    ensures
        wait_plan_cost(wait_plan(stages)) <= stages.len() * 32,
    decreases stages.len(),
{
    if stages.len() > 0 {
        lemma_wait_plan_cost_bound(stages.skip(1));
        if stages[0].mask() != 0 {
            lemma_wait_ops_from_bound(stages[0].mask(), stages[0].pattern(), 0);
            assert(wait_plan(stages).skip(1) =~= wait_plan(stages.skip(1)));
        }
        assert(stages.len() * 32 == 32 + (stages.len() - 1) * 32) by (nonlinear_arith);
    }
}

/// Every stage plan the shift-and-compare planner produces can be
/// realized by the emitter.
pub proof fn lemma_shift_plan_wf(stages: Seq<TriggerStage>)
    ensures
        forall|i: int|
            0 <= i < shift_plan(stages).len() ==> runs_wf(#[trigger] shift_plan(stages)[i]),
    decreases stages.len(),
{
    if stages.len() > 0 {
        lemma_shift_plan_wf(stages.skip(1));
        if stages[0].mask() != 0 {
            lemma_run_ops_wf(stages[0].mask(), stages[0].pattern());
            assert forall|i: int|
                0 <= i < shift_plan(stages).len() implies runs_wf(
                #[trigger] shift_plan(stages)[i],
            ) by {
                if i > 0 {
                    assert(shift_plan(stages)[i] == shift_plan(stages.skip(1))[i - 1]);
                }
            }
        } else {
            assert forall|i: int|
                0 <= i < shift_plan(stages).len() implies runs_wf(
                #[trigger] shift_plan(stages)[i],
            ) by {
                assert(shift_plan(stages)[i] == shift_plan(stages.skip(1))[i]);
            }
        }
    }
}

/// Every wait of the sequence targets a probe index the wait
/// instruction's field can hold.
pub open spec fn waits_wf(ops: Seq<WaitOp>) -> bool {
    forall|k: int| 0 <= k < ops.len() ==> (#[trigger] ops[k]).pin <= 31
}

/// Every stage plan the wait-per-bit planner produces can be realized by
/// the emitter.
pub proof fn lemma_wait_plan_wf(stages: Seq<TriggerStage>)
    ensures
        forall|i: int|
            0 <= i < wait_plan(stages).len() ==> waits_wf(#[trigger] wait_plan(stages)[i]),
    decreases stages.len(),
{
    if stages.len() > 0 {
        lemma_wait_plan_wf(stages.skip(1));
        if stages[0].mask() != 0 {
            lemma_wait_ops_from_bound(stages[0].mask(), stages[0].pattern(), 0);
            assert forall|i: int|
                0 <= i < wait_plan(stages).len() implies waits_wf(
                #[trigger] wait_plan(stages)[i],
            ) by {
                if i > 0 {
                    assert(wait_plan(stages)[i] == wait_plan(stages.skip(1))[i - 1]);
                }
            }
        } else {
            assert forall|i: int|
                0 <= i < wait_plan(stages).len() implies waits_wf(
                #[trigger] wait_plan(stages)[i],
            ) by {
                assert(wait_plan(stages)[i] == wait_plan(stages.skip(1))[i]);
            }
        }
    }
}

/// A specification with every stage disabled plans nothing: the compiled
/// program holds only the wrap-body capture instruction, under either
/// strategy.
pub proof fn lemma_disabled_stages_plan_nothing(stages: Seq<TriggerStage>, strategy: CompileStrategy)
    requires
        forall|i: int| 0 <= i < stages.len() ==> (#[trigger] stages[i]).mask() == 0,
    ensures
        shift_plan(stages) =~= Seq::<Seq<RunOp>>::empty(),
        wait_plan(stages) =~= Seq::<Seq<WaitOp>>::empty(),
        program_cost(stages, strategy) == 1,
    decreases stages.len(),
{
    if stages.len() > 0 {
        assert(forall|i: int|
            0 <= i < stages.skip(1).len() ==> (#[trigger] stages.skip(1)[i]).mask() == 0);
        lemma_disabled_stages_plan_nothing(stages.skip(1), strategy);
    }
}

/// The planned run decomposition of one enabled stage, materialized.
pub struct ShiftStage {
    /// The stage's operations, after its implicit pin snapshot.
    pub ops: Vec<RunOp>,
}

impl View for ShiftStage {
    type V = Seq<RunOp>;

    open spec fn view(&self) -> Seq<RunOp> {
        self.ops@
    }
}

/// The planned wait decomposition of one enabled stage, materialized.
pub struct WaitStage {
    /// The stage's waits, in ascending probe order.
    pub waits: Vec<WaitOp>,
}

impl View for WaitStage {
    type V = Seq<WaitOp>;

    open spec fn view(&self) -> Seq<WaitOp> {
        self.waits@
    }
}

/// The planned operations of a materialized shift-and-compare plan.
pub open spec fn shift_views(plan: Seq<ShiftStage>) -> Seq<Seq<RunOp>> {
    plan.map_values(|s: ShiftStage| s@)
}

/// The planned waits of a materialized wait-per-bit plan.
pub open spec fn wait_views(plan: Seq<WaitStage>) -> Seq<Seq<WaitOp>> {
    plan.map_values(|s: WaitStage| s@)
}

/// Computes the run decomposition of one stage.
fn build_runs(mask: u32, pattern: u32) -> (ops: Vec<RunOp>)
    ensures
        ops@ == run_ops(mask, pattern),
{
    let mut ops: Vec<RunOp> = Vec::new();
    let mut m = mask;
    let mut p = pattern;
    while m != 0
        invariant
            run_ops(mask, pattern) == ops@ + run_ops(m, p),
        decreases m,
    {
        if m & 1 == 0 {
            let z = m.trailing_zeros();
            proof {
                lemma_zero_run_shrinks(m);
                assert(ops@.push(RunOp::Discard { bits: z as u8 }) + run_ops(m >> z, p >> z)
                    =~= ops@ + run_ops(m, p));
            }
            ops.push(RunOp::Discard { bits: z as u8 });
            p = p >> z;
            m = m >> z;
        } else {
            proof {
                assert(m & 1 == 0 || m & 1 == 1) by (bit_vector);
            }
            let o = m.trailing_ones();
            proof {
                lemma_one_run_shrinks(m, 1);
            }
            if o == 1 {
                let op = RunOp::MatchBit { expected: p & 1 == 1 };
                proof {
                    assert(ops@.push(op) + run_ops(m >> 1u32, p >> 1u32) =~= ops@ + run_ops(m, p));
                }
                ops.push(op);
                p = p >> 1;
                m = m >> 1;
            } else {
                let b: u32 = if o < 5 { o } else { 5 };
                proof {
                    lemma_one_run_shrinks(m, b);
                    assert(1u32 <= (1u32 << b)) by (bit_vector)
                        requires
                            1 <= b <= 5,
                    ;
                }
                let value = p & ((1u32 << b) - 1);
                let op = RunOp::MatchRun { bits: b as u8, value: value as u8 };
                proof {
                    assert(ops@.push(op) + run_ops(m >> b, p >> b) =~= ops@ + run_ops(m, p));
                }
                ops.push(op);
                p = p >> b;
                m = m >> b;
            }
        }
    }
    proof {
        assert(ops@ + run_ops(0u32, p) =~= ops@);
    }
    ops
}

/// Computes the wait decomposition of one stage.
fn build_waits(mask: u32, pattern: u32) -> (ops: Vec<WaitOp>)
    ensures
        ops@ == wait_ops(mask, pattern),
{
    let mut ops: Vec<WaitOp> = Vec::new();
    let mut i: u32 = 0;
    while i < 32
        invariant
            i <= 32,
            wait_ops(mask, pattern) == ops@ + wait_ops_from(mask, pattern, i as nat),
        decreases 32 - i,
    {
        if (mask >> i) & 1 == 1 {
            let op = WaitOp { pin: i as u8, high: (pattern >> i) & 1 == 1 };
            proof {
                assert(ops@.push(op) + wait_ops_from(mask, pattern, i as nat + 1) =~= ops@
                    + wait_ops_from(mask, pattern, i as nat));
            }
            ops.push(op);
        }
        i = i + 1;
    }
    proof {
        assert(ops@ + wait_ops_from(mask, pattern, 32) =~= ops@);
    }
    ops
}

impl Trigger {
    /// Plans the shift-and-compare decomposition of every enabled stage,
    /// in stage order.
    pub fn plan_shift(&self) -> (plan: Vec<ShiftStage>)
        ensures
            shift_views(plan@) == shift_plan(self@),
    {
        proof {
            crate::trigger::lemma_stage_count(*self);
        }
        let mut plan: Vec<ShiftStage> = Vec::new();
        let mut i: usize = 0;
        proof {
            assert(self@.skip(0) =~= self@);
        }
        while i < 4
            invariant
                i <= 4,
                self@.len() == 4,
                shift_views(plan@) + shift_plan(self@.skip(i as int)) == shift_plan(self@),
            decreases 4 - i,
        {
            let st = self.stage(i);
            proof {
                assert(self@.skip(i as int)[0] == self@[i as int]);
                assert(self@.skip(i as int).skip(1) =~= self@.skip(i as int + 1));
            }
            if st.read_mask() != 0 {
                let ops = build_runs(st.read_mask(), st.read_pattern());
                let stage = ShiftStage { ops };
                proof {
                    assert(shift_views(plan@.push(stage)) =~= shift_views(plan@) + seq![stage@]);
                    assert(shift_views(plan@.push(stage)) + shift_plan(self@.skip(i as int + 1))
                        =~= shift_views(plan@) + shift_plan(self@.skip(i as int)));
                }
                plan.push(stage);
            }
            i = i + 1;
        }
        proof {
            assert(self@.skip(4) =~= Seq::<TriggerStage>::empty());
            assert(shift_views(plan@) + shift_plan(self@.skip(4)) =~= shift_views(plan@));
        }
        plan
    }

    /// Plans the wait-per-bit decomposition of every enabled stage, in
    /// stage order.
    pub fn plan_waits(&self) -> (plan: Vec<WaitStage>)
        ensures
            wait_views(plan@) == wait_plan(self@),
    {
        proof {
            crate::trigger::lemma_stage_count(*self);
        }
        let mut plan: Vec<WaitStage> = Vec::new();
        let mut i: usize = 0;
        proof {
            assert(self@.skip(0) =~= self@);
        }
        while i < 4
            invariant
                i <= 4,
                self@.len() == 4,
                wait_views(plan@) + wait_plan(self@.skip(i as int)) == wait_plan(self@),
            decreases 4 - i,
        {
            let st = self.stage(i);
            proof {
                assert(self@.skip(i as int)[0] == self@[i as int]);
                assert(self@.skip(i as int).skip(1) =~= self@.skip(i as int + 1));
            }
            if st.read_mask() != 0 {
                let waits = build_waits(st.read_mask(), st.read_pattern());
                let stage = WaitStage { waits };
                proof {
                    assert(wait_views(plan@.push(stage)) =~= wait_views(plan@) + seq![stage@]);
                    assert(wait_views(plan@.push(stage)) + wait_plan(self@.skip(i as int + 1))
                        =~= wait_views(plan@) + wait_plan(self@.skip(i as int)));
                }
                plan.push(stage);
            }
            i = i + 1;
        }
        proof {
            assert(self@.skip(4) =~= Seq::<TriggerStage>::empty());
            assert(wait_views(plan@) + wait_plan(self@.skip(4)) =~= wait_views(plan@));
        }
        plan
    }
}

/// Sums the instruction cost of one stage's runs.
fn runs_cost_value(ops: &Vec<RunOp>) -> (c: u64)
    requires
        runs_cost(ops@) <= u64::MAX,
    ensures
        c == runs_cost(ops@),
{
    let mut c: u64 = 0;
    let mut j: usize = 0;
    proof {
        assert(ops@.skip(0) =~= ops@);
    }
    while j < ops.len()
        invariant
            j <= ops@.len(),
            runs_cost(ops@) <= u64::MAX,
            c + runs_cost(ops@.skip(j as int)) == runs_cost(ops@),
        decreases ops@.len() - j,
    {
        proof {
            assert(ops@.skip(j as int)[0] == ops@[j as int]);
            assert(ops@.skip(j as int).skip(1) =~= ops@.skip(j as int + 1));
        }
        let step: u64 = match ops[j] {
            RunOp::Discard { .. } => 1,
            RunOp::MatchBit { .. } => 2,
            RunOp::MatchRun { .. } => 3,
        };
        c = c + step;
        j = j + 1;
    }
    proof {
        assert(ops@.skip(ops@.len() as int) =~= Seq::<RunOp>::empty());
    }
    c
}

/// Sums the instruction cost of a shift-and-compare plan.
fn shift_cost_value(plan: &Vec<ShiftStage>) -> (c: u64)
    requires
        shift_plan_cost(shift_views(plan@)) <= u64::MAX,
    ensures
        c == shift_plan_cost(shift_views(plan@)),
{
    let mut c: u64 = 0;
    let mut j: usize = 0;
    proof {
        assert(shift_views(plan@).skip(0) =~= shift_views(plan@));
    }
    while j < plan.len()
        invariant
            j <= plan@.len(),
            shift_plan_cost(shift_views(plan@)) <= u64::MAX,
            c + shift_plan_cost(shift_views(plan@).skip(j as int)) == shift_plan_cost(
                shift_views(plan@),
            ),
        decreases plan@.len() - j,
    {
        proof {
            assert(shift_views(plan@).skip(j as int)[0] == shift_views(plan@)[j as int]);
            assert(shift_views(plan@)[j as int] == plan@[j as int]@);
            assert(shift_views(plan@).skip(j as int).skip(1) =~= shift_views(plan@).skip(
                j as int + 1,
            ));
        }
        let sc = runs_cost_value(&plan[j].ops);
        c = c + 1 + sc;
        j = j + 1;
    }
    proof {
        assert(shift_views(plan@).skip(plan@.len() as int) =~= Seq::<Seq<RunOp>>::empty());
    }
    c
}

/// Sums the instruction cost of a wait-per-bit plan.
fn wait_cost_value(plan: &Vec<WaitStage>) -> (c: u64)
    requires
        wait_plan_cost(wait_views(plan@)) <= u64::MAX,
    ensures
        c == wait_plan_cost(wait_views(plan@)),
{
    let mut c: u64 = 0;
    let mut j: usize = 0;
    proof {
        assert(wait_views(plan@).skip(0) =~= wait_views(plan@));
    }
    while j < plan.len()
        invariant
            j <= plan@.len(),
            wait_plan_cost(wait_views(plan@)) <= u64::MAX,
            c + wait_plan_cost(wait_views(plan@).skip(j as int)) == wait_plan_cost(
                wait_views(plan@),
            ),
        decreases plan@.len() - j,
    {
        proof {
            assert(wait_views(plan@).skip(j as int)[0] == wait_views(plan@)[j as int]);
            assert(wait_views(plan@)[j as int] == plan@[j as int]@);
            assert(wait_views(plan@).skip(j as int).skip(1) =~= wait_views(plan@).skip(
                j as int + 1,
            ));
        }
        c = c + plan[j].waits.len() as u64;
        j = j + 1;
    }
    proof {
        assert(wait_views(plan@).skip(plan@.len() as int) =~= Seq::<Seq<WaitOp>>::empty());
    }
    c
}

/// Emits one shift-and-compare stage: the pin snapshot at offset `at`,
/// then the planned runs, whose retry jumps loop back to `at`.
fn emit_shift_stage(a: pio::Assembler<32>, stage: &ShiftStage, at: u8) -> (r: pio::Assembler<32>)
    requires
        crate::pio_asm::asm_wf(a),
        at == crate::pio_asm::asm_len(a),
        runs_wf(stage@),
        at + 1 + runs_cost(stage@) <= 32,
    ensures
        crate::pio_asm::asm_wf(r),
        crate::pio_asm::asm_len(r) == at + 1 + runs_cost(stage@),
{
    let mut a = a;
    crate::pio_asm::asm_mov_osr_from_pins_reversed(&mut a);
    let mut j: usize = 0;
    proof {
        assert(stage@.skip(0) =~= stage@);
    }
    while j < stage.ops.len()
        invariant
            j <= stage@.len(),
            crate::pio_asm::asm_wf(a),
            runs_wf(stage@.skip(j as int)),
            crate::pio_asm::asm_len(a) + runs_cost(stage@.skip(j as int)) == at + 1 + runs_cost(
                stage@,
            ),
            at + 1 + runs_cost(stage@) <= 32,
        decreases stage@.len() - j,
    {
        proof {
            assert(stage@.skip(j as int)[0] == stage@[j as int]);
            assert(stage@.skip(j as int).skip(1) =~= stage@.skip(j as int + 1));
        }
        match stage.ops[j] {
            RunOp::Discard { bits } => {
                crate::pio_asm::asm_out(&mut a, false, bits);
            },
            RunOp::MatchBit { expected } => {
                crate::pio_asm::asm_out(&mut a, true, 1);
                let cond = if expected {
                    crate::pio_asm::JumpCond::XZero
                } else {
                    crate::pio_asm::JumpCond::XNonZeroDec
                };
                crate::pio_asm::asm_jmp_to(&mut a, cond, at);
            },
            RunOp::MatchRun { bits, value } => {
                crate::pio_asm::asm_set_y(&mut a, value);
                crate::pio_asm::asm_out(&mut a, true, bits);
                crate::pio_asm::asm_jmp_to(&mut a, crate::pio_asm::JumpCond::XNotEqualY, at);
            },
        }
        j = j + 1;
    }
    proof {
        assert(stage@.skip(stage@.len() as int) =~= Seq::<RunOp>::empty());
    }
    a
}

/// Emits one wait-per-bit stage: its planned waits in order.
fn emit_wait_stage(a: pio::Assembler<32>, stage: &WaitStage) -> (r: pio::Assembler<32>)
    requires
        crate::pio_asm::asm_wf(a),
        waits_wf(stage@),
        crate::pio_asm::asm_len(a) + stage@.len() <= 32,
    ensures
        crate::pio_asm::asm_wf(r),
        crate::pio_asm::asm_len(r) == crate::pio_asm::asm_len(a) + stage@.len(),
{
    let mut a = a;
    let ghost start = crate::pio_asm::asm_len(a);
    let mut j: usize = 0;
    while j < stage.waits.len()
        invariant
            j <= stage@.len(),
            crate::pio_asm::asm_wf(a),
            waits_wf(stage@),
            crate::pio_asm::asm_len(a) == start + j,
            start + stage@.len() <= 32,
        decreases stage@.len() - j,
    {
        let w = stage.waits[j];
        crate::pio_asm::asm_wait_pin(&mut a, w.high, w.pin);
        j = j + 1;
    }
    a
}

impl Trigger {
    /// Compiles this specification under the given strategy. Returns the
    /// native program — the enabled stages' instructions followed by the
    /// wrap body, loaded at offset zero with the wrap looping the single
    /// capture instruction — or `ProgramTooLarge` exactly when the
    /// program would exceed the coprocessor's 32 instruction slots.
    pub fn compile_with(&self, strategy: CompileStrategy) -> (r: Result<
        pio::Program<32>,
        TriggerError,
    >)
        ensures
            r is Err <==> program_cost(self@, strategy) > 32,
            r is Err ==> r == Err::<pio::Program<32>, TriggerError>(TriggerError::ProgramTooLarge),
            r is Ok ==> {
                &&& crate::pio_asm::prog_len(r->Ok_0) == program_cost(self@, strategy)
                &&& crate::pio_asm::prog_wrap_source(r->Ok_0) == program_cost(self@, strategy) - 1
                &&& crate::pio_asm::prog_wrap_target(r->Ok_0) == program_cost(self@, strategy) - 1
                &&& crate::pio_asm::prog_origin(r->Ok_0) == Some(0u8)
            },
    {
        proof {
            crate::trigger::lemma_stage_count(*self);
        }
        match strategy {
            CompileStrategy::ShiftCompare => {
                proof {
                    lemma_shift_plan_cost_bound(self@);
                    lemma_shift_plan_wf(self@);
                }
                let plan = self.plan_shift();
                let cost = shift_cost_value(&plan);
                if cost > 31 {
                    return Err(TriggerError::ProgramTooLarge);
                }
                let mut a = crate::pio_asm::asm_new();
                let mut at: u8 = 0;
                let mut i: usize = 0;
                proof {
                    assert(shift_views(plan@).skip(0) =~= shift_views(plan@));
                }
                while i < plan.len()
                    invariant
                        i <= plan@.len(),
                        crate::pio_asm::asm_wf(a),
                        at == crate::pio_asm::asm_len(a),
                        shift_views(plan@) == shift_plan(self@),
                        forall|k: int|
                            0 <= k < shift_plan(self@).len() ==> runs_wf(
                                #[trigger] shift_plan(self@)[k],
                            ),
                        cost == shift_plan_cost(shift_views(plan@)),
                        cost <= 31,
                        at + shift_plan_cost(shift_views(plan@).skip(i as int)) == cost,
                    decreases plan@.len() - i,
                {
                    proof {
                        assert(shift_views(plan@).skip(i as int)[0] == shift_views(plan@)[i as int]);
                        assert(shift_views(plan@)[i as int] == plan@[i as int]@);
                        assert(shift_views(plan@).skip(i as int).skip(1) =~= shift_views(
                            plan@,
                        ).skip(i as int + 1));
                    }
                    let sc = runs_cost_value(&plan[i].ops);
                    a = emit_shift_stage(a, &plan[i], at);
                    at = at + 1 + (sc as u8);
                    i = i + 1;
                }
                proof {
                    assert(shift_views(plan@).skip(plan@.len() as int) =~= Seq::<
                        Seq<RunOp>,
                    >::empty());
                }
                crate::pio_asm::asm_in_pins(&mut a, crate::PROBES as u8);
                let p = crate::pio_asm::asm_assemble_program(a);
                let p = crate::pio_asm::prog_set_wrap(p, at, at);
                let p = crate::pio_asm::prog_set_origin(p, Some(0));
                Ok(p)
            },
            CompileStrategy::WaitPerBit => {
                proof {
                    lemma_wait_plan_cost_bound(self@);
                    lemma_wait_plan_wf(self@);
                }
                let plan = self.plan_waits();
                let cost = wait_cost_value(&plan);
                if cost > 31 {
                    return Err(TriggerError::ProgramTooLarge);
                }
                let mut a = crate::pio_asm::asm_new();
                let mut i: usize = 0;
                proof {
                    assert(wait_views(plan@).skip(0) =~= wait_views(plan@));
                }
                while i < plan.len()
                    invariant
                        i <= plan@.len(),
                        crate::pio_asm::asm_wf(a),
                        wait_views(plan@) == wait_plan(self@),
                        forall|k: int|
                            0 <= k < wait_plan(self@).len() ==> waits_wf(
                                #[trigger] wait_plan(self@)[k],
                            ),
                        cost == wait_plan_cost(wait_views(plan@)),
                        cost <= 31,
                        crate::pio_asm::asm_len(a) + wait_plan_cost(
                            wait_views(plan@).skip(i as int),
                        ) == cost,
                    decreases plan@.len() - i,
                {
                    proof {
                        assert(wait_views(plan@).skip(i as int)[0] == wait_views(plan@)[i as int]);
                        assert(wait_views(plan@)[i as int] == plan@[i as int]@);
                        assert(wait_views(plan@).skip(i as int).skip(1) =~= wait_views(plan@).skip(
                            i as int + 1,
                        ));
                    }
                    a = emit_wait_stage(a, &plan[i]);
                    i = i + 1;
                }
                proof {
                    assert(wait_views(plan@).skip(plan@.len() as int) =~= Seq::<
                        Seq<WaitOp>,
                    >::empty());
                }
                let at: u8 = cost as u8;
                crate::pio_asm::asm_in_pins(&mut a, crate::PROBES as u8);
                let p = crate::pio_asm::asm_assemble_program(a);
                let p = crate::pio_asm::prog_set_wrap(p, at, at);
                let p = crate::pio_asm::prog_set_origin(p, Some(0));
                Ok(p)
            },
        }
    }

    /// Compiles this specification under the device's configured
    /// strategy, the shift-and-compare decomposition.
    pub fn compile(&self) -> (r: Result<pio::Program<32>, TriggerError>)
        ensures
            r is Err <==> program_cost(self@, CompileStrategy::ShiftCompare) > 32,
            r is Err ==> r == Err::<pio::Program<32>, TriggerError>(TriggerError::ProgramTooLarge),
            r is Ok ==> {
                &&& crate::pio_asm::prog_len(r->Ok_0) == program_cost(
                    self@,
                    CompileStrategy::ShiftCompare,
                )
                &&& crate::pio_asm::prog_wrap_source(r->Ok_0) == program_cost(
                    self@,
                    CompileStrategy::ShiftCompare,
                ) - 1
                &&& crate::pio_asm::prog_wrap_target(r->Ok_0) == program_cost(
                    self@,
                    CompileStrategy::ShiftCompare,
                ) - 1
                &&& crate::pio_asm::prog_origin(r->Ok_0) == Some(0u8)
            },
    {
        self.compile_with(CompileStrategy::ShiftCompare)
    }
}

} // verus!
