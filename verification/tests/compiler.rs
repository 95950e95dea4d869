//! Trigger compilation: the planned run decomposition and the native
//! program assembled from it.

use pio::InstructionOperands;
use pio::JmpCondition;
use pio::OutDestination;
use pio::SetDestination;
use pio::WaitSource;
use ula::compiler::CompileStrategy;
use ula::compiler::RunOp;
use ula::compiler::TriggerError;
use ula::compiler::WaitOp;
use ula::trigger::Trigger;

fn decoded(program: &pio::Program<32>) -> Vec<InstructionOperands> {
    program
        .code
        .iter()
        .map(|&i| InstructionOperands::decode(i).expect("instruction decodes"))
        .collect()
}

#[test]
fn disabled_spec_compiles_to_wrap_body_only() {
    let t = Trigger::new();
    assert!(t.plan_shift().is_empty());
    assert!(t.plan_waits().is_empty());

    let program = t.compile().expect("fits");
    assert_eq!(program.code.len(), 1);
    assert_eq!(program.origin, Some(0));
    assert_eq!(program.wrap.source, 0);
    assert_eq!(program.wrap.target, 0);
    match decoded(&program)[0] {
        InstructionOperands::IN { bit_count, .. } => assert_eq!(bit_count, 16),
        other => panic!("expected the capture instruction, got {:?}", other),
    }
}

#[test]
fn full_mask_splits_into_five_bit_chunks() {
    let mut t = Trigger::new();
    t.set_mask(0, 0xffff_ffff);
    let plan = t.plan_shift();
    assert_eq!(plan.len(), 1);
    let widths: Vec<u8> = plan[0]
        .ops
        .iter()
        .map(|op| match op {
            RunOp::MatchRun { bits, .. } => *bits,
            other => panic!("expected a compare chunk, got {:?}", other),
        })
        .collect();
    assert_eq!(widths, vec![5, 5, 5, 5, 5, 5, 2]);

    // 1 snapshot + 7 chunks of 3 instructions + 1 capture = 23.
    let program = t.compile().expect("fits");
    assert_eq!(program.code.len(), 23);
    assert_eq!(program.wrap.source, 22);
    assert_eq!(program.wrap.target, 22);
}

#[test]
fn single_bit_stage_is_one_conditional_pair() {
    let mut t = Trigger::new();
    t.set_mask(0, 0x1);
    t.set_pattern(0, 0x1);
    let plan = t.plan_shift();
    assert_eq!(plan.len(), 1);
    assert_eq!(plan[0].ops, vec![RunOp::MatchBit { expected: true }]);

    // snapshot, extract, loop-jump, capture — and nothing else before
    // the wrap body.
    let program = t.compile().expect("fits");
    let ops = decoded(&program);
    assert_eq!(ops.len(), 4);
    assert!(matches!(
        ops[0],
        InstructionOperands::MOV { destination: pio::MovDestination::OSR, op: pio::MovOperation::BitReverse, source: pio::MovSource::PINS }
    ));
    assert!(matches!(
        ops[1],
        InstructionOperands::OUT { destination: OutDestination::X, bit_count: 1 }
    ));
    // Expected bit 1 loops back to the stage snapshot while X is zero.
    assert!(matches!(
        ops[2],
        InstructionOperands::JMP { condition: JmpCondition::XIsZero, address: 0 }
    ));
    assert!(matches!(ops[3], InstructionOperands::IN { .. }));
    assert_eq!(program.wrap.source, 3);
    assert_eq!(program.wrap.target, 3);
    assert_eq!(program.origin, Some(0));
}

#[test]
fn expected_zero_bit_uses_the_other_jump_condition() {
    let mut t = Trigger::new();
    t.set_mask(0, 0x1);
    let program = t.compile().expect("fits");
    let ops = decoded(&program);
    assert!(matches!(
        ops[2],
        InstructionOperands::JMP { condition: JmpCondition::XDecNonZero, address: 0 }
    ));
}

#[test]
fn zero_runs_are_discarded_in_one_instruction() {
    let mut t = Trigger::new();
    t.set_mask(0, 0b100);
    t.set_pattern(0, 0b100);
    let plan = t.plan_shift();
    assert_eq!(
        plan[0].ops,
        vec![RunOp::Discard { bits: 2 }, RunOp::MatchBit { expected: true }]
    );

    let program = t.compile().expect("fits");
    let ops = decoded(&program);
    assert!(matches!(
        ops[1],
        InstructionOperands::OUT { destination: OutDestination::NULL, bit_count: 2 }
    ));
}

#[test]
fn short_one_run_compares_its_pattern_chunk() {
    let mut t = Trigger::new();
    t.set_mask(0, 0b111);
    t.set_pattern(0, 0b101);
    let plan = t.plan_shift();
    assert_eq!(plan[0].ops, vec![RunOp::MatchRun { bits: 3, value: 5 }]);

    let program = t.compile().expect("fits");
    let ops = decoded(&program);
    assert!(matches!(
        ops[1],
        InstructionOperands::SET { destination: SetDestination::Y, data: 5 }
    ));
    assert!(matches!(
        ops[2],
        InstructionOperands::OUT { destination: OutDestination::X, bit_count: 3 }
    ));
    assert!(matches!(
        ops[3],
        InstructionOperands::JMP { condition: JmpCondition::XNotEqualY, address: 0 }
    ));
}

#[test]
fn stages_compile_in_order_with_own_retry_points() {
    let mut t = Trigger::new();
    t.set_mask(0, 0x1);
    t.set_mask(2, 0x1);
    // Stage order 0 then 2; each pair loops to its own snapshot.
    let program = t.compile().expect("fits");
    let ops = decoded(&program);
    assert_eq!(ops.len(), 7);
    assert!(matches!(
        ops[2],
        InstructionOperands::JMP { condition: JmpCondition::XDecNonZero, address: 0 }
    ));
    assert!(matches!(ops[3], InstructionOperands::MOV { .. }));
    assert!(matches!(
        ops[5],
        InstructionOperands::JMP { condition: JmpCondition::XDecNonZero, address: 3 }
    ));
}

#[test]
fn oversized_program_is_rejected() {
    let mut t = Trigger::new();
    // Alternating bits: sixteen single-bit pairs and fifteen discards
    // per stage, far past the 32 instruction slots.
    t.set_mask(0, 0x5555_5555);
    assert!(matches!(t.compile(), Err(TriggerError::ProgramTooLarge)));
    assert!(matches!(
        t.compile_with(CompileStrategy::ShiftCompare),
        Err(TriggerError::ProgramTooLarge)
    ));
}

#[test]
fn wait_strategy_emits_one_wait_per_set_bit() {
    let mut t = Trigger::new();
    t.set_mask(0, 0b101);
    t.set_pattern(0, 0b001);
    let plan = t.plan_waits();
    assert_eq!(plan.len(), 1);
    assert_eq!(
        plan[0].waits,
        vec![
            WaitOp { pin: 0, high: true },
            WaitOp { pin: 2, high: false },
        ]
    );

    let program = t.compile_with(CompileStrategy::WaitPerBit).expect("fits");
    let ops = decoded(&program);
    assert_eq!(ops.len(), 3);
    assert!(matches!(
        ops[0],
        InstructionOperands::WAIT { polarity: 1, source: WaitSource::Pin(0) }
    ));
    assert!(matches!(
        ops[1],
        InstructionOperands::WAIT { polarity: 0, source: WaitSource::Pin(2) }
    ));
    assert!(matches!(ops[2], InstructionOperands::IN { .. }));
    assert_eq!(program.wrap.source, 2);
    assert_eq!(program.wrap.target, 2);
}

#[test]
fn wait_strategy_fits_where_shift_does_not() {
    // A full mask takes 32 waits plus the capture: one slot too many.
    let mut full = Trigger::new();
    full.set_mask(0, 0xffff_ffff);
    assert!(matches!(
        full.compile_with(CompileStrategy::WaitPerBit),
        Err(TriggerError::ProgramTooLarge)
    ));
    // Twelve alternating bits: 13 instructions as waits, but 37 under
    // the shift strategy (twelve extract/jump pairs, eleven discards,
    // the snapshot and the capture).
    let mut sparse = Trigger::new();
    sparse.set_mask(0, 0x0055_5555);
    let program = sparse
        .compile_with(CompileStrategy::WaitPerBit)
        .expect("fits");
    assert_eq!(program.code.len(), 13);
    assert!(matches!(
        sparse.compile_with(CompileStrategy::ShiftCompare),
        Err(TriggerError::ProgramTooLarge)
    ));
}

#[test]
fn default_trigger_equals_a_fresh_one() {
    let d = Trigger::default();
    let n = Trigger::new();
    assert_eq!(d, n);
    assert!(d.plan_shift().is_empty());
}

#[test]
fn delay_is_reserved_and_does_not_shape_the_program() {
    let mut plain = Trigger::new();
    plain.set_mask(0, 0x1);
    let mut delayed = Trigger::new();
    delayed.set_mask(0, 0x1);
    delayed.set_delay(0, 0xbeef);
    let a = plain.compile().expect("fits");
    let b = delayed.compile().expect("fits");
    assert_eq!(a.code, b.code);
    assert_eq!(a.wrap, b.wrap);
}
