//! Trusted boundary to the `pio` crate's assembler.
//!
//! The sampling coprocessor executes native PIO microcode; the `pio`
//! crate assembles it. Its `Assembler` and `Program` values are opaque
//! here, described only by the uninterpreted measures below: how many
//! instructions an assembler holds (`asm_len`), that every held
//! instruction encodes without fault (`asm_wf`), and a program's length,
//! wrap points and load origin. Each wrapper states, over those
//! measures, what the assembler call it makes does, as the crate's
//! source shows it; the `requires` keep out the inputs on which that
//! source panics (a full instruction store, out-of-range immediates or
//! jump targets, assembling an empty program).

use vstd::prelude::*;

verus! {

/// The `pio` crate's assembler for programs of at most 32 instructions,
/// opaque to verification.
#[verifier::external_type_specification]
#[verifier::external_body]
pub struct ExAssembler<const PROGRAM_SIZE: usize>(pio::Assembler<PROGRAM_SIZE>);

/// The `pio` crate's assembled program, opaque to verification.
#[verifier::external_type_specification]
#[verifier::external_body]
pub struct ExProgram<const PROGRAM_SIZE: usize>(pio::Program<PROGRAM_SIZE>);

/// Number of instructions an assembler holds.
pub uninterp spec fn asm_len(a: pio::Assembler<32>) -> nat;

/// Every instruction the assembler holds encodes without fault. The
/// wrappers below keep this by bounding each instruction's immediates.
pub uninterp spec fn asm_wf(a: pio::Assembler<32>) -> bool;

/// Number of instructions in an assembled program.
pub uninterp spec fn prog_len(p: pio::Program<32>) -> nat;

/// Offset of the instruction after which execution wraps.
pub uninterp spec fn prog_wrap_source(p: pio::Program<32>) -> nat;

/// Offset to which execution wraps.
pub uninterp spec fn prog_wrap_target(p: pio::Program<32>) -> nat;

/// The program's required load offset, if it has one.
pub uninterp spec fn prog_origin(p: pio::Program<32>) -> Option<u8>;

/// Condition under which an emitted jump is taken.
#[derive(Clone, Copy, PartialEq, Eq, Structural, Debug)]
pub enum JumpCond {
    /// Taken when scratch register X is zero.
    XZero,
    /// Taken when scratch register X is non-zero; X is decremented.
    XNonZeroDec,
    /// Taken when scratch registers X and Y differ.
    XNotEqualY,
}

/// Relies on `pio::Assembler::new`: a fresh assembler holds no instructions.
#[verifier::external_body]
pub(crate) fn asm_new() -> (a: pio::Assembler<32>)
    ensures
        asm_len(a) == 0,
        asm_wf(a),
{
    pio::Assembler::new()
}

/// Relies on `pio::Assembler::mov`: appends one instruction that loads
/// the output shift register from the probe pins with bit order reversed.
#[verifier::external_body]
pub(crate) fn asm_mov_osr_from_pins_reversed(a: &mut pio::Assembler<32>)
    requires
        asm_wf(*old(a)),
        asm_len(*old(a)) < 32,
    ensures
        asm_wf(*final(a)),
        asm_len(*final(a)) == asm_len(*old(a)) + 1,
{
    a.mov(
        pio::MovDestination::OSR,
        pio::MovOperation::BitReverse,
        pio::MovSource::PINS,
    );
}

/// Relies on `pio::Assembler::out`: appends one instruction that shifts
/// `bits` bits out of the output shift register, into scratch register X
/// when `to_x` holds and discarded otherwise.
#[verifier::external_body]
pub(crate) fn asm_out(a: &mut pio::Assembler<32>, to_x: bool, bits: u8)
    requires
        asm_wf(*old(a)),
        asm_len(*old(a)) < 32,
        1 <= bits <= 32,
    ensures
        asm_wf(*final(a)),
        asm_len(*final(a)) == asm_len(*old(a)) + 1,
{
    let dest = if to_x { pio::OutDestination::X } else { pio::OutDestination::NULL };
    a.out(dest, bits);
}

/// Relies on `pio::Assembler::set`: appends one instruction that loads
/// the five-bit immediate `value` into scratch register Y.
#[verifier::external_body]
pub(crate) fn asm_set_y(a: &mut pio::Assembler<32>, value: u8)
    requires
        asm_wf(*old(a)),
        asm_len(*old(a)) < 32,
        value <= 31,
    ensures
        asm_wf(*final(a)),
        asm_len(*final(a)) == asm_len(*old(a)) + 1,
{
    a.set(pio::SetDestination::Y, value);
}

/// Relies on `pio::Assembler::label_at_offset` and `pio::Assembler::jmp`:
/// appends one conditional jump to the instruction at offset `target`.
#[verifier::external_body]
pub(crate) fn asm_jmp_to(a: &mut pio::Assembler<32>, cond: JumpCond, target: u8)
    requires
        asm_wf(*old(a)),
        asm_len(*old(a)) < 32,
        target <= 31,
    ensures
        asm_wf(*final(a)),
        asm_len(*final(a)) == asm_len(*old(a)) + 1,
{
    let condition = match cond {
        JumpCond::XZero => pio::JmpCondition::XIsZero,
        JumpCond::XNonZeroDec => pio::JmpCondition::XDecNonZero,
        JumpCond::XNotEqualY => pio::JmpCondition::XNotEqualY,
    };
    let mut label = a.label_at_offset(target);
    a.jmp(condition, &mut label);
}

/// Appends one instruction that samples `bit_count` probe pins into the
/// input shift register. Relies on `pio::Assembler`'s public instruction
/// store and `pio::InstructionOperands::IN`: the assembler's own method
/// for `in` is this same push (its name is a raw identifier, which this
/// crate avoids).
#[verifier::external_body]
pub(crate) fn asm_in_pins(a: &mut pio::Assembler<32>, bit_count: u8)
    requires
        asm_wf(*old(a)),
        asm_len(*old(a)) < 32,
        1 <= bit_count <= 32,
    ensures
        asm_wf(*final(a)),
        asm_len(*final(a)) == asm_len(*old(a)) + 1,
{
    a.instructions.push(pio::Instruction {
        operands: pio::InstructionOperands::IN { source: pio::InSource::PINS, bit_count },
        delay: 0,
        side_set: None,
    });
}

/// Relies on `pio::Assembler::wait`: appends one instruction that blocks
/// until input pin `pin` reads high (`high`) or low (`!high`).
#[verifier::external_body]
pub(crate) fn asm_wait_pin(a: &mut pio::Assembler<32>, high: bool, pin: u8)
    requires
        asm_wf(*old(a)),
        asm_len(*old(a)) < 32,
        pin <= 31,
    ensures
        asm_wf(*final(a)),
        asm_len(*final(a)) == asm_len(*old(a)) + 1,
{
    let polarity: u8 = if high { 1 } else { 0 };
    a.wait(polarity, pio::WaitSource::Pin(pin));
}

/// Relies on `pio::Assembler::push`: appends one instruction that pushes
/// the input shift register to the receive queue.
#[verifier::external_body]
pub(crate) fn asm_push(a: &mut pio::Assembler<32>, if_full: bool, block: bool)
    requires
        asm_wf(*old(a)),
        asm_len(*old(a)) < 32,
    ensures
        asm_wf(*final(a)),
        asm_len(*final(a)) == asm_len(*old(a)) + 1,
{
    a.push(if_full, block);
}

/// Relies on `pio::Assembler::assemble_program`: encodes the held
/// instructions into a program whose wrap runs from the last instruction
/// back to the first and which may load anywhere.
#[verifier::external_body]
pub(crate) fn asm_assemble_program(a: pio::Assembler<32>) -> (p: pio::Program<32>)
    requires
        asm_wf(a),
        1 <= asm_len(a),
    ensures
        prog_len(p) == asm_len(a),
        prog_wrap_source(p) == asm_len(a) - 1,
        prog_wrap_target(p) == 0,
        prog_origin(p) == None::<u8>,
{
    a.assemble_program()
}

/// Relies on `pio::Program::set_wrap`: replaces the program's wrap
/// points, leaving its code and origin as they were.
#[verifier::external_body]
pub(crate) fn prog_set_wrap(p: pio::Program<32>, source: u8, target: u8) -> (r: pio::Program<32>)
    requires
        source < prog_len(p),
        target < prog_len(p),
    ensures
        prog_len(r) == prog_len(p),
        prog_wrap_source(r) == source,
        prog_wrap_target(r) == target,
        prog_origin(r) == prog_origin(p),
{
    p.set_wrap(pio::Wrap { source, target })
}

/// Relies on `pio::Program::set_origin`: replaces the program's load
/// offset, leaving its code and wrap points as they were.
#[verifier::external_body]
pub(crate) fn prog_set_origin(p: pio::Program<32>, origin: Option<u8>) -> (r: pio::Program<32>)
    requires
        origin is Some ==> origin.unwrap() <= 31,
    ensures
        prog_len(r) == prog_len(p),
        prog_wrap_source(r) == prog_wrap_source(p),
        prog_wrap_target(r) == prog_wrap_target(p),
        prog_origin(r) == origin,
{
    p.set_origin(origin)
}

} // verus!
