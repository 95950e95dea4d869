//! The acquisition engine: arm/drain cycles, buffer ownership, and the
//! reverse-order, group-aware drain formatting.

use pio::InstructionOperands;
use ula::compiler::TriggerError;
use ula::sampler::Sampler;
use ula::trigger::Trigger;
use ula::BUFFER_WORDS;

#[test]
fn new_engine_is_standby_with_default_program() {
    let s = Sampler::new();
    assert!(!s.is_armed());
    // The default continuous-capture program is a single blocking push.
    let program = s.installed_program();
    assert_eq!(program.code.len(), 1);
    match InstructionOperands::decode(program.code[0]).expect("decodes") {
        InstructionOperands::PUSH { if_full, block } => {
            assert!(if_full);
            assert!(block);
        },
        other => panic!("expected a push, got {:?}", other),
    }
}

#[test]
fn drain_in_standby_is_a_benign_noop() {
    let mut s = Sampler::new();
    assert!(s.drain().is_empty());
    assert!(!s.is_armed());
}

#[test]
fn start_installs_the_compiled_program_and_arms() {
    let mut s = Sampler::new();
    let mut t = Trigger::new();
    t.set_mask(0, 0x1);
    assert_eq!(s.start(t), Ok(()));
    assert!(s.is_armed());
    assert_eq!(s.installed_program().code.len(), 4);
    assert_eq!(s.installed_program().origin, Some(0));
}

#[test]
fn oversized_trigger_leaves_the_engine_untouched() {
    let mut s = Sampler::new();
    let mut t = Trigger::new();
    t.set_mask(0, 0x5555_5555);
    assert_eq!(s.start(t), Err(TriggerError::ProgramTooLarge));
    assert!(!s.is_armed());
    // The previous (default) program is still installed.
    assert_eq!(s.installed_program().code.len(), 1);
}

#[test]
fn drain_emits_chunks_in_reverse_capture_order() {
    let mut s = Sampler::new();
    s.set_flags(0x00); // both groups enabled
    s.set_sample_memory(2); // three chunks
    assert_eq!(s.start(Trigger::new()), Ok(()));
    s.capture(&[1, 2, 3, 4, 5, 6]);
    let out = s.drain();
    assert!(!s.is_armed());
    // Chunk 2 (words 5, 6) first, chunk 0 (words 1, 2) last; within a
    // chunk the second word's bytes lead, little-endian.
    assert_eq!(
        out,
        vec![
            6, 0, 0, 0, 5, 0, 0, 0, //
            4, 0, 0, 0, 3, 0, 0, 0, //
            2, 0, 0, 0, 1, 0, 0, 0,
        ]
    );
}

#[test]
fn drain_group0_takes_even_byte_offsets() {
    let mut s = Sampler::new();
    s.set_flags(0x08); // bit 3 set: group 1 disabled
    s.set_sample_memory(0); // one chunk
    assert_eq!(s.start(Trigger::new()), Ok(()));
    s.capture(&[0x0403_0201, 0x4433_2211]);
    assert_eq!(s.drain(), vec![0x11, 0x33, 0x01, 0x03]);
}

#[test]
fn drain_group1_takes_odd_byte_offsets() {
    let mut s = Sampler::new();
    s.set_flags(0x04); // bit 2 set: group 0 disabled
    s.set_sample_memory(0);
    assert_eq!(s.start(Trigger::new()), Ok(()));
    s.capture(&[0x0403_0201, 0x4433_2211]);
    assert_eq!(s.drain(), vec![0x22, 0x44, 0x02, 0x04]);
}

#[test]
fn drain_with_no_groups_emits_nothing() {
    let mut s = Sampler::new();
    s.set_flags(0x0c); // both groups disabled
    s.set_sample_memory(9);
    assert_eq!(s.start(Trigger::new()), Ok(()));
    let out = s.drain();
    assert!(out.is_empty());
    assert!(!s.is_armed());
}

#[test]
fn drain_byte_count_follows_sample_count() {
    let mut s = Sampler::new();
    s.set_flags(0x00);
    s.set_sample_memory(41);
    assert_eq!(s.start(Trigger::new()), Ok(()));
    // 42 chunks of 8 bytes.
    assert_eq!(s.drain().len(), 42 * 8);
}

#[test]
fn drain_is_bounded_by_the_buffer() {
    let mut s = Sampler::new();
    s.set_flags(0x00);
    // More samples than the buffer holds chunks: the drain stops at the
    // buffer's end.
    s.set_sample_memory(30_000);
    assert_eq!(s.start(Trigger::new()), Ok(()));
    assert_eq!(s.drain().len(), (BUFFER_WORDS / 2) * 8);
}

#[test]
fn rearm_supersedes_and_returns_resources_after_drain() {
    let mut s = Sampler::new();
    s.set_flags(0x00);
    s.set_sample_memory(0);
    let mut t = Trigger::new();
    t.set_mask(0, 0x1);

    assert_eq!(s.start(t), Ok(()));
    assert!(s.is_armed());
    s.capture(&[0xdead_beef, 0xdead_beef]);

    // A later arm wins unconditionally: the in-flight capture is
    // abandoned and a fresh acquisition starts into the same buffer.
    assert_eq!(s.start(Trigger::new()), Ok(()));
    assert!(s.is_armed());
    // The disabled trigger compiles to the lone capture instruction.
    assert_eq!(s.installed_program().code.len(), 1);

    s.capture(&[7, 8]);
    let out = s.drain();
    assert_eq!(out, vec![8, 0, 0, 0, 7, 0, 0, 0]);

    // The buffer and channel are back with the engine: a further drain
    // is a no-op and a further arm succeeds.
    assert!(s.drain().is_empty());
    assert_eq!(s.start(Trigger::new()), Ok(()));
    assert!(s.is_armed());
}
