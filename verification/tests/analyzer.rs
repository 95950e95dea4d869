//! End-to-end controller scenarios over the wire protocol.

use ula::analyzer::LogicAnalyzer;
use ula::compiler::CompileStrategy;

/// The metadata response, spelled out from the protocol definition.
fn expected_meta() -> Vec<u8> {
    let mut v = Vec::new();
    v.push(0x01);
    v.extend_from_slice(b"uLA: Micro Logic Analyzer");
    v.push(0x00);
    v.push(0x20);
    v.extend_from_slice(&16u32.to_be_bytes());
    v.push(0x21);
    v.extend_from_slice(&200_000u32.to_be_bytes());
    v.push(0x23);
    v.extend_from_slice(&100_000_000u32.to_be_bytes());
    v.extend_from_slice(&[0x24, 0x00, 0x00, 0x00, 0x02, 0x00]);
    v
}

#[test]
fn get_id_returns_exactly_the_identifier() {
    let mut a = LogicAnalyzer::new();
    assert_eq!(a.poll_serial(&[0x02]), b"1ALS".to_vec());
    // Nothing else follows.
    assert!(a.poll_serial(&[]).is_empty());
}

#[test]
fn get_meta_returns_the_capability_record() {
    let mut a = LogicAnalyzer::new();
    assert_eq!(a.poll_serial(&[0x04]), expected_meta());
}

#[test]
fn configuration_commands_produce_no_response() {
    let mut a = LogicAnalyzer::new();
    assert!(a.poll_serial(&[0x80, 0x07, 0x00, 0x00, 0x00]).is_empty());
    assert!(a.poll_serial(&[0x81, 0x02, 0x00, 0x00, 0x00]).is_empty());
    assert!(a.poll_serial(&[0x82, 0x00, 0x00, 0x00, 0x00]).is_empty());
    assert!(a.poll_serial(&[0xc0, 0x01, 0x00, 0x00, 0x00]).is_empty());
    assert!(a.poll_serial(&[0x00]).is_empty());
}

#[test]
fn arm_then_completion_drains_the_configured_capture() {
    let mut a = LogicAnalyzer::new();
    // Both channel groups enabled, two samples to read back, arm.
    assert!(a.poll_serial(&[0x82, 0x00, 0x00, 0x00, 0x00]).is_empty());
    assert!(a.poll_serial(&[0x81, 0x01, 0x00, 0x00, 0x00]).is_empty());
    assert!(a.poll_serial(&[0x01]).is_empty());

    // The hardware fills the buffer; completion then drains two chunks
    // of eight bytes each.
    a.capture(&[0x1111_1111, 0x2222_2222, 0x3333_3333, 0x4444_4444]);
    let out = a.acquisition_done();
    assert_eq!(out.len(), 16);
    assert_eq!(
        out,
        vec![
            0x44, 0x44, 0x44, 0x44, 0x33, 0x33, 0x33, 0x33, //
            0x22, 0x22, 0x22, 0x22, 0x11, 0x11, 0x11, 0x11,
        ]
    );

    // A stray completion afterwards emits nothing.
    assert!(a.acquisition_done().is_empty());
}

#[test]
fn reset_clears_partial_frames() {
    let mut a = LogicAnalyzer::new();
    // A reset at the buffer's front clears everything buffered behind
    // it; without the clear, the 0xc0 frame would swallow the GetId.
    assert!(a.poll_serial(&[0x00, 0xc0, 0x01]).is_empty());
    assert_eq!(a.poll_serial(&[0x02]), b"1ALS".to_vec());
}

#[test]
fn trigger_commands_shape_the_armed_program() {
    let mut a = LogicAnalyzer::new();
    // SetTriggerMask(0, 1), SetTriggerValues(0, 1), then Arm: the
    // compiled program is the single-bit conditional pair before the
    // wrap body, so completion still drains normally.
    assert!(a.poll_serial(&[0xc0, 0x01, 0x00, 0x00, 0x00]).is_empty());
    assert!(a.poll_serial(&[0xc1, 0x01, 0x00, 0x00, 0x00]).is_empty());
    assert!(a.poll_serial(&[0x82, 0x00, 0x00, 0x00, 0x00]).is_empty());
    assert!(a.poll_serial(&[0x01]).is_empty());
    a.capture(&[5, 6]);
    assert_eq!(a.acquisition_done(), vec![6, 0, 0, 0, 5, 0, 0, 0]);
}

#[test]
fn oversized_trigger_leaves_arm_unanswered_and_harmless() {
    let mut a = LogicAnalyzer::new();
    // An alternating full mask compiles past the instruction slots; the
    // protocol has no failure reply, and the engine stays in standby,
    // so completion drains nothing.
    assert!(a.poll_serial(&[0xc0, 0x55, 0x55, 0x55, 0x55]).is_empty());
    assert!(a.poll_serial(&[0x01]).is_empty());
    assert!(a.acquisition_done().is_empty());
}

#[test]
fn capture_is_ignored_in_standby() {
    let mut a = LogicAnalyzer::new();
    a.capture(&[1, 2, 3, 4]);
    assert!(a.acquisition_done().is_empty());
}

#[test]
fn strategy_is_fixed_at_construction() {
    let mut a = LogicAnalyzer::new_with_strategy(CompileStrategy::WaitPerBit);
    assert!(a.poll_serial(&[0xc0, 0xff, 0xff, 0xff, 0xff]).is_empty());
    assert!(a.poll_serial(&[0x82, 0x00, 0x00, 0x00, 0x00]).is_empty());
    // 32 waits plus the capture exceed the slots under the wait
    // strategy, so this arm fails quietly and nothing drains...
    assert!(a.poll_serial(&[0x01]).is_empty());
    assert!(a.acquisition_done().is_empty());
    // ...while sixteen waits fit.
    assert!(a.poll_serial(&[0xc0, 0xff, 0xff, 0x00, 0x00]).is_empty());
    assert!(a.poll_serial(&[0x01]).is_empty());
    a.capture(&[9, 10]);
    assert_eq!(a.acquisition_done(), vec![10, 0, 0, 0, 9, 0, 0, 0]);
}
