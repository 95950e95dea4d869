//! Decoder behavior over the wire: framing, resynchronization, operand
//! extraction, and chunking invariance.

use ula::protocol::CommandProtocol;
use ula::protocol::SumpCommand;

/// Feeds `bytes`, then pumps the decoder dry, collecting every command.
fn feed_and_drain(p: &mut CommandProtocol, bytes: &[u8]) -> Vec<SumpCommand> {
    let mut cmds = Vec::new();
    if let Some(c) = p.feed(bytes) {
        cmds.push(c);
    }
    // An empty feed attempts one more decode; the buffer holds at most
    // 64 bytes, so 64 attempts reach every decodable frame.
    for _ in 0..64 {
        if let Some(c) = p.feed(&[]) {
            cmds.push(c);
        }
    }
    cmds
}

#[test]
fn short_commands_decode_from_one_byte() {
    let mut p = CommandProtocol::new();
    assert_eq!(p.feed(&[0x00]), Some(SumpCommand::Reset));
    assert_eq!(p.feed(&[0x01]), Some(SumpCommand::Arm));
    assert_eq!(p.feed(&[0x02]), Some(SumpCommand::GetId));
    assert_eq!(p.feed(&[0x04]), Some(SumpCommand::GetMeta));
}

#[test]
fn short_command_decodes_whatever_follows() {
    let mut p = CommandProtocol::new();
    // The one-byte frame at the front decodes at once; the bytes behind
    // it stay buffered.
    assert_eq!(p.feed(&[0x02, 0x01]), Some(SumpCommand::GetId));
    assert_eq!(p.feed(&[]), Some(SumpCommand::Arm));
    assert_eq!(p.feed(&[]), None);
}

#[test]
fn long_frame_waits_for_five_bytes() {
    let mut p = CommandProtocol::new();
    assert_eq!(p.feed(&[0x80]), None);
    assert_eq!(p.feed(&[0x34]), None);
    assert_eq!(p.feed(&[0x12]), None);
    assert_eq!(p.feed(&[0xff]), None);
    assert_eq!(p.feed(&[0xff]), Some(SumpCommand::SetDivisor(0x1234)));
    assert_eq!(p.feed(&[]), None);
}

#[test]
fn divisor_takes_low_sixteen_bits() {
    let mut p = CommandProtocol::new();
    assert_eq!(
        p.feed(&[0x80, 0x34, 0x12, 0xaa, 0xbb]),
        Some(SumpCommand::SetDivisor(0x1234))
    );
}

#[test]
fn read_count_takes_low_sixteen_bits() {
    let mut p = CommandProtocol::new();
    assert_eq!(
        p.feed(&[0x81, 0x01, 0x00, 0x00, 0x00]),
        Some(SumpCommand::SetReadCount(1))
    );
    assert_eq!(
        p.feed(&[0x81, 0xff, 0xff, 0x07, 0x00]),
        Some(SumpCommand::SetReadCount(0xffff))
    );
}

#[test]
fn flags_take_first_operand_byte() {
    let mut p = CommandProtocol::new();
    assert_eq!(
        p.feed(&[0x82, 0x0c, 0x11, 0x22, 0x33]),
        Some(SumpCommand::SetFlags(0x0c))
    );
}

#[test]
fn trigger_frames_select_stage_by_opcode() {
    let mut p = CommandProtocol::new();
    assert_eq!(
        p.feed(&[0xc0, 0x01, 0x00, 0x00, 0x00]),
        Some(SumpCommand::SetTriggerMask(0, 1))
    );
    assert_eq!(
        p.feed(&[0xc4, 0xff, 0x00, 0x00, 0x00]),
        Some(SumpCommand::SetTriggerMask(1, 0xff))
    );
    assert_eq!(
        p.feed(&[0xc8, 0x00, 0x00, 0x00, 0x80]),
        Some(SumpCommand::SetTriggerMask(2, 0x8000_0000))
    );
    assert_eq!(
        p.feed(&[0xcc, 0x78, 0x56, 0x34, 0x12]),
        Some(SumpCommand::SetTriggerMask(3, 0x1234_5678))
    );
    assert_eq!(
        p.feed(&[0xc1, 0x01, 0x00, 0x00, 0x00]),
        Some(SumpCommand::SetTriggerValues(0, 1))
    );
    assert_eq!(
        p.feed(&[0xcd, 0xef, 0xbe, 0xad, 0xde]),
        Some(SumpCommand::SetTriggerValues(3, 0xdead_beef))
    );
    // Delay frames keep only the low sixteen bits of the field.
    assert_eq!(
        p.feed(&[0xc2, 0x10, 0x00, 0xff, 0xff]),
        Some(SumpCommand::SetTriggerDelay(0, 0x10))
    );
    assert_eq!(
        p.feed(&[0xce, 0x34, 0x12, 0x00, 0x00]),
        Some(SumpCommand::SetTriggerDelay(3, 0x1234))
    );
}

#[test]
fn unknown_opcode_resyncs_by_one_byte() {
    let mut p = CommandProtocol::new();
    // Five bytes buffered, unknown head: one byte is dropped, no
    // command. The next byte (0x01, Arm) then reaches the front.
    assert_eq!(p.feed(&[0x99, 0x01, 0x02, 0x03, 0x04]), None);
    assert_eq!(p.feed(&[]), Some(SumpCommand::Arm));
    assert_eq!(p.feed(&[]), Some(SumpCommand::GetId));
    // 0x03 is unknown but only two bytes remain: the decoder stalls.
    assert_eq!(p.feed(&[]), None);
    assert_eq!(p.feed(&[]), None);
}

#[test]
fn chunking_is_invariant() {
    let stream: Vec<u8> = vec![
        0x82, 0x00, 0x00, 0x00, 0x00, // SetFlags(0)
        0x02, // GetId
        0x99, 0x98, // junk needing resync
        0x80, 0x05, 0x00, 0x00, 0x00, // SetDivisor(5)
        0xc1, 0x01, 0x00, 0x00, 0x00, // SetTriggerValues(0, 1)
        0x01, // Arm
    ];

    // All at once.
    let mut p1 = CommandProtocol::new();
    let all = feed_and_drain(&mut p1, &stream);

    // One byte at a time.
    let mut p2 = CommandProtocol::new();
    let mut one_by_one = Vec::new();
    for b in &stream {
        one_by_one.extend(feed_and_drain(&mut p2, &[*b]));
    }

    // In uneven chunks.
    let mut p3 = CommandProtocol::new();
    let mut chunked = Vec::new();
    for chunk in stream.chunks(3) {
        chunked.extend(feed_and_drain(&mut p3, chunk));
    }

    let expected = vec![
        SumpCommand::SetFlags(0),
        SumpCommand::GetId,
        SumpCommand::SetDivisor(5),
        SumpCommand::SetTriggerValues(0, 1),
        SumpCommand::Arm,
    ];
    assert_eq!(all, expected);
    assert_eq!(one_by_one, expected);
    assert_eq!(chunked, expected);
}

#[test]
fn overlong_feed_is_truncated_to_capacity() {
    let mut p = CommandProtocol::new();
    // 100 unknown bytes: only 64 are buffered. Resync drops them one by
    // one until fewer than five remain; those stall.
    let junk = [0x99u8; 100];
    assert_eq!(p.feed(&junk), None);
    for _ in 0..70 {
        assert_eq!(p.feed(&[]), None);
    }
    // Four junk bytes stay stuck until more bytes complete a five-byte
    // window; then resync drains them and buffered frames decode.
    assert_eq!(p.feed(&[0x02]), None);
    assert_eq!(p.feed(&[0x00, 0x00, 0x00]), None);
    let mut got = Vec::new();
    for _ in 0..8 {
        if let Some(c) = p.feed(&[]) {
            got.push(c);
        }
    }
    assert_eq!(
        got,
        vec![
            SumpCommand::GetId,
            SumpCommand::Reset,
            SumpCommand::Reset,
            SumpCommand::Reset,
        ]
    );
}

#[test]
fn clear_forgets_buffered_bytes() {
    let mut p = CommandProtocol::new();
    assert_eq!(p.feed(&[0xc0, 0x01]), None);
    p.clear();
    // Without the clear, the buffered 0xc0 frame would swallow these.
    assert_eq!(p.feed(&[0x02]), Some(SumpCommand::GetId));
}
