use maxbw::codec::{
    decode_command, decode_reply, encode_command, encode_reply, is_valid_width, CommandHeader,
    ReplyHeader,
};

#[test]
fn command_decode_is_total_with_expected_class_counts() {
    let mut idle = 0;
    let mut sync = 0;
    let mut reserved = 0;
    let mut reads = 0;
    let mut writes = 0;
    let mut invalid = 0;
    for h in 0..=255u8 {
        match decode_command(h) {
            CommandHeader::Idle => idle += 1,
            CommandHeader::Sync => sync += 1,
            CommandHeader::Reserved => reserved += 1,
            CommandHeader::Read { width, addr_width } => {
                assert!(is_valid_width(width));
                assert!(is_valid_width(addr_width));
                reads += 1;
            }
            CommandHeader::Write { width, addr_width } => {
                assert!(is_valid_width(width));
                assert!(is_valid_width(addr_width));
                writes += 1;
            }
            CommandHeader::Invalid => invalid += 1,
        }
    }
    assert_eq!(idle, 1);
    assert_eq!(sync, 1);
    assert_eq!(reserved, 30);
    assert_eq!(reads, 16);
    assert_eq!(writes, 16);
    assert_eq!(invalid, 192);
}

#[test]
fn command_codec_round_trips_every_valid_descriptor() {
    let widths = [1u8, 2, 4, 8];
    let mut valid = vec![CommandHeader::Idle, CommandHeader::Sync];
    for &w in &widths {
        for &aw in &widths {
            valid.push(CommandHeader::Read { width: w, addr_width: aw });
            valid.push(CommandHeader::Write { width: w, addr_width: aw });
        }
    }
    for c in valid {
        let h = encode_command(&c);
        assert_eq!(decode_command(h), c);
    }
}

#[test]
fn command_codec_bytes_match_the_wire_layout() {
    assert_eq!(encode_command(&CommandHeader::Idle), 0);
    assert_eq!(encode_command(&CommandHeader::Sync), 1);
    // kind 3 (width 4), addr class 3 (8 bytes), no data: 32*3 + 8*3.
    assert_eq!(encode_command(&CommandHeader::Read { width: 4, addr_width: 8 }), 120);
    // kind 1 (width 1), addr class 0, data class 1: 32 + 0 + 1.
    assert_eq!(encode_command(&CommandHeader::Write { width: 1, addr_width: 1 }), 33);
    assert_eq!(decode_command(2), CommandHeader::Reserved);
    assert_eq!(decode_command(31), CommandHeader::Reserved);
    // kind 5 would mean a 16-byte read: unrepresentable.
    assert_eq!(decode_command(5 * 32), CommandHeader::Invalid);
    // read kind with a mismatched data class.
    assert_eq!(decode_command(32 + 3), CommandHeader::Invalid);
}

#[test]
fn reply_decode_is_total_with_expected_class_counts() {
    let mut control = 0;
    let mut data = 0;
    let mut invalid = 0;
    for h in 0..=255u8 {
        match decode_reply(h) {
            ReplyHeader::Idle | ReplyHeader::Synced | ReplyHeader::Pause | ReplyHeader::Resume => {
                control += 1
            }
            ReplyHeader::Data { width, delta } => {
                assert!(is_valid_width(width));
                assert!((-16..16).contains(&(delta as i32)));
                data += 1;
            }
            ReplyHeader::Invalid => invalid += 1,
        }
    }
    assert_eq!(control, 4);
    assert_eq!(data, 128);
    assert_eq!(invalid, 124);
}

#[test]
fn reply_codec_round_trips_every_valid_descriptor() {
    let mut valid = vec![
        ReplyHeader::Idle,
        ReplyHeader::Synced,
        ReplyHeader::Pause,
        ReplyHeader::Resume,
    ];
    for &w in &[1u8, 2, 4, 8] {
        for delta in -16i8..16 {
            valid.push(ReplyHeader::Data { width: w, delta });
        }
    }
    for r in valid {
        let h = encode_reply(&r);
        assert_eq!(decode_reply(h), r);
    }
}

#[test]
fn reply_codec_bytes_match_the_wire_layout() {
    assert_eq!(encode_reply(&ReplyHeader::Idle), 0);
    assert_eq!(encode_reply(&ReplyHeader::Synced), 8);
    assert_eq!(encode_reply(&ReplyHeader::Pause), 16);
    assert_eq!(encode_reply(&ReplyHeader::Resume), 24);
    // delta -2 is carried as 30 in the 5-bit field; width 2 is length class 2.
    assert_eq!(encode_reply(&ReplyHeader::Data { width: 2, delta: -2 }), 8 * 30 + 2);
    // length 0 with a control kind beyond Resume is undefined.
    assert_eq!(decode_reply(32), ReplyHeader::Invalid);
    // length classes 5..7 would mean 16..64-byte payloads: unrepresentable.
    assert_eq!(decode_reply(5), ReplyHeader::Invalid);
}
