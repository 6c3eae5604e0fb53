use slonk::incoming::{Command, FrameScanner, ParseError};

fn malformed(frame: &[u8]) -> Result<Command, ParseError> {
    Err(ParseError::Malformed(frame.to_vec()))
}

#[test]
fn commands_are_written_as_tagged_objects() {
    assert_eq!(Command::Ready.to_json(), b"{\"type\":\"Ready\"}".to_vec());
    assert_eq!(Command::Ignition.to_json(), b"{\"type\":\"Ignition\"}".to_vec());
    assert_eq!(Command::EmergencyStop.to_json(), b"{\"type\":\"EmergencyStop\"}".to_vec());
    assert_eq!(
        Command::Actuate { driver_id: 255, value: false }.to_json(),
        b"{\"type\":\"Actuate\",\"driver_id\":255,\"value\":false}".to_vec()
    );
}

#[test]
fn written_commands_decode_to_themselves() {
    let mut commands = vec![Command::Ready, Command::Ignition, Command::EmergencyStop];
    for driver_id in [0u8, 1, 9, 10, 99, 100, 255] {
        commands.push(Command::Actuate { driver_id, value: true });
        commands.push(Command::Actuate { driver_id, value: false });
    }
    for command in commands {
        assert_eq!(Command::decode(&command.to_json()), Ok(command));
    }
}

#[test]
fn fields_spell_commands() {
    assert_eq!(Command::from_fields(Some("Ready"), None, None), Some(Command::Ready));
    assert_eq!(Command::from_fields(Some("Ignition"), Some(1), Some(true)), Some(Command::Ignition));
    assert_eq!(
        Command::from_fields(Some("EmergencyStop"), None, Some(false)),
        Some(Command::EmergencyStop)
    );
    assert_eq!(
        Command::from_fields(Some("Actuate"), Some(255), Some(true)),
        Some(Command::Actuate { driver_id: 255, value: true })
    );
    assert_eq!(
        Command::from_fields(Some("Actuate"), Some(0), Some(false)),
        Some(Command::Actuate { driver_id: 0, value: false })
    );
}

#[test]
fn fields_that_spell_nothing() {
    assert_eq!(Command::from_fields(None, Some(1), Some(true)), None);
    assert_eq!(Command::from_fields(Some(""), None, None), None);
    assert_eq!(Command::from_fields(Some("ready"), None, None), None);
    assert_eq!(Command::from_fields(Some("Ready "), None, None), None);
    assert_eq!(Command::from_fields(Some("Launch"), Some(1), Some(true)), None);
    assert_eq!(Command::from_fields(Some("Actuate"), Some(256), Some(true)), None);
    assert_eq!(Command::from_fields(Some("Actuate"), Some(u64::MAX), Some(true)), None);
    assert_eq!(Command::from_fields(Some("Actuate"), None, Some(true)), None);
    assert_eq!(Command::from_fields(Some("Actuate"), Some(1), None), None);
}

#[test]
fn frames_decode_whatever_their_layout() {
    assert_eq!(Command::decode(b"{\"type\":\"Ready\"}"), Ok(Command::Ready));
    assert_eq!(Command::decode(b"  {\n \"type\" : \"Ignition\"\n}\n"), Ok(Command::Ignition));
    assert_eq!(
        Command::decode(b"{\"value\":true,\"driver_id\":3,\"type\":\"Actuate\"}"),
        Ok(Command::Actuate { driver_id: 3, value: true })
    );
    assert_eq!(
        Command::decode(b"{\"type\":\"Actuate\",\"driver_id\":0,\"value\":false,\"note\":{\"a\":[1,2]}}"),
        Ok(Command::Actuate { driver_id: 0, value: false })
    );
    assert_eq!(
        Command::decode(b"{\"type\":\"Emergency\\u0053top\"}"),
        Ok(Command::EmergencyStop)
    );
}

#[test]
fn frames_that_hold_no_command_are_handed_back() {
    let frames: [&[u8]; 16] = [
        b"",
        b"{}",
        b"{\"type\":\"Launch\"}",
        b"{\"type\":\"actuate\"}",
        b"{\"type\":\"Actuate\"}",
        b"{\"type\":\"Actuate\",\"driver_id\":256,\"value\":true}",
        b"{\"type\":\"Actuate\",\"driver_id\":-1,\"value\":true}",
        b"{\"type\":\"Actuate\",\"driver_id\":1.5,\"value\":true}",
        b"{\"type\":\"Actuate\",\"driver_id\":\"1\",\"value\":true}",
        b"{\"type\":\"Actuate\",\"driver_id\":1,\"value\":\"yes\"}",
        b"{\"type\":\"Actuate\",\"driver_id\":1,\"value\":1}",
        b"{\"type\":7}",
        b"{\"outer\":{\"type\":\"Ready\"}}",
        b"[\"Ready\"]",
        b"xx{\"type\":\"Ready\"}",
        b"{\"type\":\"Ready\"",
    ];
    for frame in frames {
        assert_eq!(Command::decode(frame), malformed(frame));
    }
}

#[test]
fn a_frame_that_is_not_text_is_handed_back() {
    let frame = b"{\"type\":\"\xff\xfe\"}";
    assert_eq!(Command::decode(frame), malformed(frame));
}

#[test]
fn the_scanner_cuts_the_stream_at_the_closing_brace() {
    let mut scanner = FrameScanner::new();
    let frames = scanner.feed(b"{\"type\":\"Ready\"}{\"type\":\"Ignition\"}");
    assert_eq!(frames, vec![b"{\"type\":\"Ready\"}".to_vec(), b"{\"type\":\"Ignition\"}".to_vec()]);
    assert_eq!(scanner.finish(), ParseError::SourceClosed);
}

#[test]
fn the_scanner_skips_white_space_between_frames() {
    let mut scanner = FrameScanner::new();
    let frames = scanner.feed(b" \r\n\t{\"a\": 1}\n\n  { }\n");
    assert_eq!(frames, vec![b"{\"a\": 1}".to_vec(), b"{ }".to_vec()]);
    assert_eq!(scanner.finish(), ParseError::SourceClosed);
}

#[test]
fn the_scanner_counts_nested_braces() {
    let mut scanner = FrameScanner::new();
    let frames = scanner.feed(b"{\"a\":{\"b\":{}},\"c\":{}}{}");
    assert_eq!(frames, vec![b"{\"a\":{\"b\":{}},\"c\":{}}".to_vec(), b"{}".to_vec()]);
}

#[test]
fn the_scanner_ignores_braces_in_strings() {
    let mut scanner = FrameScanner::new();
    let frames = scanner.feed(b"{\"a\":\"}{\"}{\"b\":\"{{{\"}");
    assert_eq!(frames, vec![b"{\"a\":\"}{\"}".to_vec(), b"{\"b\":\"{{{\"}".to_vec()]);
}

#[test]
fn the_scanner_honours_escapes_in_strings() {
    let mut scanner = FrameScanner::new();
    let frames = scanner.feed(b"{\"a\":\"\\\"}\"}{\"b\":\"\\\\\"}{\"c\":\"\\\\\\\"}\"}");
    assert_eq!(
        frames,
        vec![
            b"{\"a\":\"\\\"}\"}".to_vec(),
            b"{\"b\":\"\\\\\"}".to_vec(),
            b"{\"c\":\"\\\\\\\"}\"}".to_vec()
        ]
    );
}

#[test]
fn the_scanner_works_byte_by_byte() {
    let mut scanner = FrameScanner::new();
    let stream = b"\n{\"type\":\"Actuate\",\"driver_id\":3,\"value\":true}";
    for (i, byte) in stream.iter().enumerate() {
        let frame = scanner.push(*byte);
        if i + 1 < stream.len() {
            assert_eq!(frame, None);
        } else {
            assert_eq!(frame, Some(stream[1..].to_vec()));
        }
    }
    assert_eq!(scanner.push(b' '), None);
    assert_eq!(scanner.finish(), ParseError::SourceClosed);
}

#[test]
fn it_makes_no_difference_where_the_stream_is_cut() {
    let stream = b"  {\"a\":\"x}\\\"y\"} {\"b\":{\"c\":[1,{\"d\":2}]}}\n}{\"e\"";
    let mut whole = FrameScanner::new();
    let expected = whole.feed(stream);
    assert_eq!(expected.len(), 3);
    for cut in 0..=stream.len() {
        let mut scanner = FrameScanner::new();
        let mut frames = scanner.feed(&stream[..cut]);
        frames.extend(scanner.feed(&stream[cut..]));
        assert_eq!(frames, expected);
        assert_eq!(scanner.finish(), ParseError::Malformed(b"{\"e\"".to_vec()));
    }
}

#[test]
fn a_stray_closing_brace_closes_a_frame_of_its_own() {
    let mut scanner = FrameScanner::new();
    assert_eq!(scanner.feed(b"}"), vec![b"}".to_vec()]);
    assert_eq!(scanner.feed(b"abc}{}"), vec![b"abc}".to_vec(), b"{}".to_vec()]);
}

#[test]
fn white_space_inside_a_frame_is_kept() {
    let mut scanner = FrameScanner::new();
    assert_eq!(scanner.feed(b"x \n{ }"), vec![b"x \n{ }".to_vec()]);
}

#[test]
fn the_end_inside_a_frame_is_a_malformed_frame() {
    let mut scanner = FrameScanner::new();
    assert!(scanner.feed(b"{\"type\":\"Rea").is_empty());
    assert_eq!(scanner.finish(), ParseError::Malformed(b"{\"type\":\"Rea".to_vec()));
}

#[test]
fn the_end_between_frames_is_a_closed_source() {
    assert_eq!(FrameScanner::new().finish(), ParseError::SourceClosed);
    let mut scanner = FrameScanner::new();
    assert_eq!(scanner.feed(b"{}\n \n").len(), 1);
    assert_eq!(scanner.finish(), ParseError::SourceClosed);
}
