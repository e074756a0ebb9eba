use slmodem_asterisk_bridge::dial_string::{DialString, DialStringError};
use slmodem_asterisk_bridge::dial_wait::{
    read_line, scan_chunk, wait_step, Line, LineBuffer, Notice, WaitEvent, WaitStep,
    DIAL_WAIT_HEARTBEAT_SECS, LINE_BUF_LIMIT,
};
use slmodem_asterisk_bridge::text::{contains, is_white_space, strip_prefix, trim};

fn scan_all(chunks: &[&[u8]]) -> (usize, Option<String>) {
    let mut line = LineBuffer::new();
    for chunk in chunks {
        let dial = scan_chunk(&mut line, chunk).dial;
        if dial.is_some() {
            return (line.len(), dial);
        }
    }
    (line.len(), None)
}

fn notices(chunks: &[&[u8]]) -> Vec<String> {
    let mut line = LineBuffer::new();
    let mut all = Vec::new();
    for chunk in chunks {
        for notice in scan_chunk(&mut line, chunk).notices {
            all.push(match notice {
                Notice::Overflow => "overflow".to_string(),
                Notice::EmptyDial => "empty".to_string(),
                Notice::UnknownLine(line) => line,
            });
        }
    }
    all
}

#[test]
fn white_space_is_that_of_unicode() {
    for code in 0..=0x10ffffu32 {
        if let Some(c) = char::from_u32(code) {
            assert_eq!(is_white_space(c), c.is_whitespace());
        }
    }
}

#[test]
fn trimming_matches_std() {
    for text in ["", " ", "a", " a b ", "\t12\r", "\u{3000}x\u{85}", "\u{200b}x"] {
        assert_eq!(trim(text), text.trim());
    }
}

#[test]
fn prefix_and_search_match_std() {
    for text in ["", "DIAL:", "DIAL:1", "dial:1", "DIA", "xDIAL:", "\u{e9}DIAL:"] {
        assert_eq!(strip_prefix(text, "DIAL:"), text.strip_prefix("DIAL:"));
        assert_eq!(contains(text, "DIAL:"), text.contains("DIAL:"));
        assert_eq!(contains(text, ""), text.contains(""));
    }
}

#[test]
fn lines_are_told_apart() {
    for (line, number) in [("DIAL:15551234567", "15551234567"), ("DIAL:  5 \r", "5")] {
        match read_line(line) {
            Line::Dial(said) => assert_eq!(said, number),
            other => panic!("unexpected meaning {other:?}"),
        }
    }
    assert!(matches!(read_line("DIAL:"), Line::EmptyDial));
    assert!(matches!(read_line("DIAL: \t"), Line::EmptyDial));
    assert!(matches!(read_line("dial:5"), Line::Unknown));
    assert!(matches!(read_line(" DIAL:5"), Line::Unknown));
    assert!(matches!(read_line(""), Line::Blank));
}

#[test]
fn dial_command_is_found() {
    assert_eq!(
        scan_all(&[b"DIAL:15551234567\n"]).1.as_deref(),
        Some("15551234567")
    );
}

#[test]
fn chunks_may_be_cut_anywhere() {
    let bytes = b"hello\nDIAL: \nDIAL:15551234567\nDIAL:2\n";
    for at in 0..=bytes.len() {
        let (first, second) = bytes.split_at(at);
        assert_eq!(
            scan_all(&[first, second]).1.as_deref(),
            Some("15551234567")
        );
    }
}

#[test]
fn unfinished_line_is_carried_over() {
    assert_eq!(scan_all(&[b"x\nDIAL:", b"12"]), (7, None));
    assert_eq!(
        scan_all(&[b"x\nDIAL:", b"12", b"3\n"]).1.as_deref(),
        Some("123")
    );
}

#[test]
fn longest_line_is_read() {
    let number = "5".repeat(LINE_BUF_LIMIT - 5);
    let line = format!("DIAL:{number}\n");
    assert_eq!(scan_all(&[line.as_bytes()]).1, Some(number));
}

#[test]
fn overlong_line_asks_for_nothing() {
    let line = format!("DIAL:{}\n", "5".repeat(LINE_BUF_LIMIT - 4));
    assert_eq!(scan_all(&[line.as_bytes()]), (0, None));
}

#[test]
fn tail_of_an_overlong_line_is_no_command() {
    let mut bytes = vec![b'x'; LINE_BUF_LIMIT + 1];
    bytes.extend_from_slice(b"DIAL:5\n");
    assert_eq!(scan_all(&[&bytes]), (0, None));
    for at in 0..=bytes.len() {
        let (first, second) = bytes.split_at(at);
        assert_eq!(scan_all(&[first, second]), (0, None));
    }
}

#[test]
fn line_after_an_overlong_one_is_read() {
    let mut bytes = vec![b'x'; 1000];
    bytes.extend_from_slice(b"\nDIAL:7\n");
    assert_eq!(scan_all(&[&bytes]).1.as_deref(), Some("7"));
}

#[test]
fn lines_that_ask_for_nothing_are_noticed() {
    let overlong = vec![b'x'; 1000];
    assert_eq!(
        notices(&[b"hello\n\nDIAL: \n", &overlong, b"\n", b"DIAL:5\nbye\n"]),
        vec!["hello", "empty", "overflow"]
    );
}

#[test]
fn invalid_utf8_is_replaced() {
    assert_eq!(
        scan_all(&[b"DIAL:1\xff2\n"]).1.as_deref(),
        Some("1\u{fffd}2")
    );
    assert_eq!(
        scan_all(&["DIAL:\u{e9}\n".as_bytes()]).1.as_deref(),
        Some("\u{e9}")
    );
}

#[test]
fn wait_goes_on_and_ends_as_it_should() {
    let mut line = LineBuffer::new();
    let turn = wait_step(&mut line, WaitEvent::Read(b"?\nDIAL:4"));
    assert!(matches!(turn.step, WaitStep::Wait));
    assert_eq!(turn.notices.len(), 1);
    let turn = wait_step(&mut line, WaitEvent::SilenceDue);
    assert!(matches!(turn.step, WaitStep::WriteSilence));
    assert!(turn.notices.is_empty());
    let turn = wait_step(&mut line, WaitEvent::SilenceWritten);
    assert!(matches!(turn.step, WaitStep::Wait));
    let turn = wait_step(&mut line, WaitEvent::HeartbeatDue);
    assert!(matches!(turn.step, WaitStep::ReportAlive));
    match wait_step(&mut line, WaitEvent::Read(b"2\n")).step {
        WaitStep::Dial(number) => assert_eq!(number, "42"),
        other => panic!("unexpected step {other:?}"),
    }
    assert_eq!(DIAL_WAIT_HEARTBEAT_SECS, 60);
}

#[test]
fn wait_ends_when_the_socket_is_gone() {
    let mut line = LineBuffer::new();
    let turn = wait_step(&mut line, WaitEvent::Read(b""));
    assert!(matches!(turn.step, WaitStep::Closed));
    let turn = wait_step(&mut line, WaitEvent::ReadFailed);
    assert!(matches!(turn.step, WaitStep::Closed));
    let turn = wait_step(&mut line, WaitEvent::SilenceFailed);
    assert!(matches!(turn.step, WaitStep::Closed));
}

#[test]
fn dial_strings_are_trimmed_and_bounded() {
    assert_eq!(
        DialString::parse(" 15551234567 ").unwrap().as_str(),
        "15551234567"
    );
    assert_eq!(
        DialString::parse("  ").unwrap_err(),
        DialStringError::Empty
    );
    assert_eq!(
        DialString::parse(&"5".repeat(127)).unwrap().as_str(),
        "5".repeat(127)
    );
    assert_eq!(
        DialString::parse(&"5".repeat(128)).unwrap_err(),
        DialStringError::TooLong
    );
}

#[test]
fn dial_string_is_found_in_itself() {
    let dial = DialString::parse("\t+1 555 \r").unwrap();
    assert_eq!(dial.as_str(), "+1 555");
    assert_eq!(
        DialString::parse(dial.as_str()).unwrap().as_str(),
        dial.as_str()
    );
}

#[test]
fn number_read_is_dialled_unless_too_long() {
    let number = scan_all(&[b"DIAL: 5551234 \n"]).1.unwrap();
    assert_eq!(DialString::parse(&number).unwrap().as_str(), "5551234");
    let long = format!("DIAL:{}\n", "5".repeat(200));
    let number = scan_all(&[long.as_bytes()]).1.unwrap();
    assert_eq!(
        DialString::parse(&number).unwrap_err(),
        DialStringError::TooLong
    );
}
