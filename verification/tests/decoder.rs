use termcore::decoder::{Action, Decoder};

fn feed_all(d: &mut Decoder, bytes: &[u8]) -> Vec<Action> {
    d.feed(bytes)
}

#[test]
fn printable_bytes_become_prints() {
    let mut d = Decoder::new();
    let acts = feed_all(&mut d, b"Hi");
    assert_eq!(acts, vec![Action::Print('H'), Action::Print('i')]);
}

#[test]
fn control_bytes_execute_immediately() {
    let mut d = Decoder::new();
    let acts = feed_all(&mut d, b"\x07\x0a");
    assert_eq!(acts, vec![Action::Execute(0x07), Action::Execute(0x0a)]);
}

#[test]
fn csi_with_parameters() {
    let mut d = Decoder::new();
    let acts = feed_all(&mut d, b"\x1b[1;5H");
    assert_eq!(acts, vec![Action::CsiDispatch(vec![1, 5], vec![], b'H')]);
}

#[test]
fn csi_without_parameters_carries_the_default_zero() {
    let mut d = Decoder::new();
    let acts = feed_all(&mut d, b"\x1b[H");
    assert_eq!(acts, vec![Action::CsiDispatch(vec![0], vec![], b'H')]);
}

#[test]
fn csi_private_marker_lands_in_intermediates() {
    let mut d = Decoder::new();
    let acts = feed_all(&mut d, b"\x1b[?25l");
    assert_eq!(acts, vec![Action::CsiDispatch(vec![25], vec![b'?'], b'l')]);
}

#[test]
fn chunking_does_not_change_the_actions() {
    let stream: &[u8] = b"A\x1b[2J\x1b]0;title\x07\xc3\xa9Z";
    let mut whole = Decoder::new();
    let expected = whole.feed(stream);
    for cut in 0..stream.len() {
        let mut d = Decoder::new();
        let mut acts = d.feed(&stream[..cut]);
        acts.extend(d.feed(&stream[cut..]));
        assert_eq!(acts, expected, "cut at {}", cut);
    }
}

#[test]
fn chunking_mid_escape_sequence_is_harmless() {
    let mut d = Decoder::new();
    let mut acts = d.feed(b"\x1b[2");
    assert!(acts.is_empty());
    acts.extend(d.feed(b"J"));
    assert_eq!(acts, vec![Action::CsiDispatch(vec![2], vec![], b'J')]);
}

#[test]
fn two_byte_utf8_character_prints_once() {
    let mut d = Decoder::new();
    let acts = feed_all(&mut d, "é".as_bytes());
    assert_eq!(acts, vec![Action::Print('é')]);
}

#[test]
fn four_byte_utf8_character_prints_once() {
    let mut d = Decoder::new();
    let acts = feed_all(&mut d, "😀".as_bytes());
    assert_eq!(acts, vec![Action::Print('😀')]);
}

#[test]
fn invalid_utf8_decodes_to_the_replacement_character() {
    let mut d = Decoder::new();
    let acts = feed_all(&mut d, &[0xff]);
    assert_eq!(acts, vec![Action::Print('\u{FFFD}')]);
}

#[test]
fn overlong_utf8_encoding_is_rejected() {
    // 0xC0 0xAF would be an overlong '/': the lead byte itself is invalid.
    let mut d = Decoder::new();
    let acts = feed_all(&mut d, &[0xc0, 0xaf]);
    assert_eq!(
        acts,
        vec![Action::Print('\u{FFFD}'), Action::Print('\u{FFFD}')]
    );
}

#[test]
fn truncated_utf8_yields_replacement_and_keeps_the_next_byte() {
    let mut d = Decoder::new();
    let acts = feed_all(&mut d, &[0xc3, b'A']);
    assert_eq!(acts, vec![Action::Print('\u{FFFD}'), Action::Print('A')]);
}

#[test]
fn osc_title_splits_on_semicolons() {
    let mut d = Decoder::new();
    let acts = feed_all(&mut d, b"\x1b]0;hello\x07");
    assert_eq!(
        acts,
        vec![Action::OscDispatch(vec![b"0".to_vec(), b"hello".to_vec()])]
    );
}

#[test]
fn osc_terminated_by_string_terminator() {
    let mut d = Decoder::new();
    let acts = feed_all(&mut d, b"\x1b]2;t\x1b\\");
    assert_eq!(
        acts,
        vec![
            Action::OscDispatch(vec![b"2".to_vec(), b"t".to_vec()]),
            Action::EscDispatch(vec![], b'\\'),
        ]
    );
}

#[test]
fn unrecognized_escape_does_not_eat_the_next_printable() {
    // ESC with intermediate-range byte 'B' dispatches as an escape
    // sequence; the printable 'C' after it must survive.
    let mut d = Decoder::new();
    let acts = feed_all(&mut d, b"A\x1bBC");
    assert_eq!(
        acts,
        vec![
            Action::Print('A'),
            Action::EscDispatch(vec![], b'B'),
            Action::Print('C'),
        ]
    );
}

#[test]
fn cancel_aborts_a_sequence() {
    let mut d = Decoder::new();
    let acts = feed_all(&mut d, b"\x1b[12\x18X");
    assert_eq!(acts, vec![Action::Execute(0x18), Action::Print('X')]);
}

#[test]
fn dcs_hook_put_unhook() {
    let mut d = Decoder::new();
    let acts = feed_all(&mut d, b"\x1bPq#\x1b\\");
    assert_eq!(
        acts,
        vec![
            Action::DcsHook(vec![0], vec![], b'q'),
            Action::DcsPut(b'#'),
            Action::DcsUnhook,
            Action::EscDispatch(vec![], b'\\'),
        ]
    );
}

#[test]
fn parameter_accumulation_saturates() {
    let mut d = Decoder::new();
    let acts = feed_all(&mut d, b"\x1b[99999999999999999m");
    assert_eq!(acts, vec![Action::CsiDispatch(vec![65535], vec![], b'm')]);
}
