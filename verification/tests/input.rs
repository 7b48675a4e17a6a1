use termcore::input::{
    coalesce_resizes, encode_arrow, encode_paste, io_decision, ArrowKey, IoStep, PtyRead,
};

#[test]
fn arrow_keys_use_csi_by_default() {
    assert_eq!(encode_arrow(ArrowKey::Up, false), b"\x1b[A".to_vec());
    assert_eq!(encode_arrow(ArrowKey::Down, false), b"\x1b[B".to_vec());
    assert_eq!(encode_arrow(ArrowKey::Right, false), b"\x1b[C".to_vec());
    assert_eq!(encode_arrow(ArrowKey::Left, false), b"\x1b[D".to_vec());
}

#[test]
fn arrow_keys_use_ss3_in_application_mode() {
    assert_eq!(encode_arrow(ArrowKey::Up, true), b"\x1bOA".to_vec());
    assert_eq!(encode_arrow(ArrowKey::Left, true), b"\x1bOD".to_vec());
}

#[test]
fn paste_is_wrapped_only_in_bracketed_mode() {
    let data = b"hello".to_vec();
    assert_eq!(encode_paste(&data, false), b"hello".to_vec());
    assert_eq!(
        encode_paste(&data, true),
        b"\x1b[200~hello\x1b[201~".to_vec()
    );
}

#[test]
fn empty_paste_still_gets_both_markers() {
    let data: Vec<u8> = Vec::new();
    assert_eq!(encode_paste(&data, true), b"\x1b[200~\x1b[201~".to_vec());
}

#[test]
fn resize_bursts_coalesce_to_the_most_recent() {
    let events: Vec<(u16, u16)> = vec![(24, 80), (30, 100), (25, 90)];
    assert_eq!(coalesce_resizes(&events), Some((25, 90)));
    let none: Vec<(u16, u16)> = Vec::new();
    assert_eq!(coalesce_resizes(&none), None);
}

#[test]
fn io_decisions_for_every_read_outcome() {
    assert_eq!(io_decision(PtyRead::Data(12)), IoStep::Process(12));
    assert_eq!(io_decision(PtyRead::Data(0)), IoStep::Exit(true));
    assert_eq!(io_decision(PtyRead::WouldBlock), IoStep::Wait);
    assert_eq!(io_decision(PtyRead::Eof), IoStep::Exit(true));
    assert_eq!(io_decision(PtyRead::Fault), IoStep::Exit(false));
}
