use treefilter::decode::decode_event;
use treefilter::decode::decoder_step;
use treefilter::decode::DecodeStep;
use treefilter::decode::DecoderState;
use treefilter::Direction;
use treefilter::Event;
use treefilter::Navigation;

#[test]
fn arrow_right_consumes_three_bytes() {
    let bytes = vec![0x1b, 0x5b, 0x43];
    let (ev, used) = decode_event(&bytes, 0);
    assert_eq!(ev, Event::Direction(Direction::Right));
    assert_eq!(used, 3);
}

#[test]
fn arrow_left() {
    let bytes = vec![0x1b, 0x5b, 0x44];
    let (ev, used) = decode_event(&bytes, 0);
    assert_eq!(ev, Event::Direction(Direction::Left));
    assert_eq!(used, 3);
}

#[test]
fn page_up_consumes_four_bytes() {
    let bytes = vec![0x1b, 0x5b, 0x35, 0x7e];
    let (ev, used) = decode_event(&bytes, 0);
    assert_eq!(ev, Event::Navigation(Navigation::PageUp));
    assert_eq!(used, 4);
}

#[test]
fn page_down_home_end() {
    let (ev, used) = decode_event(&vec![0x1b, 0x5b, 0x36, 0x7e], 0);
    assert_eq!(ev, Event::Navigation(Navigation::PageDown));
    assert_eq!(used, 4);
    let (ev, _) = decode_event(&vec![0x1b, 0x5b, 0x31, 0x7e], 0);
    assert_eq!(ev, Event::Navigation(Navigation::Home));
    let (ev, _) = decode_event(&vec![0x1b, 0x5b, 0x34, 0x7e], 0);
    assert_eq!(ev, Event::Navigation(Navigation::End));
}

#[test]
fn unknown_csi_selector_degrades_to_key() {
    let bytes = vec![0x1b, 0x5b, 0x39];
    let (ev, used) = decode_event(&bytes, 0);
    assert_eq!(ev, Event::Key('9'));
    assert_eq!(used, 3);
}

#[test]
fn missing_tilde_degrades_to_key() {
    let bytes = vec![0x1b, 0x5b, 0x35, 0x41];
    let (ev, used) = decode_event(&bytes, 0);
    assert_eq!(ev, Event::Key('A'));
    assert_eq!(used, 4);
}

#[test]
fn truncated_nav_sequence_degrades_to_selector_key() {
    let bytes = vec![0x1b, 0x5b, 0x35];
    let (ev, used) = decode_event(&bytes, 0);
    assert_eq!(ev, Event::Key('5'));
    assert_eq!(used, 3);
}

#[test]
fn lone_escape_then_letter_is_a_key() {
    let bytes = vec![0x1b, 0x41];
    let (ev, used) = decode_event(&bytes, 0);
    assert_eq!(ev, Event::Key('A'));
    assert_eq!(used, 2);
}

#[test]
fn escape_at_end_of_stream_degrades_to_escape_key() {
    let bytes = vec![0x1b];
    let (ev, used) = decode_event(&bytes, 0);
    assert_eq!(ev, Event::Key('\u{1b}'));
    assert_eq!(used, 1);
}

#[test]
fn bracket_at_end_of_stream_degrades_to_bracket_key() {
    let bytes = vec![0x1b, 0x5b];
    let (ev, used) = decode_event(&bytes, 0);
    assert_eq!(ev, Event::Key('['));
    assert_eq!(used, 2);
}

#[test]
fn control_bytes() {
    assert_eq!(decode_event(&vec![0x08], 0), (Event::Backspace, 1));
    assert_eq!(decode_event(&vec![0x7f], 0), (Event::Backspace, 1));
    assert_eq!(decode_event(&vec![0x15], 0), (Event::Clear, 1));
    assert_eq!(decode_event(&vec![0x04], 0), (Event::Exit, 1));
    assert_eq!(decode_event(&vec![0x0d], 0), (Event::Enter, 1));
}

#[test]
fn empty_stream_is_exit() {
    let bytes = vec![];
    let (ev, used) = decode_event(&bytes, 0);
    assert_eq!(ev, Event::Exit);
    assert_eq!(used, 0);
}

#[test]
fn ordinary_byte_is_a_key() {
    let (ev, used) = decode_event(&vec![b'a'], 0);
    assert_eq!(ev, Event::Key('a'));
    assert_eq!(used, 1);
}

#[test]
fn decoding_from_an_offset() {
    let bytes = vec![b'x', 0x1b, 0x5b, 0x43];
    let (ev, used) = decode_event(&bytes, 1);
    assert_eq!(ev, Event::Direction(Direction::Right));
    assert_eq!(used, 3);
}

#[test]
fn step_machine_asks_for_more_after_escape() {
    match decoder_step(DecoderState::Start, Some(0x1b)) {
        DecodeStep::Pending(st) => assert_eq!(st, DecoderState::AfterEscape),
        DecodeStep::Done(_) => panic!("escape must not finish an event"),
    }
    match decoder_step(DecoderState::AfterEscape, Some(0x5b)) {
        DecodeStep::Pending(st) => assert_eq!(st, DecoderState::AfterBracket),
        DecodeStep::Done(_) => panic!("bracket must not finish an event"),
    }
    match decoder_step(DecoderState::AfterBracket, Some(0x43)) {
        DecodeStep::Done(ev) => assert_eq!(ev, Event::Direction(Direction::Right)),
        DecodeStep::Pending(_) => panic!("selector must finish the event"),
    }
}

#[test]
fn step_machine_read_failure_is_exit_only_at_start() {
    match decoder_step(DecoderState::Start, None) {
        DecodeStep::Done(ev) => assert_eq!(ev, Event::Exit),
        DecodeStep::Pending(_) => panic!("failed read must finish"),
    }
    match decoder_step(DecoderState::AwaitConfirm(0x35), None) {
        DecodeStep::Done(ev) => assert_eq!(ev, Event::Key('5')),
        DecodeStep::Pending(_) => panic!("failed read must finish"),
    }
}
