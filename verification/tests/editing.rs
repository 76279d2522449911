use treefilter::input::handle_input;
use treefilter::Direction;
use treefilter::Event;
use treefilter::Navigation;

fn state(pattern: &str, cursor: usize, scroll: usize) -> (String, usize, usize) {
    (pattern.to_string(), cursor, scroll)
}

#[test]
fn key_inserts_at_cursor_and_advances() {
    let (mut p, mut c, mut s) = state("abc", 1, 0);
    let r = handle_input(&mut p, &mut c, &mut s, Event::Key('x'));
    assert_eq!(p, "axbc");
    assert_eq!(c, 2);
    assert_eq!(s, 0);
    assert!(r.is_none());
}

#[test]
fn key_appends_at_end() {
    let (mut p, mut c, mut s) = state("ab", 2, 0);
    handle_input(&mut p, &mut c, &mut s, Event::Key('z'));
    assert_eq!(p, "abz");
    assert_eq!(c, 3);
}

#[test]
fn left_saturates_at_zero() {
    let (mut p, mut c, mut s) = state("ab", 0, 0);
    handle_input(&mut p, &mut c, &mut s, Event::Direction(Direction::Left));
    assert_eq!(c, 0);
    c = 2;
    handle_input(&mut p, &mut c, &mut s, Event::Direction(Direction::Left));
    assert_eq!(c, 1);
}

#[test]
fn right_saturates_at_length() {
    let (mut p, mut c, mut s) = state("ab", 2, 0);
    handle_input(&mut p, &mut c, &mut s, Event::Direction(Direction::Right));
    assert_eq!(c, 2);
    c = 0;
    handle_input(&mut p, &mut c, &mut s, Event::Direction(Direction::Right));
    assert_eq!(c, 1);
}

#[test]
fn page_keys_move_scroll_by_five() {
    let (mut p, mut c, mut s) = state("ab", 1, 7);
    handle_input(&mut p, &mut c, &mut s, Event::Navigation(Navigation::PageUp));
    assert_eq!(s, 2);
    handle_input(&mut p, &mut c, &mut s, Event::Navigation(Navigation::PageUp));
    assert_eq!(s, 0);
    handle_input(&mut p, &mut c, &mut s, Event::Navigation(Navigation::PageDown));
    assert_eq!(s, 5);
    assert_eq!(c, 1);
}

#[test]
fn home_and_end_jump_the_cursor() {
    let (mut p, mut c, mut s) = state("hello", 3, 0);
    handle_input(&mut p, &mut c, &mut s, Event::Navigation(Navigation::Home));
    assert_eq!(c, 0);
    handle_input(&mut p, &mut c, &mut s, Event::Navigation(Navigation::End));
    assert_eq!(c, 5);
}

#[test]
fn backspace_deletes_before_cursor() {
    let (mut p, mut c, mut s) = state("abc", 2, 0);
    handle_input(&mut p, &mut c, &mut s, Event::Backspace);
    assert_eq!(p, "ac");
    assert_eq!(c, 1);
}

#[test]
fn backspace_at_start_is_a_no_op() {
    let (mut p, mut c, mut s) = state("abc", 0, 0);
    handle_input(&mut p, &mut c, &mut s, Event::Backspace);
    assert_eq!(p, "abc");
    assert_eq!(c, 0);
}

#[test]
fn clear_empties_the_pattern() {
    let (mut p, mut c, mut s) = state("abc", 2, 4);
    handle_input(&mut p, &mut c, &mut s, Event::Clear);
    assert_eq!(p, "");
    assert_eq!(c, 0);
    assert_eq!(s, 4);
}

#[test]
fn enter_returns_the_pattern_unchanged() {
    let (mut p, mut c, mut s) = state("abc", 2, 4);
    let r = handle_input(&mut p, &mut c, &mut s, Event::Enter);
    assert_eq!(r, Some("abc".to_string()));
    assert_eq!(p, "abc");
    assert_eq!(c, 2);
    assert_eq!(s, 4);
}

#[test]
fn exit_returns_an_empty_result() {
    let (mut p, mut c, mut s) = state("abc", 2, 4);
    let r = handle_input(&mut p, &mut c, &mut s, Event::Exit);
    assert_eq!(r, Some(String::new()));
    assert_eq!(p, "abc");
}

#[test]
fn multibyte_text_is_edited_by_characters() {
    let (mut p, mut c, mut s) = state("\u{e9}\u{e8}", 1, 0);
    handle_input(&mut p, &mut c, &mut s, Event::Key('x'));
    assert_eq!(p, "\u{e9}x\u{e8}");
    assert_eq!(c, 2);
    handle_input(&mut p, &mut c, &mut s, Event::Backspace);
    assert_eq!(p, "\u{e9}\u{e8}");
    assert_eq!(c, 1);
}
