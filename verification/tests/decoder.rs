use ratatui_wasm::decoder::names_zero_position;
use ratatui_wasm::{decode, Decoded};
use terminput::{
    Event, KeyCode, KeyEvent, KeyModifiers, MouseButton, MouseEvent, MouseEventKind,
};

fn key(code: KeyCode) -> Decoded {
    Decoded::Complete(Event::Key(KeyEvent::new(code)))
}

#[test]
fn no_bytes_are_incomplete() {
    assert_eq!(decode(b""), Decoded::Incomplete);
}

#[test]
fn printable_byte_is_its_key() {
    assert_eq!(decode(b"a"), key(KeyCode::Char('a')));
    assert_eq!(decode(b" "), key(KeyCode::Char(' ')));
    assert_eq!(decode(b"~"), key(KeyCode::Char('~')));
}

#[test]
fn upper_case_letter_carries_shift() {
    match decode(b"A") {
        Decoded::Complete(Event::Key(event)) => {
            assert_eq!(event.code, KeyCode::Char('A'));
            assert_eq!(event.modifiers, KeyModifiers::SHIFT);
        }
        other => panic!("unexpected {:?}", other),
    }
}

#[test]
fn control_bytes_are_keys() {
    assert_eq!(decode(b"\r"), key(KeyCode::Enter));
    assert_eq!(decode(b"\t"), key(KeyCode::Tab));
    assert_eq!(decode(b"\x7F"), key(KeyCode::Backspace));
    assert_eq!(
        decode(b"\x03"),
        Decoded::Complete(Event::Key(
            KeyEvent::new(KeyCode::Char('c')).modifiers(KeyModifiers::CTRL)
        ))
    );
}

#[test]
fn escape_alone_is_the_escape_key() {
    assert_eq!(decode(b"\x1B"), key(KeyCode::Esc));
}

#[test]
fn cursor_introducer_is_incomplete() {
    assert_eq!(decode(b"\x1B["), Decoded::Incomplete);
    assert_eq!(decode(b"\x1BO"), Decoded::Incomplete);
}

#[test]
fn cursor_sequences_are_arrow_keys() {
    assert_eq!(decode(b"\x1B[A"), key(KeyCode::Up));
    assert_eq!(decode(b"\x1B[B"), key(KeyCode::Down));
    assert_eq!(decode(b"\x1B[C"), key(KeyCode::Right));
    assert_eq!(decode(b"\x1B[D"), key(KeyCode::Left));
    assert_eq!(decode(b"\x1BOA"), key(KeyCode::Up));
    assert_eq!(decode(b"\x1BOD"), key(KeyCode::Left));
}

#[test]
fn function_key_sequence_is_decoded() {
    assert_eq!(decode(b"\x1BOP"), key(KeyCode::F(1)));
    assert_eq!(decode(b"\x1B[15~"), key(KeyCode::F(5)));
}

#[test]
fn unknown_sequence_is_invalid() {
    assert_eq!(decode(b"\x1B[x"), Decoded::Invalid);
}

#[test]
fn bytes_that_are_no_text_are_invalid() {
    assert_eq!(decode(b"\xFF"), Decoded::Invalid);
    assert_eq!(decode(b"\xC3\x28"), Decoded::Invalid);
}

#[test]
fn half_a_character_is_incomplete() {
    assert_eq!(decode(b"\xC3"), Decoded::Incomplete);
    assert_eq!(decode("é".as_bytes()), key(KeyCode::Char('é')));
}

#[test]
fn sgr_mouse_report_is_decoded() {
    assert_eq!(
        decode(b"\x1B[<0;20;10M"),
        Decoded::Complete(Event::Mouse(MouseEvent {
            kind: MouseEventKind::Down(MouseButton::Left),
            column: 19,
            row: 9,
            modifiers: KeyModifiers::empty(),
        }))
    );
    assert_eq!(
        decode(b"\x1B[<0;20;10m"),
        Decoded::Complete(Event::Mouse(MouseEvent {
            kind: MouseEventKind::Up(MouseButton::Left),
            column: 19,
            row: 9,
            modifiers: KeyModifiers::empty(),
        }))
    );
}

#[test]
fn rxvt_mouse_report_is_decoded() {
    assert_eq!(
        decode(b"\x1B[32;30;40;M"),
        Decoded::Complete(Event::Mouse(MouseEvent {
            kind: MouseEventKind::Down(MouseButton::Left),
            column: 29,
            row: 39,
            modifiers: KeyModifiers::empty(),
        }))
    );
}

#[test]
fn normal_mouse_report_is_decoded() {
    assert_eq!(
        decode(b"\x1B[M0\x60\x70"),
        Decoded::Complete(Event::Mouse(MouseEvent {
            kind: MouseEventKind::Down(MouseButton::Left),
            column: 63,
            row: 79,
            modifiers: KeyModifiers::CTRL,
        }))
    );
    assert_eq!(decode(b"\x1B[M0\x60"), Decoded::Incomplete);
}

#[test]
fn mouse_report_at_position_zero_is_invalid() {
    assert_eq!(decode(b"\x1B[<0;0;10M"), Decoded::Invalid);
    assert_eq!(decode(b"\x1B[<0;20;0M"), Decoded::Invalid);
    assert_eq!(decode(b"\x1B[<0;20;0m"), Decoded::Invalid);
    assert_eq!(decode(b"\x1B[32;0;40;M"), Decoded::Invalid);
    assert_eq!(decode(b"\x1B[32;30;0M"), Decoded::Invalid);
    assert_eq!(decode(b"\x1B[<0;+0;10M"), Decoded::Invalid);
    assert_eq!(decode(b"\x1B[<0;000;10M"), Decoded::Invalid);
}

#[test]
fn zero_position_is_told_from_other_reports() {
    assert!(names_zero_position(b"\x1B[<0;0;10M"));
    assert!(names_zero_position(b"\x1B[<0;1;0m"));
    assert!(names_zero_position(b"\x1B[32;00;40;M"));
    assert!(names_zero_position(b"\x1B[32;1;+0M"));
    assert!(!names_zero_position(b"\x1B[<0;20;10M"));
    assert!(!names_zero_position(b"\x1B[<0;10;20m"));
    assert!(!names_zero_position(b"\x1B[<0;1;1;0M"));
    assert!(!names_zero_position(b"\x1B[<0M"));
    assert!(!names_zero_position(b"\x1B[<0;M"));
    assert!(!names_zero_position(b"\x1B[<0;+;1M"));
    assert!(!names_zero_position(b"\x1B[32;0;40;m"));
    assert!(!names_zero_position(b"\x1B[0;0;0~"));
    assert!(!names_zero_position(b"\x1B[M0\x60\x70"));
    assert!(!names_zero_position(b"\x1B[200~;0;M"));
    assert!(!names_zero_position(b"0;0;0M"));
    assert!(!names_zero_position(b""));
}

#[test]
fn first_field_of_zero_is_no_position() {
    assert!(!names_zero_position(b"\x1B[0;5;5M"));
    assert_eq!(decode(b"\x1B[0;5;5M"), Decoded::Invalid);
}

#[test]
fn paste_is_gathered_between_its_markers() {
    assert_eq!(decode(b"\x1B[200~"), Decoded::Incomplete);
    assert_eq!(decode(b"\x1B[200~hi"), Decoded::Incomplete);
    assert_eq!(decode(b"\x1B[200~;0;M"), Decoded::Incomplete);
    assert_eq!(
        decode(b"\x1B[200~hi;0;M\x1B[201~"),
        Decoded::Complete(Event::Paste("hi;0;M".to_string()))
    );
}

#[test]
fn escape_before_a_character_is_alt() {
    assert_eq!(
        decode(b"\x1Ba"),
        Decoded::Complete(Event::Key(
            KeyEvent::new(KeyCode::Char('a')).modifiers(KeyModifiers::ALT)
        ))
    );
}
