use glyph_atlas::command_buffer::{received_char, BACKSPACE};

#[test]
fn characters_gather_until_a_line_feed() {
    let mut buffer = Vec::new();
    assert_eq!(received_char('l', &mut buffer), None);
    assert_eq!(received_char('s', &mut buffer), None);
    assert_eq!(buffer, vec!['l', 's']);
    assert_eq!(received_char('\n', &mut buffer), Some(vec!['l', 's']));
    assert!(buffer.is_empty());
    assert_eq!(received_char('\n', &mut buffer), Some(vec![]));
}

#[test]
fn backspace_drops_the_last_character() {
    let mut buffer = vec!['a', 'b'];
    assert_eq!(BACKSPACE, '\u{8}');
    assert_eq!(received_char(BACKSPACE, &mut buffer), None);
    assert_eq!(buffer, vec!['a']);
    assert_eq!(received_char(BACKSPACE, &mut buffer), None);
    assert_eq!(received_char(BACKSPACE, &mut buffer), None);
    assert!(buffer.is_empty());
    assert_eq!(received_char('\r', &mut buffer), None);
    assert_eq!(buffer, vec!['\r']);
}
