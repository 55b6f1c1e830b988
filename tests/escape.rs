use korodis::{
    clear_history_sequence, clear_sequence, hide_cursor_sequence, move_cursor_sequence,
    set_colors_sequence, show_cursor_sequence, SGR,
};

#[test]
fn cursor_sequences() {
    assert_eq!(move_cursor_sequence(1, 1), b"\x1b[1;1H".to_vec());
    assert_eq!(move_cursor_sequence(120, 7), b"\x1b[7;120H".to_vec());
    assert_eq!(move_cursor_sequence(0, 10), b"\x1b[10;0H".to_vec());
    assert_eq!(hide_cursor_sequence(), b"\x1b[?25l".to_vec());
    assert_eq!(show_cursor_sequence(), b"\x1b[?25h".to_vec());
}

#[test]
fn screen_sequences() {
    assert_eq!(clear_sequence(), b"\x1b[2J".to_vec());
    assert_eq!(clear_history_sequence(), b"\x1b[3J".to_vec());
}

#[test]
fn color_sequences() {
    assert_eq!(set_colors_sequence(&[SGR::Reset]), b"\x1b[0m".to_vec());
    assert_eq!(set_colors_sequence(&[SGR::BlackBG]), b"\x1b[40m".to_vec());
    assert_eq!(set_colors_sequence(&[SGR::Bold, SGR::RedFG, SGR::BrightWhiteBG]), b"\x1b[1;31;107m".to_vec());
    assert_eq!(set_colors_sequence(&[]), b"\x1b[m".to_vec());
}
