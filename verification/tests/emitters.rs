use encrypttui::emit::{clear_attr, clear_console, move_to};

#[test]
fn cursor_move_is_row_then_column_one_based() {
    let mut out = String::new();
    move_to(&mut out, 6, 3);
    assert_eq!(out, "\x1B[3;6H");
}

#[test]
fn cursor_move_formats_multi_digit_numbers() {
    let mut out = String::new();
    move_to(&mut out, 120, 45);
    assert_eq!(out, "\x1B[45;120H");
    let mut out = String::new();
    move_to(&mut out, 100, 1000);
    assert_eq!(out, "\x1B[1000;100H");
}

#[test]
fn cursor_move_formats_zero_and_negative_numbers() {
    let mut out = String::new();
    move_to(&mut out, -8, 0);
    assert_eq!(out, "\x1B[0;-8H");
}

#[test]
fn clears_append_their_sequences() {
    let mut out = String::from("x");
    clear_console(&mut out);
    clear_attr(&mut out);
    assert_eq!(out, "x\x1Bc\x1B[0m");
}
