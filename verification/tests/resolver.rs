use encrypttui::layer::{calc_pos, Position};

fn pos(numerator: i16, denominator: u16, absolute: i16, flip: bool) -> Position {
    Position { numerator, denominator, absolute, flip }
}

#[test]
fn absolute_mode_returns_absolute() {
    assert_eq!(calc_pos(&pos(0, 0, 5, false), 80), 5);
    assert_eq!(calc_pos(&pos(0, 0, -3, false), 80), -3);
    assert_eq!(calc_pos(&pos(0, 0, 5, false), 1), 5);
}

#[test]
fn absolute_mode_flipped_mirrors_from_far_edge() {
    assert_eq!(calc_pos(&pos(0, 0, 0, true), 80), 79);
    assert_eq!(calc_pos(&pos(0, 0, 10, true), 80), 69);
    assert_eq!(calc_pos(&pos(0, 0, 0, true), 24), 23);
}

#[test]
fn absolute_mode_flipped_saturates_at_i16_max() {
    assert_eq!(calc_pos(&pos(0, 0, 0, true), 65535), 32767);
}

#[test]
fn ratio_mode_takes_ceiling_of_fraction() {
    assert_eq!(calc_pos(&pos(1, 2, 0, false), 80), 40);
    assert_eq!(calc_pos(&pos(1, 2, 0, false), 81), 41);
    assert_eq!(calc_pos(&pos(2, 3, 0, false), 80), 54);
    assert_eq!(calc_pos(&pos(1, 3, 0, false), 24), 8);
}

#[test]
fn ratio_mode_with_negative_numerator() {
    assert_eq!(calc_pos(&pos(-1, 4, 0, false), 80), -20);
    assert_eq!(calc_pos(&pos(-1, 3, 0, false), 80), -26);
}

#[test]
fn ratio_mode_flipped_mirrors_from_far_edge() {
    assert_eq!(calc_pos(&pos(1, 2, 0, true), 80), 39);
    assert_eq!(calc_pos(&pos(1, 4, 0, true), 24), 17);
}

#[test]
fn ratio_mode_is_monotonic_in_the_extent() {
    let p = pos(3, 7, 0, false);
    let mut last = calc_pos(&p, 0);
    for e in 1..2000u16 {
        let cur = calc_pos(&p, e);
        assert!(cur >= last);
        last = cur;
    }
}
