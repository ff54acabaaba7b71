use encrypttui::compose::draw_at;
use encrypttui::frame::{render_input_field, render_layer, render_splash, Frame, FrameRow,
    InputField};
use encrypttui::layer::{calc_pos, Layer, Position};

fn pos(numerator: i16, denominator: u16, absolute: i16, flip: bool) -> Position {
    Position { numerator, denominator, absolute, flip }
}

fn frame_row(left: &str, fill: char, right: &str) -> FrameRow {
    FrameRow { left: left.to_string(), fill, right: right.to_string() }
}

fn box_frame() -> Frame {
    Frame {
        rows: vec![frame_row(",", '-', ","), frame_row("|", ' ', "|"), frame_row("'", '-', "'")],
        anchor_row: 1,
    }
}

#[test]
fn draw_at_past_right_edge_is_a_no_op() {
    let block = vec!["HELLO".to_string()];
    let mut out = String::new();
    draw_at(&block, 80, 0, 80, 24, &mut out);
    assert_eq!(out, "");
}

#[test]
fn draw_at_past_bottom_edge_is_a_no_op() {
    let block = vec!["HELLO".to_string()];
    let mut out = String::new();
    draw_at(&block, 0, 24, 80, 24, &mut out);
    assert_eq!(out, "");
}

#[test]
fn draw_at_clips_left_columns_of_a_negative_x() {
    let block = vec!["ABCDEF".to_string()];
    let mut out = String::new();
    draw_at(&block, -2, 0, 80, 24, &mut out);
    assert_eq!(out, "\x1B[1;1HCDEF");
}

#[test]
fn draw_at_skips_rows_above_a_negative_y() {
    let block = vec!["TOP".to_string(), "BOTTOM".to_string()];
    let mut out = String::new();
    draw_at(&block, 0, -1, 80, 24, &mut out);
    assert_eq!(out, "\x1B[1;1HBOTTOM");
}

#[test]
fn draw_at_clips_the_right_edge_by_budget() {
    let block = vec!["ABCDEF".to_string()];
    let mut out = String::new();
    draw_at(&block, 77, 0, 80, 24, &mut out);
    assert_eq!(out, "\x1B[1;78HABC");
}

#[test]
fn layer_resolves_to_absolute_position_and_draws_unclipped() {
    let layer = Layer {
        ascii: vec!["HI".to_string()],
        origin: (0, 0),
        position: (pos(0, 0, 5, false), pos(0, 0, 2, false)),
    };
    assert_eq!(calc_pos(&layer.position.0, 80), 5);
    assert_eq!(calc_pos(&layer.position.1, 24), 2);
    let mut out = String::new();
    render_layer(&layer, 80, 24, &mut out);
    assert_eq!(out, "\x1B[0m\x1B[3;6HHI");
}

#[test]
fn layer_origin_shifts_the_resolved_position() {
    let layer = Layer {
        ascii: vec!["HI".to_string()],
        origin: (1, 1),
        position: (pos(0, 0, 5, false), pos(0, 0, 2, false)),
    };
    let mut out = String::new();
    render_layer(&layer, 80, 24, &mut out);
    assert_eq!(out, "\x1B[0m\x1B[2;5HHI");
}

#[test]
fn field_between_middle_and_right_edge_has_the_documented_budget() {
    let left = pos(1, 2, 0, false);
    let right = pos(0, 0, 0, true);
    assert_eq!(calc_pos(&left, 80), 40);
    assert_eq!(calc_pos(&right, 80), 79);
    let field = InputField {
        left,
        right,
        anchor: pos(0, 0, 10, false),
        frame: box_frame(),
        marker: String::new(),
    };
    let mut out = String::new();
    let budget = render_input_field(&field, 80, 24, &mut out);
    assert_eq!(budget, 37);
}

#[test]
fn too_narrow_field_degrades_to_a_zero_budget_and_no_output() {
    let field = InputField {
        left: pos(0, 0, 10, false),
        right: pos(0, 0, 5, false),
        anchor: pos(0, 0, 3, false),
        frame: box_frame(),
        marker: String::new(),
    };
    let mut out = String::new();
    let budget = render_input_field(&field, 80, 24, &mut out);
    assert_eq!(budget, 0);
    assert_eq!(out, "");
}

#[test]
fn frame_rows_are_laid_out_around_the_anchor_row() {
    let field = InputField {
        left: pos(0, 0, 2, false),
        right: pos(0, 0, 9, false),
        anchor: pos(0, 0, 3, false),
        frame: box_frame(),
        marker: String::new(),
    };
    let mut out = String::new();
    let budget = render_input_field(&field, 12, 24, &mut out);
    assert_eq!(budget, 5);
    let expected = "\x1B[0m\
        \x1B[3;3H,\x1B[3;4H-----\x1B[3;9H,\
        \x1B[4;3H|\x1B[4;4H     \x1B[4;9H|\
        \x1B[5;3H'\x1B[5;4H-----\x1B[5;9H'\
        \x1B[4;4H";
    assert_eq!(out, expected);
}

#[test]
fn splash_with_degenerate_field_still_clears_the_screen() {
    let field = InputField {
        left: pos(0, 0, 10, false),
        right: pos(0, 0, 5, false),
        anchor: pos(0, 0, 3, false),
        frame: box_frame(),
        marker: String::new(),
    };
    let layers: Vec<Layer> = Vec::new();
    let mut out = String::new();
    let budget = render_splash(&layers, &field, 80, 24, &mut out);
    assert_eq!(budget, 0);
    assert_eq!(out, "\x1Bc");
}

#[test]
fn splash_draws_layers_then_the_field() {
    let layer = Layer {
        ascii: vec!["HI".to_string()],
        origin: (0, 0),
        position: (pos(0, 0, 5, false), pos(0, 0, 2, false)),
    };
    let field = InputField {
        left: pos(0, 0, 2, false),
        right: pos(0, 0, 9, false),
        anchor: pos(0, 0, 3, false),
        frame: box_frame(),
        marker: String::new(),
    };
    let mut out = String::new();
    let budget = render_splash(&vec![layer], &field, 80, 24, &mut out);
    assert_eq!(budget, 5);
    assert!(out.starts_with("\x1Bc\x1B[0m\x1B[3;6HHI\x1B[0m"));
    assert!(out.ends_with("\x1B[4;4H"));
}
