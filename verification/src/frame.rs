//! The input-field frame builder and the full splash render pass.

use vstd::prelude::*;
use vstd::string::StringExecFns;
use crate::layer::{Position, Layer, calc_pos, spec_calc_pos, clamp_i16, clamp_to_i16};
use crate::clip::{visible_length, visible_len_of};
use crate::compose::{draw_at, spec_draw_at};
use crate::emit::{move_to, spec_move_to, clear_attr, spec_clear_attr, clear_console,
    spec_clear_console, push_char};

verus! {

/// One row of the decorative frame: its left border text, the glyph that
/// fills the middle, and its right border text.
pub struct FrameRow {
    pub left: String,
    pub fill: char,
    pub right: String,
}

/// The decorative frame around the password region: its rows, top to
/// bottom, and the index of the row that carries the input anchor.
pub struct Frame {
    pub rows: Vec<FrameRow>,
    pub anchor_row: usize,
}

/// The full configuration of the input field: the left and right boundary
/// placements, the vertical anchor placement, the frame, and the marker
/// emitted just before the capture starts.
pub struct InputField {
    pub left: Position,
    pub right: Position,
    pub anchor: Position,
    pub frame: Frame,
    pub marker: String,
}

/// A usable frame: at least one row, the anchor row among them, and
/// neither the frame nor a first-row border wider or taller than any
/// terminal extent.
pub open spec fn frame_wf(f: Frame) -> bool {
    &&& 0 < f.rows.len() <= u16::MAX as int
    &&& f.anchor_row < f.rows.len()
    &&& visible_len_of(f.rows@[0].left@) <= u16::MAX as int
    &&& visible_len_of(f.rows@[0].right@) <= u16::MAX as int
}

/// A usable input-field configuration.
pub open spec fn field_wf(f: InputField) -> bool {
    frame_wf(f.frame)
}

/// The usable width of the field: the span between the resolved right and
/// left boundaries minus the visible widths of the two borders.
pub open spec fn spec_field_length(f: InputField, cols: u16) -> int {
    spec_calc_pos(f.right, cols) - spec_calc_pos(f.left, cols) - visible_len_of(
        f.frame.rows@[0].right@,
    ) - visible_len_of(f.frame.rows@[0].left@)
}

/// The visible-masking budget handed to the capture: the usable width, or
/// zero when the field cannot be drawn at all.
pub open spec fn spec_field_budget(f: InputField, cols: u16) -> int {
    if spec_field_length(f, cols) < 1 {
        0
    } else {
        spec_field_length(f, cols)
    }
}

/// `n` repetitions of one character (empty when `n` is not positive).
pub open spec fn fill_seq(c: char, n: int) -> Seq<char> {
    Seq::new(n as nat, |j: int| c)
}

/// The draw operations for frame rows `i` on: each row paints its left
/// border at the left boundary, the fill glyph repeated across the usable
/// width beside it, and its right border ending at the right boundary, on
/// the screen row of the anchor shifted by the row's distance from the
/// anchor row (saturated to the `i16` range).
pub open spec fn spec_frame_rows(f: InputField, cols: u16, rows_e: u16, i: int) -> Seq<char>
    decreases f.frame.rows.len() - i,
{
    if i < 0 || i >= f.frame.rows.len() {
        Seq::empty()
    } else {
        let posx = spec_calc_pos(f.left, cols);
        let maxx = spec_calc_pos(f.right, cols);
        let lw = visible_len_of(f.frame.rows@[0].left@) as int;
        let rw = visible_len_of(f.frame.rows@[0].right@) as int;
        let len = maxx - posx - rw - lw;
        let y = clamp_i16(spec_calc_pos(f.anchor, rows_e) + i - f.frame.anchor_row);
        spec_draw_at(seq![f.frame.rows@[i].left@], posx, y, cols as int, rows_e as int)
            + spec_draw_at(
            seq![fill_seq(f.frame.rows@[i].fill, len)],
            posx + lw,
            y,
            cols as int,
            rows_e as int,
        ) + spec_draw_at(seq![f.frame.rows@[i].right@], maxx - rw, y, cols as int, rows_e as int)
            + spec_frame_rows(f, cols, rows_e, i + 1)
    }
}

/// What rendering the input field emits: nothing when the usable width is
/// below one; otherwise an attribute reset, the frame rows, and a cursor
/// move to the input position followed by the marker.
pub open spec fn spec_render_field(f: InputField, cols: u16, rows_e: u16) -> Seq<char> {
    if spec_field_length(f, cols) < 1 {
        Seq::empty()
    } else {
        let posx = spec_calc_pos(f.left, cols);
        let posy = spec_calc_pos(f.anchor, rows_e);
        let lw = visible_len_of(f.frame.rows@[0].left@) as int;
        spec_clear_attr() + spec_frame_rows(f, cols, rows_e, 0) + spec_move_to(
            posx + lw + 1,
            posy + 1,
        ) + f.marker@
    }
}

/// Builds a `String` of one character repeated `n` times.
pub fn repeat_char(c: char, n: usize) -> (r: String)
    ensures
        r@ == fill_seq(c, n as int),
{
    let mut r = String::new();
    let mut i: usize = 0;
    while i < n
        invariant
            i <= n,
            r@ == fill_seq(c, i as int),
        decreases n - i,
    {
        push_char(&mut r, c);
        proof {
            assert(r@ =~= fill_seq(c, i as int + 1));
        }
        i = i + 1;
    }
    r
}

fn singleton_block(s: &String) -> (b: Vec<String>)
    ensures
        b.deep_view() =~= seq![s@],
{
    let mut b: Vec<String> = Vec::new();
    b.push(s.clone());
    proof {
        assert(b.deep_view() =~= seq![s@]);
    }
    b
}

/// Lays out and draws the password-field frame, emits the pre-input cursor
/// move and marker, and returns the visible-masking budget of the capture.
/// A field whose usable width comes out below one is not drawn at all and
/// degrades to a budget of zero; the capture still happens, unmasked.
pub fn render_input_field(field: &InputField, cols: u16, rows: u16, out: &mut String) -> (budget:
    usize)
    requires
        field_wf(*field),
    ensures
        budget as int == spec_field_budget(*field, cols),
        final(out)@ == old(out)@ + spec_render_field(*field, cols, rows),
        spec_field_length(*field, cols) < 1 ==> final(out)@ == old(out)@ && budget == 0,
{
    let ghost out0 = out@;
    let posx: i16 = calc_pos(&field.left, cols);
    let maxx: i16 = calc_pos(&field.right, cols);
    let posy: i16 = calc_pos(&field.anchor, rows);
    let lw: usize = visible_length(field.frame.rows[0].left.as_str());
    let rw: usize = visible_length(field.frame.rows[0].right.as_str());
    let length: i64 = maxx as i64 - posx as i64 - rw as i64 - lw as i64;
    assert(length as int == spec_field_length(*field, cols));
    if length < 1 {
        proof {
            assert(out@ =~= out0 + spec_render_field(*field, cols, rows));
        }
        return 0;
    }
    clear_attr(out);
    let ghost after_reset = out@;
    let n = field.frame.rows.len();
    let mut i: usize = 0;
    while i < n
        invariant
            field_wf(*field),
            n == field.frame.rows.len(),
            i <= n,
            posx as int == spec_calc_pos(field.left, cols),
            maxx as int == spec_calc_pos(field.right, cols),
            posy as int == spec_calc_pos(field.anchor, rows),
            lw == visible_len_of(field.frame.rows@[0].left@),
            rw == visible_len_of(field.frame.rows@[0].right@),
            length == maxx as i64 - posx as i64 - rw as i64 - lw as i64,
            1 <= length,
            after_reset + spec_frame_rows(*field, cols, rows, 0) == out@ + spec_frame_rows(
                *field,
                cols,
                rows,
                i as int,
            ),
        decreases n - i,
    {
        let ghost pre = out@;
        let row = &field.frame.rows[i];
        let y_wide: i64 = posy as i64 + i as i64 - field.frame.anchor_row as i64;
        let y: i16 = clamp_to_i16(y_wide);
        let px2_wide: i64 = posx as i64 + lw as i64;
        assert(i16::MIN as i64 <= px2_wide <= i16::MAX as i64);
        let px2: i16 = px2_wide as i16;
        let rx_wide: i64 = maxx as i64 - rw as i64;
        assert(i16::MIN as i64 <= rx_wide <= i16::MAX as i64);
        let rx: i16 = rx_wide as i16;
        let lb = singleton_block(&row.left);
        draw_at(&lb, posx, y, cols as i32, rows as i32, out);
        let fill = repeat_char(row.fill, length as usize);
        let fb = singleton_block(&fill);
        proof {
            assert(fb.deep_view() =~= seq![fill_seq(
                field.frame.rows@[i as int].fill,
                length as int,
            )]);
        }
        draw_at(&fb, px2, y, cols as i32, rows as i32, out);
        let rb = singleton_block(&row.right);
        draw_at(&rb, rx, y, cols as i32, rows as i32, out);
        proof {
            assert(pre + spec_frame_rows(*field, cols, rows, i as int) =~= out@
                + spec_frame_rows(*field, cols, rows, i as int + 1));
        }
        i = i + 1;
    }
    proof {
        assert(spec_frame_rows(*field, cols, rows, n as int) =~= Seq::<char>::empty());
    }
    move_to(out, posx as i64 + lw as i64 + 1, posy as i64 + 1);
    out.append(field.marker.as_str());
    proof {
        assert(out@ =~= out0 + spec_render_field(*field, cols, rows));
    }
    length as usize
}

/// What rendering one layer emits: nothing when the layer's resolved
/// position (its placement minus its origin offset, saturated to the
/// `i16` range) starts at or past the right or bottom edge; otherwise an
/// attribute reset and the composited block.
pub open spec fn spec_render_layer(l: Layer, cols: u16, rows_e: u16) -> Seq<char> {
    let posx = clamp_i16(spec_calc_pos(l.position.0, cols) - l.origin.0 as int);
    let posy = clamp_i16(spec_calc_pos(l.position.1, rows_e) - l.origin.1 as int);
    if cols as int - posx <= 0 || rows_e as int - posy <= 0 {
        Seq::empty()
    } else {
        spec_clear_attr() + spec_draw_at(l.ascii.deep_view(), posx, posy, cols as int,
            rows_e as int)
    }
}

/// Resolves one layer's position and composites its artwork onto the grid,
/// appending the draw operations to `out`.
pub fn render_layer(layer: &Layer, cols: u16, rows: u16, out: &mut String)
    ensures
        final(out)@ == old(out)@ + spec_render_layer(*layer, cols, rows),
{
    let ghost out0 = out@;
    let posx: i16 = clamp_to_i16(calc_pos(&layer.position.0, cols) as i64 - layer.origin.0 as i64);
    let posy: i16 = clamp_to_i16(calc_pos(&layer.position.1, rows) as i64 - layer.origin.1 as i64);
    let maxx: i64 = cols as i64 - posx as i64;
    let maxy: i64 = rows as i64 - posy as i64;
    if maxx <= 0 || maxy <= 0 {
        proof {
            assert(out@ =~= out0 + spec_render_layer(*layer, cols, rows));
        }
        return ;
    }
    clear_attr(out);
    draw_at(&layer.ascii, posx, posy, cols as i32, rows as i32, out);
    proof {
        assert(out@ =~= out0 + spec_render_layer(*layer, cols, rows));
    }
}

/// The draw operations of the layers from index `i` on, in order.
pub open spec fn spec_render_layers(ls: Seq<Layer>, i: int, cols: u16, rows_e: u16) -> Seq<char>
    decreases ls.len() - i,
{
    if i < 0 || i >= ls.len() {
        Seq::empty()
    } else {
        spec_render_layer(ls[i], cols, rows_e) + spec_render_layers(ls, i + 1, cols, rows_e)
    }
}

/// What a full render pass emits: a full-screen clear, every layer in
/// order, then the input field.
pub open spec fn spec_render_splash(ls: Seq<Layer>, f: InputField, cols: u16, rows_e: u16) -> Seq<
    char,
> {
    spec_clear_console() + spec_render_layers(ls, 0, cols, rows_e) + spec_render_field(
        f,
        cols,
        rows_e,
    )
}

/// One full render pass against an observed terminal size: clears the
/// screen, paints every layer, lays out the input field, and returns the
/// visible-masking budget for the password capture that follows.
pub fn render_splash(layers: &Vec<Layer>, field: &InputField, cols: u16, rows: u16, out: &mut String)
    -> (budget: usize)
    requires
        field_wf(*field),
    ensures
        budget as int == spec_field_budget(*field, cols),
        final(out)@ == old(out)@ + spec_render_splash(layers@, *field, cols, rows),
{
    let ghost out0 = out@;
    clear_console(out);
    let ghost after_clear = out@;
    let n = layers.len();
    let mut i: usize = 0;
    while i < n
        invariant
            n == layers@.len(),
            i <= n,
            after_clear + spec_render_layers(layers@, 0, cols, rows) == out@ + spec_render_layers(
                layers@,
                i as int,
                cols,
                rows,
            ),
        decreases n - i,
    {
        let ghost pre = out@;
        render_layer(&layers[i], cols, rows, out);
        proof {
            assert(pre + spec_render_layers(layers@, i as int, cols, rows) =~= out@
                + spec_render_layers(layers@, i as int + 1, cols, rows));
        }
        i = i + 1;
    }
    proof {
        assert(spec_render_layers(layers@, n as int, cols, rows) =~= Seq::<char>::empty());
    }
    let budget = render_input_field(field, cols, rows, out);
    proof {
        assert(out@ =~= out0 + spec_render_splash(layers@, *field, cols, rows));
    }
    budget
}

} // verus!
