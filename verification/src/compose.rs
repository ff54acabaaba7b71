//! The block compositor: paints a multi-line text block onto a terminal
//! grid of known size, clipping against all four edges.

use vstd::prelude::*;
use vstd::string::StringExecFns;
use crate::clip::{spec_clip, truncate_visible};
use crate::emit::{move_to, spec_move_to};

verus! {

/// The draw operations for rows `i` up to `end` of a block: each row is a
/// cursor move to column `x` and the current screen row, then the row
/// clipped to `maxx` visible columns after silently consuming `startx` of
/// them. The screen row advances by one per source row.
pub open spec fn draw_rows(
    block: Seq<Seq<char>>,
    i: int,
    end: int,
    x: int,
    y: int,
    maxx: int,
    startx: int,
) -> Seq<char>
    decreases end - i,
{
    if i < 0 || i >= end {
        Seq::empty()
    } else {
        spec_move_to(x, y) + spec_clip(block[i], maxx, startx) + draw_rows(
            block,
            i + 1,
            end,
            x,
            y + 1,
            maxx,
            startx,
        )
    }
}

/// What compositing a block at signed position `(pos_x, pos_y)` onto a
/// `width` by `height` grid emits. Off-grid blocks (no column or no row of
/// the grid reaches past the position) emit nothing; a negative position
/// clips the block's top rows and left columns; the budget `width - pos_x`
/// and the row bound `min(block.len(), height)` clip right and bottom.
/// Cursor positions on the wire are 1-based.
pub open spec fn spec_draw_at(
    block: Seq<Seq<char>>,
    pos_x: int,
    pos_y: int,
    width: int,
    height: int,
) -> Seq<char> {
    let maxx = width - pos_x;
    let maxy = height - pos_y;
    if maxx <= 0 || maxy <= 0 {
        Seq::empty()
    } else {
        let first = if pos_y < 0 {
            -pos_y
        } else {
            0
        };
        let end = if block.len() <= height {
            block.len() as int
        } else {
            height
        };
        let x = (if pos_x < 0 {
            0
        } else {
            pos_x
        }) + 1;
        let y = (if pos_y < 0 {
            0
        } else {
            pos_y
        }) + 1;
        let startx = if pos_x < 0 {
            -pos_x
        } else {
            0
        };
        draw_rows(block, first, end, x, y, maxx, startx)
    }
}

/// Composites `block` at `(pos_x, pos_y)` onto a `width` by `height` grid,
/// appending the draw operations to `out`. A block that starts at or past
/// the right or bottom edge emits nothing at all.
pub fn draw_at(block: &Vec<String>, pos_x: i16, pos_y: i16, width: i32, height: i32, out: &mut String)
    ensures
        final(out)@ == old(out)@ + spec_draw_at(
            block.deep_view(),
            pos_x as int,
            pos_y as int,
            width as int,
            height as int,
        ),
        pos_x as int >= width || pos_y as int >= height ==> final(out)@ == old(out)@,
{
    let ghost bv = block.deep_view();
    let ghost out0 = out@;
    let maxx: i64 = width as i64 - pos_x as i64;
    let maxy: i64 = height as i64 - pos_y as i64;
    if maxx <= 0 || maxy <= 0 {
        proof {
            assert(out@ =~= out0 + spec_draw_at(bv, pos_x as int, pos_y as int, width as int,
                height as int));
        }
        return ;
    }
    let first: usize = if pos_y < 0 {
        (-(pos_y as i32)) as usize
    } else {
        0
    };
    let end: usize = if height <= 0 {
        0
    } else if block.len() <= height as usize {
        block.len()
    } else {
        height as usize
    };
    let ghost end_s = if bv.len() <= height as int {
        bv.len() as int
    } else {
        height as int
    };
    let x: i64 = (if pos_x < 0 {
        0
    } else {
        pos_x as i64
    }) + 1;
    let y0: i64 = (if pos_y < 0 {
        0
    } else {
        pos_y as i64
    }) + 1;
    let startx: u32 = if pos_x < 0 {
        (-(pos_x as i32)) as u32
    } else {
        0
    };
    proof {
        assert(bv.len() == block@.len());
        if height <= 0 {
            assert(end_s <= 0 <= first as int);
            assert(draw_rows(bv, first as int, end_s, x as int, y0 as int, maxx as int,
                startx as int) =~= Seq::<char>::empty());
        } else {
            assert(end as int == end_s);
        }
    }
    let mut i: usize = first;
    while i < end
        invariant
            bv == block.deep_view(),
            bv.len() == block@.len(),
            first <= i,
            i <= end || i == first,
            end as int <= 0x7fff_ffff,
            height > 0 ==> end as int == end_s,
            height <= 0 ==> end_s <= 0 && end == 0,
            maxx == width as i64 - pos_x as i64,
            0 < maxx < 0x1_0000_0000u64,
            x == (if pos_x < 0 { 0i64 } else { pos_x as i64 }) + 1,
            y0 == (if pos_y < 0 { 0i64 } else { pos_y as i64 }) + 1,
            startx as int == if pos_x < 0 { -(pos_x as int) } else { 0 },
            end <= block@.len(),
            out0 + draw_rows(bv, first as int, end_s, x as int, y0 as int, maxx as int,
                startx as int) == out@ + draw_rows(bv, i as int, end_s, x as int,
                y0 as int + i as int - first as int, maxx as int, startx as int),
        decreases end - i,
    {
        let ghost pre = out@;
        let ghost yi = y0 as int + i as int - first as int;
        let step: i64 = (i - first) as i64;
        assert(step == i as int - first as int);
        move_to(out, x, y0 + step);
        let clipped = truncate_visible(block[i].as_str(), maxx as u32, startx);
        out.append(clipped.as_str());
        proof {
            assert(bv[i as int] == block@[i as int]@);
            assert(clipped@ == spec_clip(bv[i as int], maxx as int, startx as int));
            assert(draw_rows(bv, i as int, end_s, x as int, yi, maxx as int, startx as int)
                == spec_move_to(x as int, yi) + spec_clip(bv[i as int], maxx as int,
                startx as int) + draw_rows(bv, i as int + 1, end_s, x as int, yi + 1,
                maxx as int, startx as int));
            assert(pre + draw_rows(bv, i as int, end_s, x as int, yi, maxx as int,
                startx as int) =~= out@ + draw_rows(bv, i as int + 1, end_s, x as int, yi + 1,
                maxx as int, startx as int));
        }
        i = i + 1;
    }
    proof {
        if first < end {
            assert(draw_rows(bv, end_s, end_s, x as int, y0 as int + end as int - first as int,
                maxx as int, startx as int) =~= Seq::<char>::empty());
        } else {
            assert(draw_rows(bv, i as int, end_s, x as int, y0 as int + i as int - first as int,
                maxx as int, startx as int) =~= Seq::<char>::empty());
        }
        assert(out@ =~= out0 + spec_draw_at(bv, pos_x as int, pos_y as int, width as int,
            height as int));
    }
}

} // verus!
