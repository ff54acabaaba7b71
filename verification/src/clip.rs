//! ANSI-safe measurement and clipping of one line of text.
//!
//! An escape run starts at the ESC control character and extends up to and
//! including the next `'m'` (to the end of the line if no `'m'` follows).
//! Runs are atomic: they never count toward visible width and are copied
//! verbatim while clipping, so a color transition is never cut in half.
//! Every other character is one visible column, including the NUL skip
//! sentinel, which clipping emits as a cursor-forward-one sequence instead
//! of a glyph.

use vstd::prelude::*;
use vstd::string::StrSliceExecFns;
use vstd::string::StringExecFns;
use crate::emit::push_char;

verus! {

/// The cursor-forward-one sequence that replaces the NUL skip sentinel.
pub open spec fn cursor_forward_one() -> Seq<char> {
    seq!['\u{1b}', '[', '1', 'C']
}

/// The number of visible characters of `s` from index `i` on, starting
/// inside an escape run when `in_run` is set. Characters inside a run do
/// not count; every other character counts as one.
pub open spec fn vis_from(s: Seq<char>, i: int, in_run: bool) -> nat
    decreases s.len() - i,
{
    if i < 0 || i >= s.len() {
        0
    } else if in_run {
        vis_from(s, i + 1, s[i] != 'm')
    } else if s[i] == '\u{1b}' {
        vis_from(s, i + 1, true)
    } else {
        1 + vis_from(s, i + 1, false)
    }
}

/// The visible length of a whole line.
pub open spec fn visible_len_of(s: Seq<char>) -> nat {
    vis_from(s, 0, false)
}

/// What clipping emits for `s` from index `i` on, with `count` visible
/// characters already consumed. Runs are copied verbatim; a visible
/// character is consumed silently below `start`, emitted while `count`
/// stays below `max` (NUL as cursor-forward-one), and ends the walk —
/// dropping everything after it — once `count` has reached `max`.
pub open spec fn clip_from(
    s: Seq<char>,
    i: int,
    in_run: bool,
    max: int,
    start: int,
    count: int,
) -> Seq<char>
    decreases s.len() - i,
{
    if i < 0 || i >= s.len() {
        Seq::empty()
    } else if in_run {
        seq![s[i]] + clip_from(s, i + 1, s[i] != 'm', max, start, count)
    } else if s[i] == '\u{1b}' {
        seq![s[i]] + clip_from(s, i + 1, true, max, start, count)
    } else if count < max {
        (if count >= start {
            if s[i] == '\u{0}' {
                cursor_forward_one()
            } else {
                seq![s[i]]
            }
        } else {
            Seq::empty()
        }) + clip_from(s, i + 1, false, max, start, count + 1)
    } else {
        Seq::empty()
    }
}

/// What clipping a whole line to a budget of `max` visible columns emits,
/// silently consuming the first `start` visible columns.
pub open spec fn spec_clip(s: Seq<char>, max: int, start: int) -> Seq<char> {
    clip_from(s, 0, false, max, start, 0)
}

/// Whether `s`, from index `i` on, holds a NUL sentinel outside every
/// escape run.
pub open spec fn has_nul_from(s: Seq<char>, i: int, in_run: bool) -> bool
    decreases s.len() - i,
{
    if i < 0 || i >= s.len() {
        false
    } else if in_run {
        has_nul_from(s, i + 1, s[i] != 'm')
    } else if s[i] == '\u{1b}' {
        has_nul_from(s, i + 1, true)
    } else if s[i] == '\u{0}' {
        true
    } else {
        has_nul_from(s, i + 1, false)
    }
}

/// Whether a line holds a NUL sentinel outside every escape run.
pub open spec fn has_visible_nul(s: Seq<char>) -> bool {
    has_nul_from(s, 0, false)
}

/// Measures the visible length of a line: the count of its characters
/// that stand outside every escape run.
pub fn visible_length(s: &str) -> (r: usize)
    ensures
        r == visible_len_of(s@),
{
    let n = s.unicode_len();
    let mut count: usize = 0;
    let mut in_run: bool = false;
    let mut i: usize = 0;
    while i < n
        invariant
            n == s@.len(),
            i <= n,
            count <= i,
            count + vis_from(s@, i as int, in_run) == visible_len_of(s@),
        decreases n - i,
    {
        let c = s.get_char(i);
        if in_run {
            if c == 'm' {
                in_run = false;
            }
        } else if c == '\u{1b}' {
            in_run = true;
        } else {
            count = count + 1;
        }
        i = i + 1;
    }
    count
}

/// Clips one line to a budget of `max_len` visible columns, consuming but
/// not emitting the first `start_index` visible columns. Escape runs are
/// copied verbatim; an emitted NUL sentinel becomes a cursor-forward-one
/// sequence; the first visible character beyond the budget ends the walk
/// and drops the rest of the line.
pub fn truncate_visible(s: &str, max_len: u32, start_index: u32) -> (result: String)
    ensures
        result@ == spec_clip(s@, max_len as int, start_index as int),
{
    let ghost smax = max_len as int;
    let ghost sstart = start_index as int;
    let n = s.unicode_len();
    let mut result = String::new();
    let mut visible_count: u32 = 0;
    let mut in_run: bool = false;
    let mut i: usize = 0;
    while i < n
        invariant
            n == s@.len(),
            i <= n,
            smax == max_len as int,
            sstart == start_index as int,
            result@ + clip_from(s@, i as int, in_run, smax, sstart, visible_count as int)
                == spec_clip(s@, smax, sstart),
        decreases n - i,
    {
        let ghost pre = result@;
        let ghost rest = clip_from(s@, i as int, in_run, smax, sstart, visible_count as int);
        let c = s.get_char(i);
        if in_run {
            push_char(&mut result, c);
            proof {
                assert(result@ + clip_from(s@, i + 1, c != 'm', smax, sstart, visible_count as int)
                    =~= pre + rest);
            }
            if c == 'm' {
                in_run = false;
            }
        } else if c == '\u{1b}' {
            push_char(&mut result, c);
            in_run = true;
            proof {
                assert(result@ + clip_from(s@, i + 1, true, smax, sstart, visible_count as int)
                    =~= pre + rest);
            }
        } else if visible_count < max_len {
            if visible_count >= start_index {
                if c == '\u{0}' {
                    proof {
                        reveal_strlit("\u{1b}[1C");
                        assert(("\u{1b}[1C")@ =~= cursor_forward_one());
                    }
                    result.append("\u{1b}[1C");
                } else {
                    push_char(&mut result, c);
                }
            }
            proof {
                assert(result@ + clip_from(
                    s@,
                    i + 1,
                    false,
                    smax,
                    sstart,
                    visible_count as int + 1,
                ) =~= pre + rest);
            }
            visible_count = visible_count + 1;
        } else {
            proof {
                assert(rest =~= Seq::<char>::empty());
                assert(pre + rest =~= pre);
            }
            return result;
        }
        i = i + 1;
    }
    proof {
        assert(clip_from(s@, n as int, in_run, smax, sstart, visible_count as int)
            =~= Seq::<char>::empty());
        assert(result@ + Seq::<char>::empty() =~= result@);
    }
    result
}

/// Measuring from two positions with the same suffix, in the same state,
/// gives the same count.
proof fn lemma_vis_suffix(w1: Seq<char>, k1: int, w2: Seq<char>, k2: int, b: bool)
    requires
        0 <= k1 <= w1.len(),
        0 <= k2 <= w2.len(),
        w1.skip(k1) == w2.skip(k2),
    ensures
        vis_from(w1, k1, b) == vis_from(w2, k2, b),
    decreases w1.len() - k1,
{
    assert(w1.skip(k1).len() == w1.len() - k1);
    assert(w2.skip(k2).len() == w2.len() - k2);
    if k1 == w1.len() {
    } else {
        assert(w1[k1] == w1.skip(k1)[0]);
        assert(w2[k2] == w2.skip(k2)[0]);
        assert(w1.skip(k1 + 1) =~= w2.skip(k2 + 1)) by {
            assert(forall|j: int|
                0 <= j < w1.len() - k1 - 1 ==> #[trigger] w1.skip(k1 + 1)[j] == w1.skip(k1)[j + 1]
                    && w2.skip(k2 + 1)[j] == w2.skip(k2)[j + 1]);
        }
        if b {
            lemma_vis_suffix(w1, k1 + 1, w2, k2 + 1, w1[k1] != 'm');
        } else if w1[k1] == '\u{1b}' {
            lemma_vis_suffix(w1, k1 + 1, w2, k2 + 1, true);
        } else {
            lemma_vis_suffix(w1, k1 + 1, w2, k2 + 1, false);
        }
    }
}

/// Starting a measurement inside a run never counts more than starting it
/// outside one.
proof fn lemma_vis_run_le(w: Seq<char>, j: int)
    requires
        0 <= j <= w.len(),
    ensures
        vis_from(w, j, true) <= vis_from(w, j, false),
    decreases w.len() - j,
{
    if j < w.len() {
        lemma_vis_run_le(w, j + 1);
    }
}

/// One step of the budget argument: what clipping emits from any state
/// carries at most `max - count` further visible characters.
proof fn lemma_clip_vis_bound(
    s: Seq<char>,
    i: int,
    in_run: bool,
    max: int,
    start: int,
    count: int,
)
    requires
        0 <= i <= s.len(),
    ensures
        vis_from(clip_from(s, i, in_run, max, start, count), 0, in_run) <= if count <= max {
            max - count
        } else {
            0
        },
    decreases s.len() - i,
{
    if i == s.len() {
    } else if in_run {
        let b2 = s[i] != 'm';
        let rest = clip_from(s, i + 1, b2, max, start, count);
        let out = seq![s[i]] + rest;
        lemma_clip_vis_bound(s, i + 1, b2, max, start, count);
        assert(out.len() == 1 + rest.len());
        assert(out.skip(1) =~= rest);
        assert(rest.skip(0) =~= rest);
        lemma_vis_suffix(out, 1, rest, 0, b2);
    } else if s[i] == '\u{1b}' {
        let rest = clip_from(s, i + 1, true, max, start, count);
        let out = seq![s[i]] + rest;
        lemma_clip_vis_bound(s, i + 1, true, max, start, count);
        assert(out.len() == 1 + rest.len());
        assert(out.skip(1) =~= rest);
        assert(rest.skip(0) =~= rest);
        lemma_vis_suffix(out, 1, rest, 0, true);
    } else if count < max {
        let rest = clip_from(s, i + 1, false, max, start, count + 1);
        lemma_clip_vis_bound(s, i + 1, false, max, start, count + 1);
        if count >= start {
            if s[i] == '\u{0}' {
                let out = cursor_forward_one() + rest;
                assert(cursor_forward_one().len() == 4);
                assert(out.len() == 4 + rest.len());
                assert(out[0] == '\u{1b}' && out[1] == '[' && out[2] == '1' && out[3] == 'C');
                assert(vis_from(out, 0, false) == vis_from(out, 1, true));
                assert(vis_from(out, 1, true) == vis_from(out, 2, true));
                assert(vis_from(out, 2, true) == vis_from(out, 3, true));
                assert(vis_from(out, 3, true) == vis_from(out, 4, true));
                assert(out.skip(4) =~= rest);
                assert(rest.skip(0) =~= rest);
                lemma_vis_suffix(out, 4, rest, 0, true);
                lemma_vis_run_le(rest, 0);
            } else {
                let out = seq![s[i]] + rest;
                assert(out.len() == 1 + rest.len());
                assert(out[0] == s[i]);
                assert(out.skip(1) =~= rest);
                assert(rest.skip(0) =~= rest);
                lemma_vis_suffix(out, 1, rest, 0, false);
            }
        } else {
            assert(Seq::<char>::empty() + rest =~= rest);
        }
    }
}

/// The visible length of a clipped line never exceeds the budget.
pub proof fn lemma_clip_visible_budget(s: Seq<char>, max: int, start: int)
    ensures
        visible_len_of(spec_clip(s, max, start)) <= if max >= 0 {
            max
        } else {
            0
        },
{
    lemma_clip_vis_bound(s, 0, false, max, start, 0);
}

/// One step of the round-trip argument: with no skipped prefix, no NUL
/// sentinel ahead, and enough budget for every visible character ahead,
/// clipping emits the suffix unchanged.
proof fn lemma_clip_identity_from(s: Seq<char>, i: int, in_run: bool, max: int, count: int)
    requires
        0 <= i <= s.len(),
        0 <= count,
        !has_nul_from(s, i, in_run),
        count + vis_from(s, i, in_run) <= max,
    ensures
        clip_from(s, i, in_run, max, 0, count) == s.skip(i),
    decreases s.len() - i,
{
    if i == s.len() {
        assert(clip_from(s, i, in_run, max, 0, count) =~= s.skip(i));
    } else {
        assert(s.skip(i) =~= seq![s[i]] + s.skip(i + 1));
        if in_run {
            lemma_clip_identity_from(s, i + 1, s[i] != 'm', max, count);
        } else if s[i] == '\u{1b}' {
            lemma_clip_identity_from(s, i + 1, true, max, count);
        } else {
            assert(count < max);
            lemma_clip_identity_from(s, i + 1, false, max, count + 1);
        }
        assert(clip_from(s, i, in_run, max, 0, count) =~= s.skip(i));
    }
}

/// Round trip: a line without a visible NUL sentinel, clipped with no
/// skipped prefix to any budget at least its visible length, comes back
/// unchanged, escape runs verbatim.
pub proof fn lemma_clip_full_budget_identity(s: Seq<char>, max: int)
    requires
        !has_visible_nul(s),
        visible_len_of(s) <= max,
    ensures
        spec_clip(s, max, 0) == s,
{
    lemma_clip_identity_from(s, 0, false, max, 0);
    assert(s.skip(0) =~= s);
}

} // verus!
