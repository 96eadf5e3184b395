//! SVG components and cells: extracting a component's body, filling its colour
//! tokens, and the colour and rotation that a cell picks.

use vstd::prelude::*;
use rand::rngs::ThreadRng;
use crate::color::{normalize_color, normalized};
use crate::error::{Error, ErrorView};
use crate::method::Method;
use crate::random::{
    gen_range_i32, gen_range_u32, gen_range_u32_inclusive, gen_ratio, new_rng, pick_one, shuffle,
};
use crate::text::{
    append_chars, find, find_char, find_char_exec, find_exec, lacks, occurs_at, rfind, rfind_exec,
    slice_chars, str_chars, string_from_chars, strings_view, trim, trim_chars,
};

verus! {

// ---------------------------------------------------------------------------
// Component bodies
// ---------------------------------------------------------------------------

/// The body of an SVG component: what lies between the end of the first `<svg` tag
/// (its first `>`) and the last `</svg>`, trimmed.
pub open spec fn svg_inner(svg: Seq<char>) -> Result<Seq<char>, ErrorView> {
    match find(svg, "<svg"@) {
        None => Err(ErrorView::MissingSvgElement),
        Some(open) => match find_char(svg.skip(open), '>') {
            None => Err(ErrorView::MalformedSvgTag),
            Some(rel) => {
                let body_start = rel + open + 1;
                match rfind(svg, "</svg>"@) {
                    None => Err(ErrorView::MissingSvgClose),
                    Some(body_end) => if body_end <= body_start {
                        Err(ErrorView::EmptySvgBody)
                    } else {
                        Ok(trim(svg.subrange(body_start, body_end)))
                    },
                }
            },
        },
    }
}

/// The body of an SVG component, without its `<svg>` element around it.
pub fn extract_svg_inner(svg: &str) -> (r: Result<String, Error>)
    ensures
        match r {
            Ok(s) => svg_inner(svg@) == Ok::<Seq<char>, ErrorView>(s@),
            Err(e) => svg_inner(svg@) == Err::<Seq<char>, ErrorView>(e@),
        },
{
    let cs = str_chars(svg);
    let n = cs.len();
    let open_tag = str_chars("<svg");
    let close_tag = str_chars("</svg>");
    let open = match find_exec(cs.as_slice(), open_tag.as_slice()) {
        None => {
            return Err(Error::MissingSvgElement);
        },
        Some(o) => o,
    };
    proof {
        crate::text::lemma_find_from_some(cs@, open_tag@, 0);
    }
    let after = slice_chars(cs.as_slice(), open, n);
    assert(after@ =~= svg@.skip(open as int));
    let rel = match find_char_exec(after.as_slice(), '>') {
        None => {
            return Err(Error::MalformedSvgTag);
        },
        Some(k) => k,
    };
    proof {
        crate::text::lemma_find_char(after@, '>');
    }
    let body_start = rel + open + 1;
    let body_end = match rfind_exec(cs.as_slice(), close_tag.as_slice()) {
        None => {
            return Err(Error::MissingSvgClose);
        },
        Some(e) => e,
    };
    proof {
        crate::text::lemma_rfind_from_some(cs@, close_tag@, cs@.len() - close_tag@.len());
    }
    if body_end <= body_start {
        return Err(Error::EmptySvgBody);
    }
    let body = slice_chars(cs.as_slice(), body_start, body_end);
    let t = trim_chars(body.as_slice());
    Ok(string_from_chars(t.as_slice()))
}

/// A component written as `<svg` + `attrs` + `>` + `inner` + `</svg>` + `tail` gives
/// `inner` trimmed, when `attrs` holds no `>`, `inner` is not empty and `tail` holds
/// no `<`.
pub proof fn law_component_body(attrs: Seq<char>, inner: Seq<char>, tail: Seq<char>)
    requires
        lacks(attrs, '>'),
        inner.len() > 0,
        lacks(tail, '<'),
    ensures
        svg_inner("<svg"@ + attrs + ">"@ + inner + "</svg>"@ + tail) == Ok::<
            Seq<char>,
            ErrorView,
        >(trim(inner)),
{
    reveal_strlit("<svg");
    reveal_strlit(">");
    reveal_strlit("</svg>");
    let s = "<svg"@ + attrs + ">"@ + inner + "</svg>"@ + tail;
    let close_part = "</svg>"@ + tail;
    let body_part = seq!['>'] + (inner + close_part);
    let r = "<svg"@ + (attrs + body_part);
    assert(s =~= r);
    lemma_component_open(attrs, body_part);
    lemma_component_gt(attrs, inner + close_part);
    let front = seq!['<', 's', 'v', 'g'] + attrs + seq!['>'] + inner;
    lemma_component_close(front, tail);
    assert(s =~= front + close_part);
    let k: int = 4 + attrs.len() as int;
    let e: int = k + 1 + inner.len() as int;
    assert(front.len() == e);
    assert(find(s, "<svg"@) == Some(0int));
    assert(s.skip(0) =~= s);
    assert(find_char(s.skip(0), '>') == Some(k));
    assert(rfind(s, "</svg>"@) == Some(e));
    assert(s.subrange(k + 1, e) =~= inner);
}

proof fn lemma_component_open(attrs: Seq<char>, more: Seq<char>)
    ensures
        find("<svg"@ + (attrs + more), "<svg"@) == Some(0int),
{
    reveal_strlit("<svg");
    let s = "<svg"@ + (attrs + more);
    assert(s.subrange(0, 4) =~= "<svg"@);
    crate::text::lemma_find_from_at(s, "<svg"@, 0, 0);
}

proof fn lemma_component_gt(attrs: Seq<char>, more: Seq<char>)
    requires
        lacks(attrs, '>'),
    ensures
        find_char("<svg"@ + (attrs + (seq!['>'] + more)), '>') == Some(4 + attrs.len() as int),
{
    reveal_strlit("<svg");
    let s = "<svg"@ + (attrs + (seq!['>'] + more));
    let k: int = 4 + attrs.len() as int;
    assert(s[k] == '>');
    assert forall|j: int| 0 <= j < k implies s[j] != '>' by {
        if j >= 4 {
            assert(s[j] == attrs[j - 4]);
        }
    }
    crate::text::lemma_find_char_at(s, '>', k);
}

proof fn lemma_component_close(front: Seq<char>, tail: Seq<char>)
    requires
        lacks(tail, '<'),
    ensures
        rfind(front + ("</svg>"@ + tail), "</svg>"@) == Some(front.len() as int),
{
    reveal_strlit("</svg>");
    let close = "</svg>"@;
    let s = front + (close + tail);
    let e: int = front.len() as int;
    assert(s.subrange(e, e + 6) =~= close);
    let last: int = s.len() - close.len();
    assert forall|j: int| e < j <= last implies !occurs_at(s, close, j) by {
        if occurs_at(s, close, j) {
            assert(s.subrange(j, j + 6)[0] == '<');
            assert(s[j] == '<');
            if j < e + 6 {
                assert(s[j] == close[j - e]);
            } else {
                assert(s[j] == tail[j - e - 6]);
            }
        }
    }
    lemma_rfind_from_at(s, close, last, e);
}

/// Searching backwards from `i` finds `k` when the pattern occurs at `k` and nowhere in `(k, i]`.
proof fn lemma_rfind_from_at(s: Seq<char>, pat: Seq<char>, i: int, k: int)
    requires
        0 <= k <= i,
        occurs_at(s, pat, k),
        forall|j: int| k < j <= i ==> !occurs_at(s, pat, j),
    ensures
        crate::text::rfind_from(s, pat, i) == Some(k),
    decreases i - k,
{
    if i > k {
        lemma_rfind_from_at(s, pat, i - 1, k);
    }
}

// ---------------------------------------------------------------------------
// Cell colours
// ---------------------------------------------------------------------------

/// `v` modulo `n`, as `i64::rem_euclid` gives it for positive `n`.
fn wrap_index(v: i128, n: usize) -> (r: usize)
    requires
        n > 0,
        -0x1_0000_0000_0000_0000 < v < 0x1_0000_0000_0000_0000,
    ensures
        r as int == (v as int) % (n as int),
        r < n,
{
    if v >= 0 {
        let a = (v as u128) % (n as u128);
        a as usize
    } else {
        let u = (-v) as u128;
        let a = u % (n as u128);
        proof {
            vstd::arithmetic::div_mod::lemma_fundamental_div_mod(u as int, n as int);
            let q = (u as int) / (n as int);
            let ni = n as int;
            let ai = a as int;
            assert(u as int == ni * q + ai);
            assert(v as int == -(u as int));
            assert((-q) * ni + 0 == -(ni * q)) by (nonlinear_arith);
            assert((-q - 1) * ni + (ni - ai) == -(ni * q + ai)) by (nonlinear_arith);
            if a == 0 {
                vstd::arithmetic::div_mod::lemma_fundamental_div_mod_converse_mod(
                    v as int,
                    n as int,
                    -q,
                    0,
                );
            } else {
                vstd::arithmetic::div_mod::lemma_fundamental_div_mod_converse_mod(
                    v as int,
                    n as int,
                    -q - 1,
                    n - a,
                );
            }
        }
        if a == 0 {
            0
        } else {
            (n as u128 - a) as usize
        }
    }
}

/// `c` is a colour that a cell may pick: for the grid method or a one-colour palette any
/// colour of the palette; otherwise the colour at `center` or a neighbour of it, the
/// palette wrapping around.
pub open spec fn color_allowed(
    palette: Seq<Seq<char>>,
    method: Method,
    center: i64,
    c: Seq<char>,
) -> bool {
    if palette.len() == 1 || method == Method::Grid {
        palette.contains(c)
    } else {
        exists|o: int|
            -1 <= o <= 1 && c == #[trigger] palette[(center + o) % (palette.len() as int)]
    }
}

/// The offset from the dominant colour that two draws select: none when the first
/// draw is `true`, else the previous colour when the second is `true`, else the next.
pub open spec fn draw_offset(first: bool, second: bool) -> int {
    if first {
        0
    } else if second {
        -1
    } else {
        1
    }
}

/// The colour that the draws `first` and `second` select around `center`: the colour
/// at `center` when `first` holds, else its previous neighbour when `second` holds,
/// else its next one, the palette wrapping around.
pub fn color_for_draws<'a>(palette: &'a [String], center: i64, first: bool, second: bool) -> (r:
    &'a String)
    requires
        palette@.len() > 0,
    ensures
        r@ == strings_view(palette@)[(center + draw_offset(first, second)) % (
        palette@.len() as int)],
{
    let offset: i128 = if first {
        0
    } else if second {
        -1
    } else {
        1
    };
    let idx = wrap_index(center as i128 + offset, palette.len());
    let c = &palette[idx];
    proof {
        assert(strings_view(palette@)[idx as int] == c@);
    }
    c
}

/// Picks a cell's colour. For the grid method or a one-colour palette, uniformly at
/// random; otherwise the colour at `center` about 65% of the time, else one of its two
/// neighbours (wrapping around the palette), each about half of the rest: two draws,
/// read by `color_for_draws`.
pub fn pick_color<'a>(palette: &'a [String], method: Method, center: i64, rng: &mut ThreadRng) -> (r:
    &'a String)
    requires
        palette@.len() > 0,
    ensures
        color_allowed(strings_view(palette@), method, center, r@),
{
    let n = palette.len();
    if n == 1 || method == Method::Grid {
        let c = match pick_one(palette, rng) {
            Some(c) => c,
            None => {
                proof {
                    assert(false);
                }
                &palette[0]
            },
        };
        proof {
            let k = choose|k: int| 0 <= k < palette@.len() && palette@[k] == *c;
            assert(strings_view(palette@)[k] == c@);
        }
        return c;
    }
    let first = gen_ratio(rng, 13, 20);
    let second = if first {
        false
    } else {
        gen_ratio(rng, 1, 2)
    };
    let c = color_for_draws(palette, center, first, second);
    proof {
        let sv = strings_view(palette@);
        let o = draw_offset(first, second);
        assert(-1 <= o <= 1);
        assert(c@ == sv[(center + o) % (sv.len() as int)]);
    }
    c
}

// ---------------------------------------------------------------------------
// Colour tokens
// ---------------------------------------------------------------------------

/// The placeholder that a component writes where a colour goes.
pub open spec fn color_token() -> Seq<char> {
    "{{C}}"@
}

/// The number of colour tokens in `t`, found left to right.
pub open spec fn token_count(t: Seq<char>) -> nat
    decreases t.len(),
{
    match find(t, color_token()) {
        None => 0,
        Some(i) => if 0 <= i && i + color_token().len() <= t.len() && color_token().len() > 0 {
            1 + token_count(t.skip(i + color_token().len()))
        } else {
            0
        },
    }
}

/// `t` with its colour tokens, left to right, replaced by `picks` in order.
pub open spec fn fill_tokens(t: Seq<char>, picks: Seq<Seq<char>>) -> Seq<char>
    decreases t.len(),
{
    match find(t, color_token()) {
        None => t,
        Some(i) => if 0 <= i && i + color_token().len() <= t.len() && color_token().len() > 0 {
            t.take(i) + picks[0] + fill_tokens(t.skip(i + color_token().len()), picks.drop_first())
        } else {
            t
        },
    }
}

proof fn lemma_token_shape()
    ensures
        color_token().len() == 5,
{
    reveal_strlit("{{C}}");
}

/// Fills the colour tokens of `rest`, picking each colour in turn.
fn fill_from(
    rest: &[char],
    token: &[char],
    palette: &[String],
    method: Method,
    center: i64,
    rng: &mut ThreadRng,
) -> (r: (Vec<char>, Ghost<Seq<Seq<char>>>))
    requires
        token@ == color_token(),
        palette@.len() > 0,
    ensures
        r.1@.len() == token_count(rest@),
        forall|k: int| 0 <= k < r.1@.len() ==> exists|c: Seq<char>|
            color_allowed(strings_view(palette@), method, center, c) && #[trigger] r.1@[k]
                == normalized(c),
        r.0@ == fill_tokens(rest@, r.1@),
    decreases rest@.len(),
{
    proof {
        lemma_token_shape();
    }
    match find_exec(rest, token) {
        None => (slice_chars(rest, 0, rest.len()), Ghost(Seq::<Seq<char>>::empty())),
        Some(idx) => {
            proof {
                crate::text::lemma_find_from_some(rest@, token@, 0);
            }
            let mut out = slice_chars(rest, 0, idx);
            let color = pick_color(palette, method, center, rng);
            let nc = normalize_color(color.as_str());
            let ncs = str_chars(nc.as_str());
            append_chars(&mut out, ncs.as_slice());
            let rn = rest.len();
            assert(idx + 5 <= rn);
            let tail = slice_chars(rest, idx + 5, rn);
            let (filled, Ghost(more)) = fill_from(tail.as_slice(), token, palette, method, center, rng);
            append_chars(&mut out, filled.as_slice());
            let ghost picks = seq![ncs@] + more;
            proof {
                assert(tail@ =~= rest@.skip(idx + 5));
                assert(picks.drop_first() =~= more);
                assert(out@ =~= fill_tokens(rest@, picks));
                assert forall|k: int| 0 <= k < picks.len() implies exists|c: Seq<char>|
                    color_allowed(strings_view(palette@), method, center, c) && #[trigger] picks[k]
                        == normalized(c) by {
                    if k == 0 {
                        assert(color_allowed(strings_view(palette@), method, center, color@));
                    } else {
                        assert(picks[k] == more[k - 1]);
                    }
                }
            }
            (out, Ghost(picks))
        },
    }
}

/// `template` with each colour token replaced, left to right, by a `#`-prefixed colour
/// that `pick_color` chose.
pub fn substitute_colors_phased(
    template: &str,
    palette: &[String],
    method: Method,
    center: i64,
    rng: &mut ThreadRng,
) -> (r: String)
    requires
        palette@.len() > 0,
    ensures
        exists|picks: Seq<Seq<char>>|
            {
                &&& picks.len() == token_count(template@)
                &&& forall|k: int| 0 <= k < picks.len() ==> exists|c: Seq<char>|
                    color_allowed(strings_view(palette@), method, center, c) && #[trigger] picks[k]
                        == normalized(c)
                &&& r@ == fill_tokens(template@, picks)
            },
{
    let t = str_chars(template);
    let token = str_chars("{{C}}");
    let (out, Ghost(picks)) = fill_from(t.as_slice(), token.as_slice(), palette, method, center, rng);
    string_from_chars(out.as_slice())
}

// ---------------------------------------------------------------------------
// Rotations and anchors
// ---------------------------------------------------------------------------

/// The rotation of a cell: for the grid method one of 0, 90, 180 and 270 degrees at
/// random; otherwise the quarter turn `quarter` (at most three).
pub fn pick_rotation(method: Method, quarter: usize, rng: &mut ThreadRng) -> (r: u32)
    ensures
        method == Method::Grid ==> r == 0 || r == 90 || r == 180 || r == 270,
        method != Method::Grid ==> r == 90 * (if quarter < 3 {
            quarter as int
        } else {
            3
        }),
{
    let rotations: Vec<u32> = vec![0, 90, 180, 270];
    if method == Method::Grid {
        match pick_one(rotations.as_slice(), rng) {
            Some(x) => *x,
            None => 0,
        }
    } else {
        let idx = if quarter < 3 {
            quarter
        } else {
            3
        };
        rotations[idx]
    }
}

/// The cell in `0..n` nearest to `v`, as `v.clamp(0, n - 1)` gives it.
pub fn clamp_anchor(v: i32, n: u32) -> (r: u32)
    requires
        1 <= n <= i32::MAX,
    ensures
        r == clamped(v, n),
{
    if v < 0 {
        0
    } else if v as u32 >= n {
        n - 1
    } else {
        v as u32
    }
}

// ---------------------------------------------------------------------------
// Supersized blocks and lines
// ---------------------------------------------------------------------------

/// How many supersized blocks a pattern gets: 10 to 24, at random.
pub fn supersize_count(rng: &mut ThreadRng) -> (r: u32)
    ensures
        10 <= r <= 24,
{
    gen_range_u32_inclusive(rng, 10, 24)
}

/// How many lines a pattern gets: 4 to 12, at random.
pub fn lines_count(rng: &mut ThreadRng) -> (r: u32)
    ensures
        4 <= r <= 12,
{
    gen_range_u32_inclusive(rng, 4, 12)
}

/// Where a supersized block goes: its scale (in cells), the cell its top-left corner
/// lies on (possibly off the canvas to the left or top), and the cell on the canvas
/// nearest to that corner, from which its colours and rotation are taken.
pub struct BlockPlacement {
    pub factor: u32,
    pub col: i32,
    pub row: i32,
    pub anchor_col: u32,
    pub anchor_row: u32,
}

/// The cell in `0..n` nearest to `v`.
pub open spec fn clamped(v: i32, n: u32) -> u32 {
    if v < 0 {
        0
    } else if v >= n {
        (n - 1) as u32
    } else {
        v as u32
    }
}

/// Places a supersized block at random and picks its component: a scale of 3, 4 or 6
/// cells, then a component, then a top-left cell whose block still overlaps the
/// canvas, in that order of draws.
pub fn place_supersize_block<'a>(
    components: &'a [String],
    columns: u32,
    rows: u32,
    rng: &mut ThreadRng,
) -> (r: (BlockPlacement, &'a String))
    requires
        components@.len() > 0,
        1 <= columns <= i32::MAX,
        1 <= rows <= i32::MAX,
    ensures
        r.0.factor == 3 || r.0.factor == 4 || r.0.factor == 6,
        1 - r.0.factor <= r.0.col < columns,
        1 - r.0.factor <= r.0.row < rows,
        r.0.anchor_col == clamped(r.0.col, columns),
        r.0.anchor_row == clamped(r.0.row, rows),
        components@.contains(*r.1),
{
    let scales: Vec<u32> = vec![3, 4, 6];
    let factor = match pick_one(scales.as_slice(), rng) {
        Some(f) => *f,
        None => 3,
    };
    let component = match pick_one(components, rng) {
        Some(c) => c,
        None => &components[0],
    };
    let lo: i32 = 1 - factor as i32;
    let col = gen_range_i32(rng, lo, columns as i32);
    let row = gen_range_i32(rng, lo, rows as i32);
    let anchor_col = clamp_anchor(col, columns);
    let anchor_row = clamp_anchor(row, rows);
    (BlockPlacement { factor, col, row, anchor_col, anchor_row }, component)
}

/// The direction of a line.
#[derive(PartialEq, Eq, Structural, Clone, Copy, Debug)]
pub enum LineOrientation {
    Horizontal,
    Vertical,
    Diagonal,
    AntiDiagonal,
}

/// The direction that the draw `k` stands for: 0 horizontal, 1 vertical, 2 diagonal,
/// anything else anti-diagonal.
pub open spec fn orientation_for(k: u32) -> LineOrientation {
    if k == 0 {
        LineOrientation::Horizontal
    } else if k == 1 {
        LineOrientation::Vertical
    } else if k == 2 {
        LineOrientation::Diagonal
    } else {
        LineOrientation::AntiDiagonal
    }
}

/// The direction that the draw `k` stands for.
pub fn orientation_from_draw(k: u32) -> (r: LineOrientation)
    ensures
        r == orientation_for(k),
{
    if k == 0 {
        LineOrientation::Horizontal
    } else if k == 1 {
        LineOrientation::Vertical
    } else if k == 2 {
        LineOrientation::Diagonal
    } else {
        LineOrientation::AntiDiagonal
    }
}

/// The direction of a line: one of the four, at random (a draw from `0..4`, read by
/// `orientation_from_draw`).
pub fn line_orientation(rng: &mut ThreadRng) -> (r: LineOrientation) {
    let k = gen_range_u32(rng, 0, 4);
    orientation_from_draw(k)
}

// ---------------------------------------------------------------------------
// Limiting the components
// ---------------------------------------------------------------------------

/// The components a pattern draws from: all of them without a limit; with a limit
/// `l`, `min(l, count)` of them, chosen at random (a random order of all of them,
/// cut to that length).
pub fn limit_components(components: Vec<String>, limit: Option<u32>) -> (r: Vec<String>)
    ensures
        limit is None ==> r@ == components@,
        limit matches Some(l) ==> r@.len() == (if (l as int) < components@.len() {
            l as int
        } else {
            components@.len() as int
        }) && exists|p: Seq<String>|
            p.to_multiset() == components@.to_multiset() && r@ == p.take(r@.len() as int),
{
    match limit {
        None => components,
        Some(lim) => {
            let mut v = components;
            let ghost orig = v@;
            let mut rng = new_rng();
            shuffle(&mut v, &mut rng);
            proof {
                vstd::seq_lib::to_multiset_len(orig);
                vstd::seq_lib::to_multiset_len(v@);
            }
            let n = if (lim as usize) < v.len() {
                lim as usize
            } else {
                v.len()
            };
            let ghost p = v@;
            v.truncate(n);
            assert(v@ =~= p.take(n as int));
            v
        },
    }
}

} // verus!
