//! The tray icon: the app icon as an ARGB32 pixmap, with the attention count
//! drawn as a red corner badge carrying white 3x5 bitmap digits.
//!
//! The badge is a filled circle in the bottom-right corner, its diameter
//! `max(9/16 of the width, 16)`; the count is written in at most two digits,
//! `99+` above 99, at the largest scale whose glyphs fit inside the circle.

use vstd::prelude::*;

verus! {

/// A pixmap: `width * height` pixels, four bytes each (A, R, G, B), rows top
/// to bottom.
#[derive(Debug, Clone)]
pub struct Pixmap {
    pub width: i32,
    pub height: i32,
    pub data: Vec<u8>,
}

/// The pixmap's buffer holds exactly its pixels.
pub open spec fn well_sized(p: Pixmap) -> bool {
    p.width >= 0 && p.height >= 0 && p.data@.len() == p.width * p.height * 4
}

/// Index of the `+` glyph, past the ten digits.
pub const GLYPH_PLUS: u8 = 10;

/// Row `ry` (top to bottom) of glyph `g`: three bits, the highest the left
/// column. Digits 0-9, anything else the `+`.
pub open spec fn glyph_row(g: int, ry: int) -> int {
    let rows: Seq<int> = if g == 0 {
        seq![7, 5, 5, 5, 7]
    } else if g == 1 {
        seq![2, 6, 2, 2, 7]
    } else if g == 2 {
        seq![7, 1, 7, 4, 7]
    } else if g == 3 {
        seq![7, 1, 7, 1, 7]
    } else if g == 4 {
        seq![5, 5, 7, 1, 1]
    } else if g == 5 {
        seq![7, 4, 7, 1, 7]
    } else if g == 6 {
        seq![7, 4, 7, 5, 7]
    } else if g == 7 {
        seq![7, 1, 1, 1, 1]
    } else if g == 8 {
        seq![7, 5, 7, 5, 7]
    } else if g == 9 {
        seq![7, 5, 7, 1, 7]
    } else {
        seq![0, 2, 7, 2, 0]
    };
    rows[ry]
}

/// Whether column `gx` (0 = left) of row `ry` of glyph `g` is lit.
pub open spec fn glyph_lit(g: int, ry: int, gx: int) -> bool {
    let row = glyph_row(g, ry);
    if gx == 0 {
        (row / 4) % 2 == 1
    } else if gx == 1 {
        (row / 2) % 2 == 1
    } else {
        row % 2 == 1
    }
}

/// The glyphs the badge shows for `count`: one or two digits, or `9`, `9`,
/// `+` above 99.
pub open spec fn badge_text(count: u32) -> Seq<int> {
    if count > 99 {
        seq![9, 9, 10]
    } else if count >= 10 {
        seq![(count / 10) as int, (count % 10) as int]
    } else {
        seq![count as int]
    }
}

/// The diameter of the badge circle on a pixmap `w` wide.
pub open spec fn diameter(w: int) -> int {
    if w * 9 / 16 >= 16 {
        w * 9 / 16
    } else {
        16
    }
}

/// The circle's centre column.
pub open spec fn centre_x(w: int) -> int {
    w - diameter(w) / 2 - 1
}

/// The circle's centre row.
pub open spec fn centre_y(w: int, h: int) -> int {
    h - diameter(w) / 2 - 1
}

/// The largest glyph scale whose text fits inside the circle, at least 1.
pub open spec fn glyph_scale(w: int, count: u32) -> int {
    let d = diameter(w);
    let glyphs = badge_text(count).len() as int;
    let inner = d - d / 4;
    let a = inner / (glyphs * 4 - 1);
    let b = inner / 5;
    let m = if a <= b { a } else { b };
    if m >= 1 {
        m
    } else {
        1
    }
}

/// The left column of the text, centred on the circle.
pub open spec fn text_x0(w: int, count: u32) -> int {
    let glyphs = badge_text(count).len() as int;
    let s = glyph_scale(w, count);
    centre_x(w) - (glyphs * 3 * s + (glyphs - 1) * s) / 2
}

/// The top row of the text, centred on the circle.
pub open spec fn text_y0(w: int, h: int, count: u32) -> int {
    centre_y(w, h) - 5 * glyph_scale(w, count) / 2
}

/// Pixel `(x, y)` lies in the badge circle.
pub open spec fn in_circle(w: int, h: int, x: int, y: int) -> bool {
    let r = diameter(w) / 2;
    (x - centre_x(w)) * (x - centre_x(w)) + (y - centre_y(w, h)) * (y - centre_y(w, h)) <= r * r
}

/// Pixel `(x, y)` is lit by a glyph of the text: glyph `i` occupies the
/// columns from `x0 + 4*scale*i` (three glyph columns, then a one-column
/// gap), each glyph cell a `scale` x `scale` square.
pub open spec fn on_glyph(w: int, h: int, count: u32, x: int, y: int) -> bool {
    let text = badge_text(count);
    let s = glyph_scale(w, count);
    let ux = x - text_x0(w, count);
    let uy = y - text_y0(w, h, count);
    &&& 0 <= ux
    &&& 0 <= uy < 5 * s
    &&& ux / (4 * s) < text.len()
    &&& (ux % (4 * s)) / s < 3
    &&& glyph_lit(text[ux / (4 * s)], uy / s, (ux % (4 * s)) / s)
}

/// What the badge paints at `(x, y)`: 2 for white (a glyph), 1 for red (the
/// circle), 0 for nothing.
pub open spec fn paint_at(w: int, h: int, count: u32, x: int, y: int) -> int {
    if on_glyph(w, h, count, x, y) {
        2
    } else if in_circle(w, h, x, y) {
        1
    } else {
        0
    }
}

/// Byte `i` of a `w`-wide pixmap after the badge for `count` is drawn over
/// the bytes `old`: white over a glyph, red over the rest of the circle,
/// unchanged elsewhere.
pub open spec fn badge_byte(w: int, h: int, count: u32, old: Seq<u8>, i: int) -> u8 {
    let p = i / 4;
    let code = paint_at(w, h, count, p % w, p / w);
    if code == 2 {
        0xff
    } else if code == 1 {
        seq![0xffu8, 0xd0, 0x39, 0x2b][i % 4]
    } else {
        old[i]
    }
}

/// Row `ry` of glyph `g`.
fn glyph_bits(g: i64, ry: i64) -> (r: i64)
    requires
        0 <= ry < 5,
    ensures
        r == glyph_row(g as int, ry as int),
        0 <= r < 8,
{
    let rows: [i64; 5] = if g == 0 {
        [7, 5, 5, 5, 7]
    } else if g == 1 {
        [2, 6, 2, 2, 7]
    } else if g == 2 {
        [7, 1, 7, 4, 7]
    } else if g == 3 {
        [7, 1, 7, 1, 7]
    } else if g == 4 {
        [5, 5, 7, 1, 1]
    } else if g == 5 {
        [7, 4, 7, 1, 7]
    } else if g == 6 {
        [7, 4, 7, 5, 7]
    } else if g == 7 {
        [7, 1, 1, 1, 1]
    } else if g == 8 {
        [7, 5, 7, 5, 7]
    } else if g == 9 {
        [7, 5, 7, 1, 7]
    } else {
        [0, 2, 7, 2, 0]
    };
    rows[ry as usize]
}

/// `v` holds the glyphs for `count`.
spec fn is_text_of(v: Seq<i64>, count: u32) -> bool {
    v.len() == badge_text(count).len() && forall|i: int| 0 <= i < v.len() ==> v[i] == badge_text(count)[i]
}

/// The badge layout for one pixmap and count, in machine integers.
struct Layout {
    cx: i64,
    cy: i64,
    radius: i64,
    scale: i64,
    x0: i64,
    y0: i64,
    text: Vec<i64>,
}

/// `l` is the layout of the badge for `count` on a `w` x `h` pixmap.
spec fn layout_of(l: Layout, w: int, h: int, count: u32) -> bool {
    &&& l.cx == centre_x(w)
    &&& l.cy == centre_y(w, h)
    &&& l.radius == diameter(w) / 2
    &&& l.scale == glyph_scale(w, count)
    &&& l.x0 == text_x0(w, count)
    &&& l.y0 == text_y0(w, h, count)
    &&& is_text_of(l.text@, count)
    &&& 1 <= l.scale <= 0x1_0000_0000
    &&& -0x1_0000_0000 <= l.cx <= 0x1_0000_0000
    &&& -0x1_0000_0000 <= l.cy <= 0x1_0000_0000
    &&& 0 <= l.radius <= 0x1_0000_0000
    &&& -0x4_0000_0000 <= l.x0 <= 0x1_0000_0000
    &&& -0x4_0000_0000 <= l.y0 <= 0x1_0000_0000
}

/// The glyphs for `count`.
fn text_of(count: u32) -> (r: Vec<i64>)
    ensures
        is_text_of(r@, count),
{
    if count > 99 {
        vec![9, 9, 10]
    } else if count >= 10 {
        vec![(count / 10) as i64, (count % 10) as i64]
    } else {
        vec![count as i64]
    }
}

/// Lay out the badge for `count` on a `w` x `h` pixmap.
fn layout(w: i32, h: i32, count: u32) -> (l: Layout)
    requires
        w >= 0,
        h >= 0,
    ensures
        layout_of(l, w as int, h as int, count),
{
    let w64 = w as i64;
    let h64 = h as i64;
    let d9 = w64 * 9 / 16;
    let d: i64 = if d9 >= 16 { d9 } else { 16 };
    assert(d == diameter(w as int));
    let text = text_of(count);
    let glyphs = text.len() as i64;
    assert(1 <= glyphs <= 3);
    let inner = d - d / 4;
    let a = inner / (glyphs * 4 - 1);
    let b = inner / 5;
    let m = if a <= b { a } else { b };
    let scale: i64 = if m >= 1 { m } else { 1 };
    proof {
        assert(d <= 0x1_0000_0000);
        assert(0 <= inner <= d);
        assert(a <= inner) by (nonlinear_arith)
            requires
                inner >= 0,
                glyphs * 4 - 1 >= 3,
                a as int == (inner as int) / (glyphs * 4 - 1),
        ;
        assert(scale <= d);
        assert(scale == glyph_scale(w as int, count));
    }
    let cx = w64 - d / 2 - 1;
    let cy = h64 - d / 2 - 1;
    proof {
        assert(glyphs * 3 * scale <= 9 * 0x1_0000_0000) by (nonlinear_arith)
            requires
                1 <= glyphs <= 3,
                1 <= scale <= 0x1_0000_0000,
        ;
        assert((glyphs - 1) * scale <= 2 * 0x1_0000_0000) by (nonlinear_arith)
            requires
                1 <= glyphs <= 3,
                1 <= scale <= 0x1_0000_0000,
        ;
        assert(0 <= (glyphs - 1) * scale) by (nonlinear_arith)
            requires
                1 <= glyphs <= 3,
                1 <= scale,
        ;
    }
    let total = glyphs * 3 * scale + (glyphs - 1) * scale;
    proof {
        assert(0 <= total <= 12 * scale) by (nonlinear_arith)
            requires
                1 <= glyphs <= 3,
                scale >= 1,
                total == glyphs * 3 * scale + (glyphs - 1) * scale,
        ;
    }
    let x0 = cx - total / 2;
    let y0 = cy - 5 * scale / 2;
    Layout { cx, cy, radius: d / 2, scale, x0, y0, text }
}

/// The paint code at one pixel: 2 white, 1 red, 0 none.
fn paint_code(l: &Layout, x: i64, y: i64, Ghost(w): Ghost<int>, Ghost(h): Ghost<int>, Ghost(count): Ghost<u32>) -> (r: u8)
    requires
        layout_of(*l, w, h, count),
        0 <= x < w <= i32::MAX,
        0 <= y < h <= i32::MAX,
    ensures
        r == paint_at(w, h, count, x as int, y as int),
{
    let s = l.scale;
    let ux = x - l.x0;
    let uy = y - l.y0;
    let mut lit = false;
    if 0 <= ux && 0 <= uy && uy < 5 * s {
        let cell = 4 * s;
        let gi = ux / cell;
        let within = ux % cell;
        let gx = within / s;
        if gi < l.text.len() as i64 && gx < 3 {
            let ry = uy / s;
            proof {
                assert(0 <= ry < 5) by (nonlinear_arith)
                    requires
                        0 <= uy < 5 * s,
                        s >= 1,
                        ry == uy / s,
                ;
                assert(0 <= gi) by (nonlinear_arith)
                    requires
                        ux >= 0,
                        cell >= 4,
                        gi == ux / cell,
                ;
            }
            let row = glyph_bits(l.text[gi as usize], ry);
            lit = if gx == 0 {
                (row / 4) % 2 == 1
            } else if gx == 1 {
                (row / 2) % 2 == 1
            } else {
                row % 2 == 1
            };
        }
    }
    proof {
        assert(lit == on_glyph(w, h, count, x as int, y as int));
    }
    if lit {
        return 2;
    }
    let dx = (x - l.cx) as i128;
    let dy = (y - l.cy) as i128;
    let r = l.radius as i128;
    proof {
        assert(dx * dx <= 0x10_0000_0000_0000_0000) by (nonlinear_arith)
            requires
                -0x2_0000_0000 <= dx <= 0x2_0000_0000,
        ;
        assert(dy * dy <= 0x10_0000_0000_0000_0000) by (nonlinear_arith)
            requires
                -0x2_0000_0000 <= dy <= 0x2_0000_0000,
        ;
        assert(0 <= r * r <= 0x10_0000_0000_0000_0000) by (nonlinear_arith)
            requires
                0 <= r <= 0x1_0000_0000,
        ;
        assert(0 <= dx * dx && 0 <= dy * dy) by (nonlinear_arith);
    }
    if dx * dx + dy * dy <= r * r {
        1
    } else {
        0
    }
}

/// Composite the badge for `count` into the bottom-right corner of `icon`:
/// a red filled circle with the count in white, glyphs over the circle.
pub fn draw_badge(icon: &mut Pixmap, count: u32)
    requires
        well_sized(*old(icon)),
    ensures
        final(icon).width == old(icon).width,
        final(icon).height == old(icon).height,
        final(icon).data@.len() == old(icon).data@.len(),
        forall|i: int|
            0 <= i < old(icon).data@.len() ==> #[trigger] final(icon).data@[i] == badge_byte(
                old(icon).width as int,
                old(icon).height as int,
                count,
                old(icon).data@,
                i,
            ),
{
    let w = icon.width;
    let h = icon.height;
    let ghost old_data = icon.data@;
    let l = layout(w, h, count);
    let wu = w as usize;
    let hu = h as usize;
    let dl = icon.data.len();
    proof {
        assert(wu * hu * 4 == old_data.len());
        assert(wu * hu <= old_data.len()) by (nonlinear_arith)
            requires
                wu * hu * 4 == old_data.len(),
                wu * hu >= 0,
        ;
        assert(wu * hu >= 0) by (nonlinear_arith)
            requires
                wu >= 0,
                hu >= 0,
        ;
    }
    let npx = wu * hu;
    let mut p: usize = 0;
    while p < npx
        invariant
            w == icon.width,
            h == icon.height,
            wu == w,
            hu == h,
            w >= 0 && h >= 0,
            npx == wu * hu,
            npx * 4 == old_data.len(),
            old_data.len() == dl,
            icon.data@.len() == old_data.len(),
            layout_of(l, w as int, h as int, count),
            p <= npx,
            forall|i: int| 0 <= i < 4 * p ==> #[trigger] icon.data@[i] == badge_byte(
                w as int,
                h as int,
                count,
                old_data,
                i,
            ),
            forall|i: int| 4 * p <= i < old_data.len() ==> #[trigger] icon.data@[i] == old_data[i],
        decreases npx - p,
    {
        proof {
            assert(wu > 0) by (nonlinear_arith)
                requires
                    p < npx,
                    npx == wu * hu,
                    hu >= 0,
            ;
            assert(p / wu < hu) by (nonlinear_arith)
                requires
                    p < wu * hu,
                    wu > 0,
            ;
        }
        let x = (p % wu) as i64;
        let y = (p / wu) as i64;
        let code = paint_code(&l, x, y, Ghost(w as int), Ghost(h as int), Ghost(count));
        let base = 4 * p;
        let ghost before = icon.data@;
        if code == 2 {
            icon.data.set(base, 0xff);
            icon.data.set(base + 1, 0xff);
            icon.data.set(base + 2, 0xff);
            icon.data.set(base + 3, 0xff);
        } else if code == 1 {
            icon.data.set(base, 0xff);
            icon.data.set(base + 1, 0xd0);
            icon.data.set(base + 2, 0x39);
            icon.data.set(base + 3, 0x2b);
        }
        proof {
            assert forall|i: int| 0 <= i < 4 * (p + 1) implies #[trigger] icon.data@[i] == badge_byte(
                w as int,
                h as int,
                count,
                old_data,
                i,
            ) by {
                if i >= 4 * p {
                    assert(i / 4 == p);
                    assert(i % 4 == i - 4 * p);
                    assert(before[i] == old_data[i]);
                }
            }
        }
        p = p + 1;
    }
}

/// The bytes of an RGBA (4 bytes a pixel) or RGB (3) image, as ARGB32: alpha
/// first, opaque where the source has none.
pub open spec fn argb_byte(src: Seq<u8>, bpp: int, i: int) -> u8 {
    let o = (i / 4) * bpp;
    let k = i % 4;
    if k == 0 {
        if bpp == 4 {
            src[o + 3]
        } else {
            0xff
        }
    } else {
        src[o + k - 1]
    }
}

/// Convert `npx` pixels of decoded RGBA or RGB data to ARGB32.
pub fn to_argb(src: &[u8], bpp: usize, npx: usize) -> (r: Vec<u8>)
    requires
        bpp == 3 || bpp == 4,
        npx * bpp <= src@.len(),
        npx * 4 <= usize::MAX,
    ensures
        r@.len() == npx * 4,
        forall|i: int| 0 <= i < npx * 4 ==> #[trigger] r@[i] == argb_byte(src@, bpp as int, i),
{
    let mut out: Vec<u8> = Vec::new();
    let mut p: usize = 0;
    while p < npx
        invariant
            bpp == 3 || bpp == 4,
            npx * bpp <= src@.len(),
            npx * 4 <= usize::MAX,
            p <= npx,
            out@.len() == 4 * p,
            forall|i: int| 0 <= i < 4 * p ==> #[trigger] out@[i] == argb_byte(src@, bpp as int, i),
        decreases npx - p,
    {
        proof {
            assert(p * bpp + bpp <= npx * bpp) by (nonlinear_arith)
                requires
                    p < npx,
                    bpp >= 0,
            ;
        }
        let o = p * bpp;
        let a: u8 = if bpp == 4 { src[o + 3] } else { 0xff };
        out.push(a);
        out.push(src[o]);
        out.push(src[o + 1]);
        out.push(src[o + 2]);
        proof {
            assert forall|i: int| 0 <= i < 4 * (p + 1) implies #[trigger] out@[i] == argb_byte(
                src@,
                bpp as int,
                i,
            ) by {
                if i >= 4 * p {
                    assert(i / 4 == p);
                    assert(i % 4 == i - 4 * p);
                }
            }
        }
        p = p + 1;
    }
    out
}

/// The tray icon for an attention count: the base icon, badged when the
/// count is not zero.
pub fn tray_icon(base: &Pixmap, count: u32) -> (r: Pixmap)
    requires
        well_sized(*base),
    ensures
        r.width == base.width,
        r.height == base.height,
        r.data@.len() == base.data@.len(),
        count == 0 ==> r.data@ == base.data@,
        count > 0 ==> forall|i: int| 0 <= i < base.data@.len() ==> #[trigger] r.data@[i] == badge_byte(
            base.width as int,
            base.height as int,
            count,
            base.data@,
            i,
        ),
{
    let mut icon = Pixmap { width: base.width, height: base.height, data: base.data.clone() };
    if count > 0 {
        draw_badge(&mut icon, count);
    }
    icon
}

/// The tray tooltip title: the app name, with how many items need
/// attention when any do.
pub open spec fn spec_tool_tip(count: u32) -> Seq<char> {
    if count > 0 {
        "laba — "@ + crate::text::dec_nat(count as nat) + " need attention"@
    } else {
        "laba"@
    }
}

/// The tray tooltip title for an attention count.
pub fn tool_tip_title(count: u32) -> (r: String)
    ensures
        r@ == spec_tool_tip(count),
{
    if count > 0 {
        let n = crate::text::string_of(&crate::text::fmt_u64(count as u64));
        let a = crate::text::concat_str("laba — ", n.as_str());
        crate::text::concat_str(a.as_str(), " need attention")
    } else {
        "laba".to_string()
    }
}

} // verus!
