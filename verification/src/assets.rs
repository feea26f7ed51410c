//! The placeholder sprites, drawn pixel by pixel into RGBA images: a player
//! sheet with one frame per facing, the guide, and the slime.

use vstd::prelude::*;
use image::{Rgba, RgbaImage};
use crate::player::Facing;

verus! {

/// A sprite being drawn: an RGBA image of the `image` crate. The engine saves
/// `image` as a PNG.
#[verifier::external_body]
pub struct SpriteImage {
    pub image: RgbaImage,
}

/// The pixels of a sprite image, by `(x, y)` position.
pub uninterp spec fn sprite_pixels(img: SpriteImage) -> Map<(u32, u32), [u8; 4]>;

/// The width and height that a sprite image was made with.
pub uninterp spec fn sprite_dims(img: SpriteImage) -> (u32, u32);

/// An image holds exactly one pixel per position inside its width and height.
pub open spec fn sprite_wf(img: SpriteImage) -> bool {
    sprite_pixels(img).dom() == Set::new(|p: (u32, u32)| p.0 < sprite_dims(img).0 && p.1 < sprite_dims(img).1)
}

impl SpriteImage {
    /// `ImageBuffer::from_pixel`: an image of the given size with every pixel
    /// set to `fill`. The crate panics when the buffer length `4 * width *
    /// height` overflows `usize`, and the buffer's allocation when it passes
    /// `isize::MAX` bytes; those inputs are left out.
    #[verifier::external_body]
    fn from_pixel(width: u32, height: u32, fill: [u8; 4]) -> (img: SpriteImage)
        requires
            4 * (width as int) * (height as int) <= isize::MAX,
        ensures
            sprite_dims(img) == (width, height),
            sprite_pixels(img) == Map::new(|p: (u32, u32)| p.0 < width && p.1 < height, |p: (u32, u32)| fill),
    {
        SpriteImage { image: RgbaImage::from_pixel(width, height, Rgba(fill)) }
    }

    /// `ImageBuffer::put_pixel`: sets the pixel at `(x, y)` to `c`; the size
    /// stays. The crate panics outside the image; that input is left out.
    #[verifier::external_body]
    fn put_pixel(&mut self, x: u32, y: u32, c: [u8; 4])
        requires
            x < sprite_dims(*old(self)).0,
            y < sprite_dims(*old(self)).1,
        ensures
            sprite_dims(*final(self)) == sprite_dims(*old(self)),
            sprite_pixels(*final(self)) == sprite_pixels(*old(self)).insert((x, y), c),
    {
        self.image.put_pixel(x, y, Rgba(c))
    }

    /// The width and height of the image, for callers that check the bounds
    /// that drawing asks for.
    pub fn size(&self) -> (d: (u32, u32))
        ensures
            d == sprite_dims(*self),
    {
        self.dimensions()
    }

    /// `ImageBuffer::dimensions`: the width and height of the image.
    #[verifier::external_body]
    fn dimensions(&self) -> (d: (u32, u32))
        ensures
            d == sprite_dims(*self),
    {
        self.image.dimensions()
    }
}

/// The pixels `m` with every pixel whose position lies in `shape` set to `c`.
pub open spec fn paint(m: Map<(u32, u32), [u8; 4]>, shape: spec_fn(int, int) -> bool, c: [u8; 4]) -> Map<(u32, u32), [u8; 4]> {
    Map::new(|p: (u32, u32)| m.contains_key(p), |p: (u32, u32)| if shape(p.0 as int, p.1 as int) { c } else { m[p] })
}

/// Growing the painted shape by the point `(x, y)` sets that pixel when the
/// image has it, and changes nothing otherwise.
proof fn lemma_paint_grow(m: Map<(u32, u32), [u8; 4]>, s1: spec_fn(int, int) -> bool, s2: spec_fn(int, int) -> bool, c: [u8; 4], x: int, y: int)
    requires
        forall|a: int, b: int| 0 <= a <= u32::MAX && 0 <= b <= u32::MAX
            ==> #[trigger] s2(a, b) == (s1(a, b) || (a == x && b == y)),
    ensures
        0 <= x <= u32::MAX && 0 <= y <= u32::MAX && m.contains_key((x as u32, y as u32))
            ==> paint(m, s2, c) == paint(m, s1, c).insert((x as u32, y as u32), c),
        !(0 <= x <= u32::MAX && 0 <= y <= u32::MAX && m.contains_key((x as u32, y as u32)))
            ==> paint(m, s2, c) == paint(m, s1, c),
{
    if 0 <= x <= u32::MAX && 0 <= y <= u32::MAX && m.contains_key((x as u32, y as u32)) {
        assert(paint(m, s2, c) =~= paint(m, s1, c).insert((x as u32, y as u32), c));
    } else {
        assert forall|p: (u32, u32)| m.contains_key(p) implies s2(p.0 as int, p.1 as int) == s1(p.0 as int, p.1 as int) by {
            if p.0 as int == x && p.1 as int == y {
                assert(p == (x as u32, y as u32));
            }
        }
        assert(paint(m, s2, c) =~= paint(m, s1, c));
    }
}

/// Painting two shapes with the same points gives the same pixels.
proof fn lemma_paint_same(m: Map<(u32, u32), [u8; 4]>, s1: spec_fn(int, int) -> bool, s2: spec_fn(int, int) -> bool, c: [u8; 4])
    requires
        forall|a: int, b: int| 0 <= a <= u32::MAX && 0 <= b <= u32::MAX ==> #[trigger] s2(a, b) == s1(a, b),
    ensures
        paint(m, s2, c) == paint(m, s1, c),
{
    assert(paint(m, s2, c) =~= paint(m, s1, c));
}

/// Painting nothing leaves the pixels as they are.
proof fn lemma_paint_empty(m: Map<(u32, u32), [u8; 4]>, s: spec_fn(int, int) -> bool, c: [u8; 4])
    requires
        forall|a: int, b: int| !#[trigger] s(a, b),
    ensures
        paint(m, s, c) == m,
{
    assert(paint(m, s, c) =~= m);
}

/// The filled rectangle with corners `(x0, y0)` and `(x1, y1)`.
pub open spec fn filled_rect(x0: int, y0: int, x1: int, y1: int) -> spec_fn(int, int) -> bool {
    |x: int, y: int| x0 <= x <= x1 && y0 <= y <= y1
}

/// Fills the rectangle with corners `(x0, y0)` and `(x1, y1)` with `c`,
/// clipped to the image.
pub fn rect_fill(img: &mut SpriteImage, x0: i32, y0: i32, x1: i32, y1: i32, c: [u8; 4])
    requires
        sprite_wf(*old(img)),
    ensures
        sprite_wf(*final(img)),
        sprite_dims(*final(img)) == sprite_dims(*old(img)),
        sprite_pixels(*final(img)) == paint(sprite_pixels(*old(img)), filled_rect(x0 as int, y0 as int, x1 as int, y1 as int), c),
{
    let ghost m0 = sprite_pixels(*img);
    let (w, h) = img.dimensions();
    let mut y: i64 = y0 as i64;
    proof {
        lemma_paint_empty(m0, |a: int, b: int| x0 <= a <= x1 && y0 <= b < y0, c);
    }
    while y <= y1 as i64
        invariant
            y0 <= y,
            y <= y1 as int + 1 || y == y0,
            sprite_wf(*img),
            sprite_dims(*img) == (w, h),
            m0.dom() == sprite_pixels(*img).dom(),
            sprite_pixels(*img) == paint(m0, |a: int, b: int| x0 <= a <= x1 && y0 <= b < y, c),
        decreases y1 as int + 1 - y,
    {
        let mut x: i64 = x0 as i64;
        while x <= x1 as i64
            invariant
                y0 <= y <= y1,
                x0 <= x,
                x <= x1 as int + 1 || x == x0,
                sprite_wf(*img),
                sprite_dims(*img) == (w, h),
                m0.dom() == sprite_pixels(*img).dom(),
                sprite_pixels(*img) == paint(m0, |a: int, b: int| x0 <= a <= x1 && (y0 <= b < y || (b == y && a < x)), c),
            decreases x1 as int + 1 - x,
        {
            let ghost before = sprite_pixels(*img);
            proof {
                lemma_paint_grow(m0,
                    |a: int, b: int| x0 <= a <= x1 && (y0 <= b < y || (b == y && a < x)),
                    |a: int, b: int| x0 <= a <= x1 && (y0 <= b < y || (b == y && a < x + 1)),
                    c, x as int, y as int);
            }
            if x >= 0 && (x as u32) < w && y >= 0 && (y as u32) < h {
                img.put_pixel(x as u32, y as u32, c);
            }
            x = x + 1;
        }
        assert(paint(m0, |a: int, b: int| x0 <= a <= x1 && (y0 <= b < y || (b == y && a < x)), c)
            =~= paint(m0, |a: int, b: int| x0 <= a <= x1 && y0 <= b < y + 1, c));
        y = y + 1;
    }
    assert(paint(m0, |a: int, b: int| x0 <= a <= x1 && y0 <= b < y, c)
        =~= paint(m0, filled_rect(x0 as int, y0 as int, x1 as int, y1 as int), c));
}

/// The value of `v as u32` for an `i32` value `v`: negative values wrap
/// around.
pub open spec fn wrap_u32(v: int) -> int {
    if v >= 0 { v } else { v + 0x1_0000_0000 }
}

/// The value of `n as i32` for a `u32` value `n`.
pub open spec fn as_i32(n: u32) -> int {
    if n <= i32::MAX { n as int } else { n - 0x1_0000_0000 }
}

/// Whether position `a` is `v as u32` for some `v` in `lo..=hi`.
pub open spec fn wraps_into(a: int, lo: int, hi: int) -> bool {
    (lo <= a <= hi) || (lo <= a - 0x1_0000_0000 <= hi)
}

/// Whether every `v as u32` for `v` in `lo..=hi` lies below `n`.
pub open spec fn range_fits(lo: int, hi: int, n: int) -> bool {
    lo > hi || (lo >= 0 && hi < n) || (hi < 0 && hi + 0x1_0000_0000 < n)
}

/// Whether an edge at coordinate `v` is drawn in an image whose side is `n`:
/// `0 <= v < n as i32`.
pub open spec fn edge_shown(v: int, n: u32) -> bool {
    0 <= v < as_i32(n)
}

proof fn lemma_cast_u32(x: i32)
    ensures
        (x as u32) as int == wrap_u32(x as int),
{
    assert(x < 0 ==> (x as u32) as u64 == (x as i64 + 4294967296i64) as u64) by (bit_vector);
    assert(x >= 0 ==> (x as u32) as u64 == x as u64) by (bit_vector);
}

proof fn lemma_cast_i32(n: u32)
    ensures
        (n as i32) as int == as_i32(n),
{
    assert(n > 0x7fff_ffffu32 ==> (n as i32) as i64 == n as i64 - 4294967296i64) by (bit_vector);
    assert(n <= 0x7fff_ffffu32 ==> (n as i32) as i64 == n as i64) by (bit_vector);
}

/// The outline of the rectangle with corners `(x0, y0)` and `(x1, y1)` as
/// drawn in an image of size `dims`: each edge whose coordinate lies in the
/// image, the coordinates along it taken as `u32`.
pub open spec fn rect_outline(dims: (u32, u32), x0: int, y0: int, x1: int, y1: int) -> spec_fn(int, int) -> bool {
    |x: int, y: int|
        (((y == y0 && edge_shown(y0, dims.1)) || (y == y1 && edge_shown(y1, dims.1))) && wraps_into(x, x0, x1))
        || (((x == x0 && edge_shown(x0, dims.0)) || (x == x1 && edge_shown(x1, dims.0))) && wraps_into(y, y0, y1))
}

/// Outlining a rectangle stays inside an image of size `dims`: along a top or
/// bottom edge that is drawn, every column lies in the image, and so does
/// every row along a left or right edge that is drawn.
pub open spec fn rect_in_bounds(dims: (u32, u32), x0: int, y0: int, x1: int, y1: int) -> bool {
    &&& (edge_shown(y0, dims.1) || edge_shown(y1, dims.1)) ==> range_fits(x0, x1, dims.0 as int)
    &&& (edge_shown(x0, dims.0) || edge_shown(x1, dims.0)) ==> range_fits(y0, y1, dims.1 as int)
}

/// Outlines the rectangle with corners `(x0, y0)` and `(x1, y1)` in `c`. An
/// edge is drawn when its coordinate lies in the image (compared as `i32`);
/// the coordinates along it are taken as `u32` and must lie in the image.
pub fn rect(img: &mut SpriteImage, x0: i32, y0: i32, x1: i32, y1: i32, c: [u8; 4])
    requires
        sprite_wf(*old(img)),
        rect_in_bounds(sprite_dims(*old(img)), x0 as int, y0 as int, x1 as int, y1 as int),
    ensures
        sprite_wf(*final(img)),
        sprite_dims(*final(img)) == sprite_dims(*old(img)),
        sprite_pixels(*final(img)) == paint(sprite_pixels(*old(img)),
            rect_outline(sprite_dims(*old(img)), x0 as int, y0 as int, x1 as int, y1 as int), c),
{
    let ghost m0 = sprite_pixels(*img);
    let ghost dims = sprite_dims(*img);
    let (w, h) = img.dimensions();
    let hh = h as i32;
    let ww = w as i32;
    proof {
        lemma_cast_i32(h);
        lemma_cast_i32(w);
    }
    let ghost d0 = edge_shown(y0 as int, h);
    let ghost d1 = edge_shown(y1 as int, h);
    let ghost d2 = edge_shown(x0 as int, w);
    let ghost d3 = edge_shown(x1 as int, w);
    let mut x: i64 = x0 as i64;
    proof {
        lemma_paint_empty(m0, |a: int, b: int| ((b == y0 && d0) || (b == y1 && d1)) && wraps_into(a, x0 as int, x0 as int - 1), c);
    }
    while x <= x1 as i64
        invariant
            x0 <= x,
            x <= x1 as int + 1 || x == x0,
            hh as int == as_i32(h) && ww as int == as_i32(w),
            dims == (w, h),
            d0 == edge_shown(y0 as int, h) && d1 == edge_shown(y1 as int, h),
            sprite_wf(*img),
            sprite_dims(*img) == dims,
            rect_in_bounds(dims, x0 as int, y0 as int, x1 as int, y1 as int),
            m0.dom() == sprite_pixels(*img).dom(),
            sprite_pixels(*img) == paint(m0, |a: int, b: int| ((b == y0 && d0) || (b == y1 && d1)) && wraps_into(a, x0 as int, x - 1), c),
        decreases x1 as int + 1 - x,
    {
        let xi = x as i32;
        let px = xi as u32;
        proof { lemma_cast_u32(xi); }
        let ghost s0 = |a: int, b: int| ((b == y0 && d0) || (b == y1 && d1)) && wraps_into(a, x0 as int, x - 1);
        let ghost s1 = |a: int, b: int| s0(a, b) || (d0 && a == px && b == y0);
        let ghost s2 = |a: int, b: int| s1(a, b) || (d1 && a == px && b == y1);
        if y0 >= 0 && y0 < hh {
            proof { lemma_paint_grow(m0, s0, s1, c, px as int, y0 as int); }
            img.put_pixel(px, y0 as u32, c);
        } else {
            proof { lemma_paint_same(m0, s0, s1, c); }
        }
        if y1 >= 0 && y1 < hh {
            proof { lemma_paint_grow(m0, s1, s2, c, px as int, y1 as int); }
            img.put_pixel(px, y1 as u32, c);
        } else {
            proof { lemma_paint_same(m0, s1, s2, c); }
        }
        proof {
            lemma_paint_same(m0, s2,
                |a: int, b: int| ((b == y0 && d0) || (b == y1 && d1)) && wraps_into(a, x0 as int, x as int),
                c);
        }
        x = x + 1;
    }
    let ghost top = |a: int, b: int| ((b == y0 && d0) || (b == y1 && d1)) && wraps_into(a, x0 as int, x1 as int);
    proof {
        lemma_paint_same(m0,
            |a: int, b: int| ((b == y0 && d0) || (b == y1 && d1)) && wraps_into(a, x0 as int, x - 1),
            |a: int, b: int| top(a, b) || (((a == x0 && d2) || (a == x1 && d3)) && wraps_into(b, y0 as int, y0 as int - 1)),
            c);
    }
    let mut y: i64 = y0 as i64;
    while y <= y1 as i64
        invariant
            y0 <= y,
            y <= y1 as int + 1 || y == y0,
            hh as int == as_i32(h) && ww as int == as_i32(w),
            dims == (w, h),
            d2 == edge_shown(x0 as int, w) && d3 == edge_shown(x1 as int, w),
            sprite_wf(*img),
            sprite_dims(*img) == dims,
            rect_in_bounds(dims, x0 as int, y0 as int, x1 as int, y1 as int),
            m0.dom() == sprite_pixels(*img).dom(),
            sprite_pixels(*img) == paint(m0,
                |a: int, b: int| top(a, b) || (((a == x0 && d2) || (a == x1 && d3)) && wraps_into(b, y0 as int, y - 1)), c),
        decreases y1 as int + 1 - y,
    {
        let yi = y as i32;
        let py = yi as u32;
        proof { lemma_cast_u32(yi); }
        let ghost s0 = |a: int, b: int| top(a, b) || (((a == x0 && d2) || (a == x1 && d3)) && wraps_into(b, y0 as int, y - 1));
        let ghost s1 = |a: int, b: int| s0(a, b) || (d2 && a == x0 && b == py);
        let ghost s2 = |a: int, b: int| s1(a, b) || (d3 && a == x1 && b == py);
        if x0 >= 0 && x0 < ww {
            proof { lemma_paint_grow(m0, s0, s1, c, x0 as int, py as int); }
            img.put_pixel(x0 as u32, py, c);
        } else {
            proof { lemma_paint_same(m0, s0, s1, c); }
        }
        if x1 >= 0 && x1 < ww {
            proof { lemma_paint_grow(m0, s1, s2, c, x1 as int, py as int); }
            img.put_pixel(x1 as u32, py, c);
        } else {
            proof { lemma_paint_same(m0, s1, s2, c); }
        }
        proof {
            lemma_paint_same(m0, s2,
                |a: int, b: int| top(a, b) || (((a == x0 && d2) || (a == x1 && d3)) && wraps_into(b, y0 as int, y as int)),
                c);
        }
        y = y + 1;
    }
    proof {
        lemma_paint_same(m0,
            |a: int, b: int| top(a, b) || (((a == x0 && d2) || (a == x1 && d3)) && wraps_into(b, y0 as int, y - 1)),
            rect_outline(dims, x0 as int, y0 as int, x1 as int, y1 as int),
            c);
    }
}

/// The disc of radius `r` around `(cx, cy)`: the points of the square of half
/// side `r` whose squared distance from the centre is at most `r * r`.
pub open spec fn disc(cx: int, cy: int, r: int) -> spec_fn(int, int) -> bool {
    |x: int, y: int| -r <= x - cx <= r && -r <= y - cy <= r
        && (x - cx) * (x - cx) + (y - cy) * (y - cy) <= r * r
}

/// The ring of radius `r` around `(cx, cy)`: the points of the square of half
/// side `r` whose squared distance from the centre is within 2 of `r * r`.
pub open spec fn ring(cx: int, cy: int, r: int) -> spec_fn(int, int) -> bool {
    |x: int, y: int| -r <= x - cx <= r && -r <= y - cy <= r
        && r * r - 2 <= (x - cx) * (x - cx) + (y - cy) * (y - cy) <= r * r + 2
}

/// The arithmetic of drawing a circle of radius `r` around `(cx, cy)` stays
/// within `i32`.
pub open spec fn circle_in_range(cx: int, cy: int, r: int) -> bool {
    &&& r * r <= i32::MAX
    &&& r >= 0 ==> {
        &&& 2 * r * r + 2 <= i32::MAX
        &&& i32::MIN <= cx - r && cx + r <= i32::MAX
        &&& i32::MIN <= cy - r && cy + r <= i32::MAX
    }
}

proof fn lemma_square_bound(x: int, y: int, r: int)
    requires
        -r <= x <= r,
        -r <= y <= r,
    ensures
        0 <= x * x <= r * r,
        0 <= x * x + y * y <= 2 * r * r,
        2 * r * r == r * r + r * r,
{
    assert(0 <= x * x <= r * r) by (nonlinear_arith)
        requires -r <= x <= r;
    assert(0 <= y * y <= r * r) by (nonlinear_arith)
        requires -r <= y <= r;
    assert(2 * r * r == r * r + r * r) by (nonlinear_arith);
}

proof fn lemma_radius_bound(r: int)
    requires
        r * r <= i32::MAX,
    ensures
        -46341 < r < 46341,
        0 <= r * r,
{
    assert(0 <= r * r) by (nonlinear_arith);
    if r >= 46341 {
        assert(r * r >= 46341 * 46341) by (nonlinear_arith)
            requires r >= 46341;
    }
    if r <= -46341 {
        assert(r * r >= 46341 * 46341) by (nonlinear_arith)
            requires r <= -46341;
    }
}

/// Fills the disc of radius `r` around `(cx, cy)` with `c`, clipped to the
/// image. A negative radius draws nothing.
pub fn circle_fill(img: &mut SpriteImage, cx: i32, cy: i32, r: i32, c: [u8; 4])
    requires
        sprite_wf(*old(img)),
        circle_in_range(cx as int, cy as int, r as int),
    ensures
        sprite_wf(*final(img)),
        sprite_dims(*final(img)) == sprite_dims(*old(img)),
        sprite_pixels(*final(img)) == paint(sprite_pixels(*old(img)), disc(cx as int, cy as int, r as int), c),
{
    let ghost m0 = sprite_pixels(*img);
    let (w, h) = img.dimensions();
    proof { lemma_radius_bound(r as int); }
    let r2 = r * r;
    let mut y: i32 = -r;
    proof {
        lemma_paint_empty(m0, |a: int, b: int| disc(cx as int, cy as int, r as int)(a, b) && b - cy < -r, c);
    }
    while y <= r
        invariant
            r * r <= i32::MAX,
            -46341 < r < 46341,
            r2 == r * r,
            circle_in_range(cx as int, cy as int, r as int),
            -r <= y,
            y <= r + 1 || y == -r,
            sprite_wf(*img),
            sprite_dims(*img) == (w, h),
            m0.dom() == sprite_pixels(*img).dom(),
            sprite_pixels(*img) == paint(m0, |a: int, b: int| disc(cx as int, cy as int, r as int)(a, b) && b - cy < y, c),
        decreases r + 1 - y,
    {
        let mut x: i32 = -r;
        proof {
            lemma_paint_same(m0,
                |a: int, b: int| disc(cx as int, cy as int, r as int)(a, b) && b - cy < y,
                |a: int, b: int| disc(cx as int, cy as int, r as int)(a, b) && (b - cy < y || (b - cy == y && a - cx < x)),
                c);
        }
        while x <= r
            invariant
                r * r <= i32::MAX,
                -46341 < r < 46341,
                r2 == r * r,
                circle_in_range(cx as int, cy as int, r as int),
                -r <= y <= r,
                -r <= x <= r + 1,
                sprite_wf(*img),
                sprite_dims(*img) == (w, h),
                m0.dom() == sprite_pixels(*img).dom(),
                sprite_pixels(*img) == paint(m0,
                    |a: int, b: int| disc(cx as int, cy as int, r as int)(a, b) && (b - cy < y || (b - cy == y && a - cx < x)), c),
            decreases r + 1 - x,
        {
            proof { lemma_square_bound(x as int, y as int, r as int); }
            let d = x * x + y * y;
            if d <= r2 {
                let px = cx + x;
                let py = cy + y;
                proof {
                    lemma_paint_grow(m0,
                        |a: int, b: int| disc(cx as int, cy as int, r as int)(a, b) && (b - cy < y || (b - cy == y && a - cx < x)),
                        |a: int, b: int| disc(cx as int, cy as int, r as int)(a, b) && (b - cy < y || (b - cy == y && a - cx < x + 1)),
                        c, px as int, py as int);
                }
                if px >= 0 && py >= 0 && (px as u32) < w && (py as u32) < h {
                    img.put_pixel(px as u32, py as u32, c);
                }
            } else {
                proof {
                    lemma_paint_same(m0,
                        |a: int, b: int| disc(cx as int, cy as int, r as int)(a, b) && (b - cy < y || (b - cy == y && a - cx < x)),
                        |a: int, b: int| disc(cx as int, cy as int, r as int)(a, b) && (b - cy < y || (b - cy == y && a - cx < x + 1)),
                        c);
                }
            }
            x = x + 1;
        }
        proof {
            lemma_paint_same(m0,
                |a: int, b: int| disc(cx as int, cy as int, r as int)(a, b) && (b - cy < y || (b - cy == y && a - cx < x)),
                |a: int, b: int| disc(cx as int, cy as int, r as int)(a, b) && b - cy < y + 1,
                c);
        }
        y = y + 1;
    }
    proof {
        lemma_paint_same(m0,
            |a: int, b: int| disc(cx as int, cy as int, r as int)(a, b) && b - cy < y,
            disc(cx as int, cy as int, r as int),
            c);
    }
}

/// Draws the ring of radius `r` around `(cx, cy)` in `c`, clipped to the
/// image. A negative radius draws nothing.
pub fn circle(img: &mut SpriteImage, cx: i32, cy: i32, r: i32, c: [u8; 4])
    requires
        sprite_wf(*old(img)),
        circle_in_range(cx as int, cy as int, r as int),
    ensures
        sprite_wf(*final(img)),
        sprite_dims(*final(img)) == sprite_dims(*old(img)),
        sprite_pixels(*final(img)) == paint(sprite_pixels(*old(img)), ring(cx as int, cy as int, r as int), c),
{
    let ghost m0 = sprite_pixels(*img);
    let (w, h) = img.dimensions();
    proof { lemma_radius_bound(r as int); }
    let r2 = r * r;
    let mut y: i32 = -r;
    proof {
        lemma_paint_empty(m0, |a: int, b: int| ring(cx as int, cy as int, r as int)(a, b) && b - cy < -r, c);
    }
    while y <= r
        invariant
            r * r <= i32::MAX,
            -46341 < r < 46341,
            r2 == r * r,
            circle_in_range(cx as int, cy as int, r as int),
            -r <= y,
            y <= r + 1 || y == -r,
            sprite_wf(*img),
            sprite_dims(*img) == (w, h),
            m0.dom() == sprite_pixels(*img).dom(),
            sprite_pixels(*img) == paint(m0, |a: int, b: int| ring(cx as int, cy as int, r as int)(a, b) && b - cy < y, c),
        decreases r + 1 - y,
    {
        let mut x: i32 = -r;
        proof {
            lemma_paint_same(m0,
                |a: int, b: int| ring(cx as int, cy as int, r as int)(a, b) && b - cy < y,
                |a: int, b: int| ring(cx as int, cy as int, r as int)(a, b) && (b - cy < y || (b - cy == y && a - cx < x)),
                c);
        }
        while x <= r
            invariant
                r * r <= i32::MAX,
                -46341 < r < 46341,
                r2 == r * r,
                circle_in_range(cx as int, cy as int, r as int),
                -r <= y <= r,
                -r <= x <= r + 1,
                sprite_wf(*img),
                sprite_dims(*img) == (w, h),
                m0.dom() == sprite_pixels(*img).dom(),
                sprite_pixels(*img) == paint(m0,
                    |a: int, b: int| ring(cx as int, cy as int, r as int)(a, b) && (b - cy < y || (b - cy == y && a - cx < x)), c),
            decreases r + 1 - x,
        {
            proof { lemma_square_bound(x as int, y as int, r as int); }
            let d = x * x + y * y;
            if d >= r2 - 2 && d <= r2 + 2 {
                let px = cx + x;
                let py = cy + y;
                proof {
                    lemma_paint_grow(m0,
                        |a: int, b: int| ring(cx as int, cy as int, r as int)(a, b) && (b - cy < y || (b - cy == y && a - cx < x)),
                        |a: int, b: int| ring(cx as int, cy as int, r as int)(a, b) && (b - cy < y || (b - cy == y && a - cx < x + 1)),
                        c, px as int, py as int);
                }
                if px >= 0 && py >= 0 && (px as u32) < w && (py as u32) < h {
                    img.put_pixel(px as u32, py as u32, c);
                }
            } else {
                proof {
                    lemma_paint_same(m0,
                        |a: int, b: int| ring(cx as int, cy as int, r as int)(a, b) && (b - cy < y || (b - cy == y && a - cx < x)),
                        |a: int, b: int| ring(cx as int, cy as int, r as int)(a, b) && (b - cy < y || (b - cy == y && a - cx < x + 1)),
                        c);
                }
            }
            x = x + 1;
        }
        proof {
            lemma_paint_same(m0,
                |a: int, b: int| ring(cx as int, cy as int, r as int)(a, b) && (b - cy < y || (b - cy == y && a - cx < x)),
                |a: int, b: int| ring(cx as int, cy as int, r as int)(a, b) && b - cy < y + 1,
                c);
        }
        y = y + 1;
    }
    proof {
        lemma_paint_same(m0,
            |a: int, b: int| ring(cx as int, cy as int, r as int)(a, b) && b - cy < y,
            ring(cx as int, cy as int, r as int),
            c);
    }
}

/// The drawn shapes: a filled rectangle is its corners' box; a disc holds its
/// centre and the points on its axes up to the radius, and nothing beyond the
/// radius along an axis; a ring of radius at least 2 holds the points at the
/// radius on its axes but not its centre; a rectangle's outline in a large
/// enough image holds its four corners and none of its inside.
pub proof fn lemma_shapes(x0: int, y0: int, x1: int, y1: int, cx: int, cy: int, r: int, a: int, b: int)
    ensures
        filled_rect(x0, y0, x1, y1)(a, b) <==> (x0 <= a <= x1 && y0 <= b <= y1),
        r >= 0 ==> disc(cx, cy, r)(cx, cy) && disc(cx, cy, r)(cx + r, cy) && disc(cx, cy, r)(cx, cy - r),
        !disc(cx, cy, r)(cx + r + 1, cy) && !disc(cx, cy, r)(cx, cy + r + 1),
        r >= 2 ==> ring(cx, cy, r)(cx - r, cy) && ring(cx, cy, r)(cx, cy + r) && !ring(cx, cy, r)(cx, cy),
        0 <= x0 < x1 < 0x7fff_ffff && 0 <= y0 < y1 < 0x7fff_ffff ==> {
            let dims = ((x1 + 1) as u32, (y1 + 1) as u32);
            &&& rect_outline(dims, x0, y0, x1, y1)(x0, y0)
            &&& rect_outline(dims, x0, y0, x1, y1)(x1, y0)
            &&& rect_outline(dims, x0, y0, x1, y1)(x0, y1)
            &&& rect_outline(dims, x0, y0, x1, y1)(x1, y1)
            &&& (x0 < a < x1 && y0 < b < y1 ==> !rect_outline(dims, x0, y0, x1, y1)(a, b))
        },
{
    assert((r + 1) * (r + 1) > r * r || r < 0) by (nonlinear_arith);
    if r >= 0 {
        assert(r * r >= 0) by (nonlinear_arith);
        assert((r + 1) * (r + 1) > r * r) by (nonlinear_arith) requires r >= 0;
    }
    if r >= 2 {
        assert(r * r - 2 > 0) by (nonlinear_arith) requires r >= 2;
    }
    assert((cx + r - cx) * (cx + r - cx) == r * r);
    assert((cx - r - cx) * (cx - r - cx) == r * r) by (nonlinear_arith);
    assert((cy - r - cy) * (cy - r - cy) == r * r) by (nonlinear_arith);
    assert((cy + r - cy) * (cy + r - cy) == r * r);
    assert((cx - cx) * (cx - cx) == 0);
    assert((cy - cy) * (cy - cy) == 0);
}

/// A fully transparent pixel.
pub open spec fn clear_px() -> [u8; 4] { [0u8, 0u8, 0u8, 0u8] }

/// The dark outline of the player.
pub open spec fn player_outline_px() -> [u8; 4] { [15u8, 20u8, 26u8, 255u8] }

/// The player's body colour.
pub open spec fn player_body_px() -> [u8; 4] { [40u8, 190u8, 255u8, 255u8] }

/// The player's head colour.
pub open spec fn player_head_px() -> [u8; 4] { [220u8, 245u8, 255u8, 255u8] }

/// Offset of the face dot from the head centre in frame `facing_idx`, with
/// image rows counting downwards: up, down, left, and right for the rest.
pub open spec fn face_offset(facing_idx: u32) -> (int, int) {
    if facing_idx == 0 { (0, -5) }
    else if facing_idx == 1 { (0, 5) }
    else if facing_idx == 2 { (-5, 0) }
    else { (5, 0) }
}

/// The positions `(x as u32, y as u32)` for `x` in `x0..=x1` and `y` in
/// `y0..=y1`.
pub open spec fn wrapped_rect(x0: int, y0: int, x1: int, y1: int) -> spec_fn(int, int) -> bool {
    |x: int, y: int| wraps_into(x, x0, x1) && wraps_into(y, y0, y1)
}

/// The pixels after drawing a player frame of size `w` by `h` at `(ox, oy)`:
/// the frame cleared, the body outlined and filled, the head filled and
/// outlined, and the face dot towards the facing.
pub open spec fn player_frame(m: Map<(u32, u32), [u8; 4]>, dims: (u32, u32), ox: int, oy: int, w: int, h: int, facing_idx: u32) -> Map<(u32, u32), [u8; 4]> {
    let cleared = paint(m, wrapped_rect(ox, oy, ox + w - 1, oy + h - 1), clear_px());
    let outlined = paint(cleared, rect_outline(dims, ox + 7, oy + 13, ox + 25, oy + 31), player_outline_px());
    let body = paint(outlined, filled_rect(ox + 8, oy + 14, ox + 24, oy + 30), player_body_px());
    let head = paint(body, disc(ox + 16, oy + 9, 7), player_head_px());
    let head_outline = paint(head, ring(ox + 16, oy + 9, 8), player_outline_px());
    paint(head_outline, disc(ox + 16 + face_offset(facing_idx).0, oy + 9 + face_offset(facing_idx).1, 2), player_outline_px())
}

/// The sheet frame shown for a facing has its face dot towards that facing:
/// the dot's offset is five pixels along the facing's unit step, with image
/// rows counting downwards where world y counts upwards.
pub proof fn lemma_face_dot_matches_facing(f: Facing)
    ensures
        face_offset(f.frame_index()) == (5 * f.unit_step().0, -5 * f.unit_step().1),
{
}

/// Painting leaves every pixel outside the shape as it was, and sets every
/// pixel inside it.
pub proof fn lemma_paint_at(m: Map<(u32, u32), [u8; 4]>, s: spec_fn(int, int) -> bool, c: [u8; 4], p: (u32, u32))
    requires
        m.contains_key(p),
    ensures
        paint(m, s, c).contains_key(p),
        paint(m, s, c)[p] == (if s(p.0 as int, p.1 as int) { c } else { m[p] }),
{
}

/// Whether `p` lies in the 32 by 32 cell of the sheet whose left edge is at
/// `ox`.
pub open spec fn in_cell(p: (u32, u32), ox: int) -> bool {
    ox <= p.0 < ox + 32 && p.1 < 32
}

/// Drawing a sheet frame touches only its own cell: every pixel outside the
/// 32 by 32 cell at `(ox, 0)` keeps its colour.
pub proof fn lemma_frame_stays_in_cell(m: Map<(u32, u32), [u8; 4]>, dims: (u32, u32), ox: int, facing_idx: u32, p: (u32, u32))
    requires
        0 <= ox <= i32::MAX - 31,
        m.contains_key(p),
        !in_cell(p, ox),
    ensures
        player_frame(m, dims, ox, 0, 32, 32, facing_idx).contains_key(p),
        player_frame(m, dims, ox, 0, 32, 32, facing_idx)[p] == m[p],
{
    let x = p.0 as int;
    let y = p.1 as int;
    let f = face_offset(facing_idx);
    let cleared = paint(m, wrapped_rect(ox, 0, ox + 31, 31), clear_px());
    let outlined = paint(cleared, rect_outline(dims, ox + 7, 13, ox + 25, 31), player_outline_px());
    let body = paint(outlined, filled_rect(ox + 8, 14, ox + 24, 30), player_body_px());
    let head = paint(body, disc(ox + 16, 9, 7), player_head_px());
    let head_outline = paint(head, ring(ox + 16, 9, 8), player_outline_px());
    lemma_paint_at(m, wrapped_rect(ox, 0, ox + 31, 31), clear_px(), p);
    lemma_paint_at(cleared, rect_outline(dims, ox + 7, 13, ox + 25, 31), player_outline_px(), p);
    lemma_paint_at(outlined, filled_rect(ox + 8, 14, ox + 24, 30), player_body_px(), p);
    lemma_paint_at(body, disc(ox + 16, 9, 7), player_head_px(), p);
    lemma_paint_at(head, ring(ox + 16, 9, 8), player_outline_px(), p);
    lemma_paint_at(head_outline, disc(ox + 16 + f.0, 9 + f.1, 2), player_outline_px(), p);
}

/// A sheet frame does not depend on what was drawn before in its cell: the
/// cell is cleared first, so two images that hold the same positions end up
/// with the same colours there.
pub proof fn lemma_frame_ignores_old_cell(m1: Map<(u32, u32), [u8; 4]>, m2: Map<(u32, u32), [u8; 4]>, dims: (u32, u32), ox: int, facing_idx: u32, p: (u32, u32))
    requires
        0 <= ox <= i32::MAX - 31,
        m1.contains_key(p),
        m2.contains_key(p),
        in_cell(p, ox),
    ensures
        player_frame(m1, dims, ox, 0, 32, 32, facing_idx)[p] == player_frame(m2, dims, ox, 0, 32, 32, facing_idx)[p],
{
    let f = face_offset(facing_idx);
    let c1 = paint(m1, wrapped_rect(ox, 0, ox + 31, 31), clear_px());
    let o1 = paint(c1, rect_outline(dims, ox + 7, 13, ox + 25, 31), player_outline_px());
    let b1 = paint(o1, filled_rect(ox + 8, 14, ox + 24, 30), player_body_px());
    let h1 = paint(b1, disc(ox + 16, 9, 7), player_head_px());
    let r1 = paint(h1, ring(ox + 16, 9, 8), player_outline_px());
    let c2 = paint(m2, wrapped_rect(ox, 0, ox + 31, 31), clear_px());
    let o2 = paint(c2, rect_outline(dims, ox + 7, 13, ox + 25, 31), player_outline_px());
    let b2 = paint(o2, filled_rect(ox + 8, 14, ox + 24, 30), player_body_px());
    let h2 = paint(b2, disc(ox + 16, 9, 7), player_head_px());
    let r2 = paint(h2, ring(ox + 16, 9, 8), player_outline_px());
    lemma_paint_at(m1, wrapped_rect(ox, 0, ox + 31, 31), clear_px(), p);
    lemma_paint_at(c1, rect_outline(dims, ox + 7, 13, ox + 25, 31), player_outline_px(), p);
    lemma_paint_at(o1, filled_rect(ox + 8, 14, ox + 24, 30), player_body_px(), p);
    lemma_paint_at(b1, disc(ox + 16, 9, 7), player_head_px(), p);
    lemma_paint_at(h1, ring(ox + 16, 9, 8), player_outline_px(), p);
    lemma_paint_at(r1, disc(ox + 16 + f.0, 9 + f.1, 2), player_outline_px(), p);
    lemma_paint_at(m2, wrapped_rect(ox, 0, ox + 31, 31), clear_px(), p);
    lemma_paint_at(c2, rect_outline(dims, ox + 7, 13, ox + 25, 31), player_outline_px(), p);
    lemma_paint_at(o2, filled_rect(ox + 8, 14, ox + 24, 30), player_body_px(), p);
    lemma_paint_at(b2, disc(ox + 16, 9, 7), player_head_px(), p);
    lemma_paint_at(h2, ring(ox + 16, 9, 8), player_outline_px(), p);
    lemma_paint_at(r2, disc(ox + 16 + f.0, 9 + f.1, 2), player_outline_px(), p);
}

/// Drawing a player frame at `(ox, oy)` of size `w` by `h` stays inside an
/// image of size `dims` and within `i32` arithmetic.
pub open spec fn player_frame_in_bounds(dims: (u32, u32), ox: int, oy: int, w: int, h: int) -> bool {
    &&& ox + 31 <= i32::MAX && (w > 0 && h > 0 ==> ox + w - 1 <= i32::MAX)
    &&& oy + 31 <= i32::MAX && (w > 0 && h > 0 ==> oy + h - 1 <= i32::MAX)
    &&& w > 0 && h > 0 ==> range_fits(ox, ox + w - 1, dims.0 as int) && range_fits(oy, oy + h - 1, dims.1 as int)
    &&& rect_in_bounds(dims, ox + 7, oy + 13, ox + 25, oy + 31)
}

/// Draws one frame of the player sheet at `(ox, oy)`, `w` by `h` pixels: the
/// frame area is cleared, then a body with an outline, a round head with an
/// outline, and a dot on the head towards the facing `facing_idx` (0 up, 1
/// down, 2 left, otherwise right).
pub fn draw_player_frame(img: &mut SpriteImage, ox: i32, oy: i32, w: i32, h: i32, facing_idx: u32)
    requires
        sprite_wf(*old(img)),
        player_frame_in_bounds(sprite_dims(*old(img)), ox as int, oy as int, w as int, h as int),
    ensures
        sprite_wf(*final(img)),
        sprite_dims(*final(img)) == sprite_dims(*old(img)),
        sprite_pixels(*final(img)) == player_frame(sprite_pixels(*old(img)), sprite_dims(*old(img)), ox as int, oy as int, w as int, h as int, facing_idx),
{
    let outline: [u8; 4] = [15, 20, 26, 255];
    let body: [u8; 4] = [40, 190, 255, 255];
    let head: [u8; 4] = [220, 245, 255, 255];
    let clear: [u8; 4] = [0, 0, 0, 0];
    let ghost m0 = sprite_pixels(*img);
    let ghost dims = sprite_dims(*img);
    let ghost cols = |a: int| wraps_into(a, ox as int, ox + w - 1);
    proof {
        lemma_paint_empty(m0, |a: int, b: int| cols(a) && wraps_into(b, oy as int, oy as int - 1), clear);
    }
    let mut y: i32 = 0;
    while y < h
        invariant
            0 <= y,
            y <= h || y == 0,
            player_frame_in_bounds(dims, ox as int, oy as int, w as int, h as int),
            cols == (|a: int| wraps_into(a, ox as int, ox + w - 1)),
            clear == clear_px(),
            sprite_wf(*img),
            sprite_dims(*img) == dims,
            m0.dom() == sprite_pixels(*img).dom(),
            sprite_pixels(*img) == paint(m0, |a: int, b: int| cols(a) && wraps_into(b, oy as int, oy + y - 1), clear),
        decreases h - y,
    {
        let ghost qy = wrap_u32(oy + y) as u32;
        let mut x: i32 = 0;
        proof {
            lemma_paint_same(m0,
                |a: int, b: int| cols(a) && wraps_into(b, oy as int, oy + y - 1),
                |a: int, b: int| cols(a) && (wraps_into(b, oy as int, oy + y - 1) || (b == qy && wraps_into(a, ox as int, ox + x - 1))),
                clear);
        }
        while x < w
            invariant
                0 <= y < h,
                0 <= x,
                x <= w || x == 0,
                0 <= oy + y ==> qy == oy + y,
                oy + y < 0 ==> qy == oy + y + 0x1_0000_0000,
                player_frame_in_bounds(dims, ox as int, oy as int, w as int, h as int),
                cols == (|a: int| wraps_into(a, ox as int, ox + w - 1)),
                clear == clear_px(),
                sprite_wf(*img),
                sprite_dims(*img) == dims,
                m0.dom() == sprite_pixels(*img).dom(),
                sprite_pixels(*img) == paint(m0,
                    |a: int, b: int| cols(a) && (wraps_into(b, oy as int, oy + y - 1) || (b == qy && wraps_into(a, ox as int, ox + x - 1))), clear),
            decreases w - x,
        {
            let px = ox + x;
            let py = oy + y;
            let qx = px as u32;
            proof {
                lemma_cast_u32(px);
                lemma_cast_u32(py);
                lemma_paint_grow(m0,
                    |a: int, b: int| cols(a) && (wraps_into(b, oy as int, oy + y - 1) || (b == qy && wraps_into(a, ox as int, ox + x - 1))),
                    |a: int, b: int| cols(a) && (wraps_into(b, oy as int, oy + y - 1) || (b == qy && wraps_into(a, ox as int, ox + x))),
                    clear, qx as int, qy as int);
            }
            img.put_pixel(qx, py as u32, clear);
            x = x + 1;
        }
        proof {
            lemma_paint_same(m0,
                |a: int, b: int| cols(a) && (wraps_into(b, oy as int, oy + y - 1) || (b == qy && wraps_into(a, ox as int, ox + x - 1))),
                |a: int, b: int| cols(a) && wraps_into(b, oy as int, oy + y),
                clear);
        }
        y = y + 1;
    }
    proof {
        lemma_paint_same(m0,
            |a: int, b: int| cols(a) && wraps_into(b, oy as int, oy + y - 1),
            wrapped_rect(ox as int, oy as int, ox + w - 1, oy + h - 1),
            clear);
    }
    let bx0 = ox + 8;
    let by0 = oy + 14;
    let bx1 = ox + 24;
    let by1 = oy + 30;
    rect(img, bx0 - 1, by0 - 1, bx1 + 1, by1 + 1, outline);
    rect_fill(img, bx0, by0, bx1, by1, body);
    circle_fill(img, ox + 16, oy + 9, 7, head);
    circle(img, ox + 16, oy + 9, 8, outline);
    let (fx, fy): (i32, i32) = if facing_idx == 0 {
        (0, -5)
    } else if facing_idx == 1 {
        (0, 5)
    } else if facing_idx == 2 {
        (-5, 0)
    } else {
        (5, 0)
    };
    circle_fill(img, ox + 16 + fx, oy + 9 + fy, 2, outline);
}

/// A blank image of the given size: every pixel transparent.
pub open spec fn blank(width: u32, height: u32) -> Map<(u32, u32), [u8; 4]> {
    Map::new(|p: (u32, u32)| p.0 < width && p.1 < height, |p: (u32, u32)| clear_px())
}

/// The player sheet after its first `n` frames are drawn, frame `i` at
/// `(32 * i, 0)` with facing `i`.
pub open spec fn player_sheet_upto(n: nat) -> Map<(u32, u32), [u8; 4]>
    decreases n,
{
    if n == 0 {
        blank(128, 32)
    } else {
        player_frame(player_sheet_upto((n - 1) as nat), (128u32, 32u32), 32 * (n - 1), 0, 32, 32, (n - 1) as u32)
    }
}

/// Draws the player sheet: four 32 by 32 frames in a row, facing up, down,
/// left and right.
pub fn draw_player_sheet() -> (img: SpriteImage)
    ensures
        sprite_wf(img),
        sprite_dims(img) == (128u32, 32u32),
        sprite_pixels(img) == player_sheet_upto(4),
{
    let mut img = SpriteImage::from_pixel(32 * 4, 32, [0, 0, 0, 0]);
    assert(sprite_pixels(img) =~= blank(128, 32));
    let mut i: i32 = 0;
    while i < 4
        invariant
            0 <= i <= 4,
            sprite_wf(img),
            sprite_dims(img) == (128u32, 32u32),
            sprite_pixels(img) == player_sheet_upto(i as nat),
        decreases 4 - i,
    {
        draw_player_frame(&mut img, i * 32, 0, 32, 32, i as u32);
        assert(player_sheet_upto((i + 1) as nat) == player_frame(player_sheet_upto(i as nat), (128u32, 32u32), 32 * i, 0, 32, 32, i as u32));
        i = i + 1;
    }
    img
}

/// The guide's outline colour.
pub open spec fn npc_outline_px() -> [u8; 4] { [26u8, 20u8, 15u8, 255u8] }

/// The guide's robe colour.
pub open spec fn npc_robe_px() -> [u8; 4] { [200u8, 150u8, 30u8, 255u8] }

/// The guide sprite: an outlined robe with an outlined hat.
pub open spec fn npc_sprite_pixels() -> Map<(u32, u32), [u8; 4]> {
    let body_outline = paint(blank(32, 32), rect_outline((32u32, 32u32), 6, 6, 26, 26), npc_outline_px());
    let body = paint(body_outline, filled_rect(8, 8, 24, 24), npc_robe_px());
    let hat = paint(body, filled_rect(10, 4, 22, 8), npc_robe_px());
    paint(hat, rect_outline((32u32, 32u32), 10, 4, 22, 8), npc_outline_px())
}

/// Draws the guide: a 32 by 32 outlined robe with an outlined hat.
pub fn draw_npc_sprite() -> (img: SpriteImage)
    ensures
        sprite_wf(img),
        sprite_dims(img) == (32u32, 32u32),
        sprite_pixels(img) == npc_sprite_pixels(),
{
    let mut img = SpriteImage::from_pixel(32, 32, [0, 0, 0, 0]);
    assert(sprite_pixels(img) =~= blank(32, 32));
    let outline: [u8; 4] = [26, 20, 15, 255];
    let robe: [u8; 4] = [200, 150, 30, 255];
    rect(&mut img, 6, 6, 26, 26, outline);
    rect_fill(&mut img, 8, 8, 24, 24, robe);
    rect_fill(&mut img, 10, 4, 22, 8, robe);
    rect(&mut img, 10, 4, 22, 8, outline);
    img
}

/// The slime's outline colour.
pub open spec fn slime_outline_px() -> [u8; 4] { [26u8, 10u8, 20u8, 255u8] }

/// The slime's body colour.
pub open spec fn slime_body_px() -> [u8; 4] { [200u8, 40u8, 140u8, 255u8] }

/// The slime sprite: an outlined round blob with two eyes.
pub open spec fn slime_sprite_pixels() -> Map<(u32, u32), [u8; 4]> {
    let blob = paint(blank(32, 32), disc(16, 16, 11), slime_body_px());
    let blob_outline = paint(blob, ring(16, 16, 12), slime_outline_px());
    let left_eye = paint(blob_outline, filled_rect(10, 14, 13, 16), slime_outline_px());
    paint(left_eye, filled_rect(19, 14, 22, 16), slime_outline_px())
}

/// Draws the slime: a 32 by 32 outlined round blob with two angry eyes.
pub fn draw_slime_sprite() -> (img: SpriteImage)
    ensures
        sprite_wf(img),
        sprite_dims(img) == (32u32, 32u32),
        sprite_pixels(img) == slime_sprite_pixels(),
{
    let mut img = SpriteImage::from_pixel(32, 32, [0, 0, 0, 0]);
    assert(sprite_pixels(img) =~= blank(32, 32));
    let outline: [u8; 4] = [26, 10, 20, 255];
    let body: [u8; 4] = [200, 40, 140, 255];
    circle_fill(&mut img, 16, 16, 11, body);
    circle(&mut img, 16, 16, 12, outline);
    rect_fill(&mut img, 10, 14, 13, 16, outline);
    rect_fill(&mut img, 19, 14, 22, 16, outline);
    img
}

} // verus!
