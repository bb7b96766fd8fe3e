//! Geometry of the panel's live elements: where text lands for each anchor,
//! the background patch re-sent under an element, and the bands the first
//! full frame is sent in.
use vstd::prelude::*;
use crate::frame::{Frame, fill_rect, max_i, min_i};
use crate::text::chars_of;

verus! {

/// The panel is 320 pixels wide and 480 high.
pub const WIDTH: u32 = 320;
pub const HEIGHT: u32 = 480;

pub open spec fn clamp_i(v: int, lo: int, hi: int) -> int {
    if v < lo {
        lo
    } else if v > hi {
        hi
    } else {
        v
    }
}

/// The patch of background under an element: `w` x `h` pixels from `(x, y)`,
/// coordinates clamped to the panel; at least 1 x 1.
pub open spec fn portion_of(bg: Frame, x: int, y: int, w: nat, h: nat, out: Frame) -> bool {
    &&& out.wf()
    &&& out.w() == if w >= 1 { w } else { 1 }
    &&& out.h() == if h >= 1 { h } else { 1 }
    &&& forall|px: int, py: int|
        #![trigger out.pixel(px, py)]
        out.in_bounds(px, py) ==> out.pixel(px, py) == if px < w && py < h {
            bg.pixel(clamp_i(x + px, 0, WIDTH - 1), clamp_i(y + py, 0, HEIGHT - 1))
        } else {
            [0u8, 0u8, 0u8]
        }
}

/// The background patch under an element shows the background pixel at the
/// same place on the panel: pixel `(px, py)` of the patch is the panel's pixel
/// `(x + px, y + py)`, and a place off the panel takes the nearest edge
/// column (0 or 319) and row (0 or 479).
pub proof fn patch_shows_the_background_beneath(bg: Frame, x: int, y: int, w: nat, h: nat, out: Frame, px: int, py: int)
    requires
        portion_of(bg, x, y, w, h, out),
        0 <= px < w,
        0 <= py < h,
    ensures
        ({
            let bx = if x + px < 0 { 0 } else if x + px > 319 { 319 } else { x + px };
            let by = if y + py < 0 { 0 } else if y + py > 479 { 479 } else { y + py };
            out.pixel(px, py) == bg.pixel(bx, by)
        }),
        out.w() == w && out.h() == h,
{
}

/// Copies the background under an element so it can be drawn on and re-sent.
pub fn bg_portion(bg: &Frame, x: i32, y: i32, w: u32, h: u32) -> (out: Frame)
    requires
        bg.wf(),
        bg.w() >= WIDTH,
        bg.h() >= HEIGHT,
        (if w >= 1 { w as int } else { 1 }) * (if h >= 1 { h as int } else { 1 }) * 3 <= usize::MAX,
    ensures
        portion_of(*bg, x as int, y as int, w as nat, h as nat, out),
{
    let ow = if w > 1 { w } else { 1 };
    let oh = if h > 1 { h } else { 1 };
    let mut img = Frame::new(ow, oh);
    let ghost blank = img;
    let mut py: u32 = 0;
    while py < h
        invariant
            py <= h,
            bg.wf(),
            bg.w() >= WIDTH,
            bg.h() >= HEIGHT,
            img.wf(),
            img.w() == ow,
            img.h() == oh,
            ow == if w >= 1 { w } else { 1 },
            oh == if h >= 1 { h } else { 1 },
            blank.wf() && blank.w() == ow && blank.h() == oh,
            forall|i: int| 0 <= i < blank.bytes().len() ==> blank.bytes()[i] == 0,
            forall|px: int, qy: int|
                #![trigger img.pixel(px, qy)]
                img.in_bounds(px, qy) ==> img.pixel(px, qy) == if px < w && qy < py {
                    bg.pixel(clamp_i(x + px, 0, WIDTH - 1), clamp_i(y + qy, 0, HEIGHT - 1))
                } else {
                    blank.pixel(px, qy)
                },
        decreases h - py,
    {
        let mut px: u32 = 0;
        while px < w
            invariant
                py < h,
                px <= w,
                bg.wf(),
                bg.w() >= WIDTH,
                bg.h() >= HEIGHT,
                img.wf(),
                img.w() == ow,
                img.h() == oh,
                ow == if w >= 1 { w } else { 1 },
                oh == if h >= 1 { h } else { 1 },
                forall|qx: int, qy: int|
                    #![trigger img.pixel(qx, qy)]
                    img.in_bounds(qx, qy) ==> img.pixel(qx, qy) == if qx < w && (qy < py || (qy == py
                        && qx < px)) {
                        bg.pixel(clamp_i(x + qx, 0, WIDTH - 1), clamp_i(y + qy, 0, HEIGHT - 1))
                    } else {
                        blank.pixel(qx, qy)
                    },
            decreases w - px,
        {
            let bx64 = x as i64 + px as i64;
            let by64 = y as i64 + py as i64;
            let bx = if bx64 < 0 { 0 } else if bx64 > (WIDTH - 1) as i64 { WIDTH - 1 } else { bx64 as u32 };
            let by = if by64 < 0 { 0 } else if by64 > (HEIGHT - 1) as i64 { HEIGHT - 1 } else { by64 as u32 };
            let p = bg.get_pixel(bx, by);
            img.put_pixel(px, py, p);
            px += 1;
        }
        py += 1;
    }
    assert forall|px: int, qy: int| #![trigger img.pixel(px, qy)] img.in_bounds(px, qy) && !(px < w && qy < h) implies img.pixel(px, qy) == [0u8, 0u8, 0u8] by {
        crate::frame::lemma_pixel_offset_bounds(ow as int, oh as int, px, qy);
        crate::frame::lemma_wf_len(blank);
        let o = crate::frame::pixel_offset(ow as int, px, qy);
        assert(blank.bytes()[o] == 0 && blank.bytes()[o + 1] == 0 && blank.bytes()[o + 2] == 0);
        assert(img.pixel(px, qy) == blank.pixel(px, qy));
        assert(blank.pixel(px, qy) =~= [0u8, 0u8, 0u8]);
    }
    img
}

/// The first two characters of an anchor such as `"rt"`: horizontal (`l`,
/// `m`, `r`) and vertical (`t`, `m`, `b`), defaulting to left and top.
pub open spec fn anchor_h(anchor: Seq<char>) -> char {
    if anchor.len() > 0 {
        anchor[0]
    } else {
        'l'
    }
}

pub open spec fn anchor_v(anchor: Seq<char>) -> char {
    if anchor.len() > 1 {
        anchor[1]
    } else {
        't'
    }
}

fn anchor_chars(anchor: &str) -> (r: (char, char))
    ensures
        r.0 == anchor_h(anchor@),
        r.1 == anchor_v(anchor@),
{
    let c = chars_of(anchor);
    let h = if c.len() > 0 { c[0] } else { 'l' };
    let v = if c.len() > 1 { c[1] } else { 't' };
    (h, v)
}

/// Truncating division by two, as `/ 2` on `i32`.
pub open spec fn half(v: int) -> int {
    if v >= 0 {
        v / 2
    } else {
        -((-v) / 2)
    }
}

/// The top-left corner of a `tw` x `th` text box whose anchor point is `(x, y)`.
pub open spec fn anchored(x: int, y: int, tw: int, th: int, anchor: Seq<char>) -> (int, int) {
    (
        match anchor_h(anchor) {
            'r' => x - tw,
            'm' => x - half(tw),
            _ => x,
        },
        match anchor_v(anchor) {
            'b' => y - th,
            'm' => y - half(th),
            _ => y,
        },
    )
}

/// Places a text box by its anchor point.
pub fn anchor_offset(x: i32, y: i32, tw: u32, th: u32, anchor: &str) -> (r: (i32, i32))
    requires
        tw <= i32::MAX,
        th <= i32::MAX,
        i32::MIN <= x - tw,
        i32::MIN <= y - th,
    ensures
        (r.0 as int, r.1 as int) == anchored(x as int, y as int, tw as int, th as int, anchor@),
{
    let (ha, va) = anchor_chars(anchor);
    let tw_i = tw as i32;
    let th_i = th as i32;
    let dx = match ha {
        'r' => x - tw_i,
        'm' => x - tw_i / 2,
        _ => x,
    };
    let dy = match va {
        'b' => y - th_i,
        'm' => y - th_i / 2,
        _ => y,
    };
    (dx, dy)
}

/// Width added to every text patch so that a shorter value wipes out a longer one.
pub const TEXT_PAD: u32 = 40;

/// Where a live text value is drawn: the patch's corner on the panel, its
/// width, and the text's offset inside it.
pub struct TextPlacement {
    pub draw_x: i32,
    pub draw_y: i32,
    pub portion_w: u32,
    pub text_offset_x: i32,
}

/// The patch for a `w` x `h` text whose anchor point is `(x, y)`: the pad
/// goes on the side away from the anchor, and the patch is kept on the panel
/// (corner at least 0).
pub open spec fn placement(x: int, y: int, w: int, h: int, anchor: Seq<char>) -> (int, int, int, int) {
    let padded = w + TEXT_PAD;
    (
        max_i(
            match anchor_h(anchor) {
                'r' => x - padded,
                'm' => x - half(padded),
                _ => x,
            },
            0,
        ),
        max_i(
            match anchor_v(anchor) {
                'b' => y - h,
                'm' => y - half(h),
                _ => y,
            },
            0,
        ),
        padded,
        match anchor_h(anchor) {
            'r' => TEXT_PAD as int,
            'm' => (TEXT_PAD / 2) as int,
            _ => 0,
        },
    )
}

pub fn text_placement(x: i32, y: i32, w: u32, h: u32, anchor: &str) -> (p: TextPlacement)
    requires
        w + TEXT_PAD <= i32::MAX,
        h <= i32::MAX,
        i32::MIN <= x - (w + TEXT_PAD),
        i32::MIN <= y - h,
    ensures
        (p.draw_x as int, p.draw_y as int, p.portion_w as int, p.text_offset_x as int) == placement(
            x as int,
            y as int,
            w as int,
            h as int,
            anchor@,
        ),
{
    let (ha, va) = anchor_chars(anchor);
    let padded = (w + TEXT_PAD) as i32;
    let hi = h as i32;
    let raw_x = match ha {
        'r' => x - padded,
        'm' => x - padded / 2,
        _ => x,
    };
    let raw_y = match va {
        'b' => y - hi,
        'm' => y - hi / 2,
        _ => y,
    };
    let off: i32 = match ha {
        'r' => TEXT_PAD as i32,
        'm' => (TEXT_PAD / 2) as i32,
        _ => 0,
    };
    TextPlacement {
        draw_x: if raw_x > 0 { raw_x } else { 0 },
        draw_y: if raw_y > 0 { raw_y } else { 0 },
        portion_w: w + TEXT_PAD,
        text_offset_x: off,
    }
}

/// Where a text box lands relative to its anchor point `(x, y)`: the first
/// character of the anchor puts the point at the box's left edge (`l` and
/// anything else), right edge (`r`) or horizontal middle (`m`, the box
/// extending at most one pixel further right than left); the second puts it
/// at the box's top (`t` and anything else), bottom (`b`) or vertical middle
/// (`m`, at most one pixel further down than up).
pub proof fn anchored_box_meets_its_anchor(x: int, y: int, tw: int, th: int, anchor: Seq<char>)
    requires
        tw >= 0,
        th >= 0,
    ensures
        ({
            let (left, top) = anchored(x, y, tw, th, anchor);
            let ha = if anchor.len() > 0 { anchor[0] } else { 'l' };
            let va = if anchor.len() > 1 { anchor[1] } else { 't' };
            &&& ha == 'r' ==> left + tw == x
            &&& ha == 'm' ==> 0 <= (left + tw - x) - (x - left) <= 1
            &&& (ha != 'r' && ha != 'm') ==> left == x
            &&& va == 'b' ==> top + th == y
            &&& va == 'm' ==> 0 <= (top + th - y) - (y - top) <= 1
            &&& (va != 'b' && va != 'm') ==> top == y
        }),
{
}

/// A live text value's patch: it is the text's width plus the pad, it lies
/// on the panel (corner at least 0), the text sits inside it, and where the
/// anchor leaves the patch on the panel the text meets its anchor point as
/// `anchored_box_meets_its_anchor` says: left edge, right edge or horizontal
/// middle at `x`, and top, bottom or vertical middle at `y` (a middle anchor
/// centres the patch on `y`, never lifting it a whole text height as a bottom
/// anchor does).
pub proof fn text_patch_meets_its_anchor(x: int, y: int, w: int, h: int, anchor: Seq<char>)
    requires
        w >= 0,
        h >= 0,
    ensures
        ({
            let (dx, dy, pw, off) = placement(x, y, w, h, anchor);
            let ha = if anchor.len() > 0 { anchor[0] } else { 'l' };
            let va = if anchor.len() > 1 { anchor[1] } else { 't' };
            let tl = dx + off;
            &&& dx >= 0 && dy >= 0
            &&& pw == w + TEXT_PAD
            &&& 0 <= off && off + w <= pw
            &&& x >= w + TEXT_PAD ==> {
                &&& ha == 'r' ==> tl + w == x
                &&& ha == 'm' ==> 0 <= (tl + w - x) - (x - tl) <= 1
                &&& (ha != 'r' && ha != 'm') ==> tl == x
            }
            &&& y >= h ==> {
                &&& va == 'b' ==> dy + h == y
                &&& va == 'm' ==> 0 <= (dy + h - y) - (y - dy) <= 1
                &&& (va != 'b' && va != 'm') ==> dy == y
            }
        }),
{
}

/// Horizontal bands of `band` rows covering `height` rows, top to bottom;
/// the last one may be shorter.
pub open spec fn bands_of(height: nat, band: nat, from: nat) -> Seq<(nat, nat)>
    decreases (if from >= height { 0 } else { height - from }),
{
    if from >= height || band == 0 {
        seq![]
    } else {
        seq![(from, min_i(band as int, height - from) as nat)] + bands_of(height, band, from + band)
    }
}

/// Splits the panel's height into the bands the first full frame is sent in.
pub fn background_bands(height: u32, band: u32) -> (r: Vec<(u32, u32)>)
    requires
        band > 0,
        height + band <= u32::MAX,
    ensures
        r@.map_values(|b: (u32, u32)| (b.0 as nat, b.1 as nat)) == bands_of(height as nat, band as nat, 0),
{
    let mut r: Vec<(u32, u32)> = Vec::new();
    let mut y: u32 = 0;
    assert(r@.map_values(|b: (u32, u32)| (b.0 as nat, b.1 as nat)) + bands_of(height as nat, band as nat, 0)
        =~= bands_of(height as nat, band as nat, 0));
    while y < height
        invariant
            band > 0,
            height + band <= u32::MAX,
            y <= height + band,
            r@.map_values(|b: (u32, u32)| (b.0 as nat, b.1 as nat)) + bands_of(height as nat, band as nat, y as nat)
                == bands_of(height as nat, band as nat, 0),
        decreases height + band - y,
    {
        let h = if band < height - y { band } else { height - y };
        let ghost prev = r@.map_values(|b: (u32, u32)| (b.0 as nat, b.1 as nat));
        r.push((y, h));
        assert(r@.map_values(|b: (u32, u32)| (b.0 as nat, b.1 as nat)) =~= prev.push((y as nat, h as nat)));
        assert(bands_of(height as nat, band as nat, y as nat) == seq![(y as nat, h as nat)] + bands_of(
            height as nat,
            band as nat,
            (y + band) as nat,
        ));
        assert(prev.push((y as nat, h as nat)) + bands_of(height as nat, band as nat, (y + band) as nat)
            =~= prev + bands_of(height as nat, band as nat, y as nat));
        y = y + band;
    }
    assert(bands_of(height as nat, band as nat, y as nat) =~= Seq::<(nat, nat)>::empty());
    assert(r@.map_values(|b: (u32, u32)| (b.0 as nat, b.1 as nat)) + Seq::<(nat, nat)>::empty()
        =~= r@.map_values(|b: (u32, u32)| (b.0 as nat, b.1 as nat)));
    r
}

/// The bands cover every row exactly once: band `k` starts where band `k - 1`
/// ends, the first starts at `from`, none is empty or taller than `band`, and
/// the last ends at `height`.
pub proof fn bands_tile(height: nat, band: nat, from: nat)
    requires
        band > 0,
        from <= height,
    ensures
        bands_of(height, band, from).len() > 0 ==> bands_of(height, band, from)[0].0 == from,
        forall|k: int|
            0 <= k < bands_of(height, band, from).len() ==> 0 < #[trigger] bands_of(height, band, from)[k].1
                <= band,
        forall|k: int|
            0 < k < bands_of(height, band, from).len() ==> #[trigger] bands_of(height, band, from)[k].0
                == bands_of(height, band, from)[k - 1].0 + bands_of(height, band, from)[k - 1].1,
        bands_of(height, band, from).len() > 0 ==> bands_of(height, band, from).last().0 + bands_of(
            height,
            band,
            from,
        ).last().1 == height,
        bands_of(height, band, from).len() == 0 <==> from == height,
    decreases height - from,
{
    if from < height {
        let b = bands_of(height, band, from);
        let next = from + band;
        if next <= height {
            bands_tile(height, band, next);
        } else {
            assert(bands_of(height, band, next) =~= Seq::<(nat, nat)>::empty());
        }
        let rest = bands_of(height, band, next);
        assert(b == seq![(from, min_i(band as int, height - from) as nat)] + rest);
        assert forall|k: int| 0 < k < b.len() implies #[trigger] b[k].0 == b[k - 1].0 + b[k - 1].1 by {
            assert(b[k] == rest[k - 1]);
            if k > 1 {
                assert(b[k - 1] == rest[k - 2]);
            }
        }
        assert forall|k: int| 0 <= k < b.len() implies 0 < #[trigger] b[k].1 <= band by {
            if k > 0 {
                assert(b[k] == rest[k - 1]);
            }
        }
    }
}

/// Whether pixel `(x, y)` of the 32 x 32 tray icon lies on its disc: its
/// centre is within 16 pixels of the icon's centre, i.e.
/// `(2x - 31)² + (2y - 31)² <= 32²`.
pub open spec fn on_icon_disc(x: int, y: int) -> bool {
    (2 * x - 31) * (2 * x - 31) + (2 * y - 31) * (2 * y - 31) <= 1024
}

/// Byte `i` of the tray icon's RGBA pixels, row by row: the theme's purple on
/// the disc, transparent elsewhere.
pub open spec fn icon_byte(i: int) -> u8 {
    let p = i / 4;
    let c = i % 4;
    if on_icon_disc(p % 32, p / 32) {
        if c == 0 {
            180u8
        } else if c == 1 {
            80u8
        } else {
            255u8
        }
    } else {
        0u8
    }
}

/// The tray icon: a purple disc on a transparent 32 x 32 square, as RGBA bytes.
pub fn tray_icon_rgba() -> (v: Vec<u8>)
    ensures
        v@.len() == 32 * 32 * 4,
        forall|i: int| 0 <= i < v@.len() ==> v@[i] == icon_byte(i),
{
    let mut v: Vec<u8> = Vec::new();
    let mut p: u32 = 0;
    while p < 1024
        invariant
            p <= 1024,
            v@.len() == 4 * p,
            forall|i: int| 0 <= i < v@.len() ==> v@[i] == icon_byte(i),
        decreases 1024 - p,
    {
        let x = (p % 32) as i32;
        let y = (p / 32) as i32;
        let dx = 2 * x - 31;
        let dy = 2 * y - 31;
        assert(-31 <= dx <= 31 && -31 <= dy <= 31);
        assert(0 <= dx * dx <= 961 && 0 <= dy * dy <= 961) by (nonlinear_arith)
            requires
                -31 <= dx <= 31,
                -31 <= dy <= 31,
        ;
        let inside = dx * dx + dy * dy <= 1024;
        let ghost base = 4 * p as int;
        assert(on_icon_disc((p % 32) as int, (p / 32) as int) == inside);
        if inside {
            v.push(180);
            v.push(80);
            v.push(255);
            v.push(255);
        } else {
            v.push(0);
            v.push(0);
            v.push(0);
            v.push(0);
        }
        assert forall|i: int| 0 <= i < v@.len() implies v@[i] == icon_byte(i) by {
            if i >= base {
                assert(i / 4 == p as int);
                assert(i % 4 == i - base);
            }
        }
        p += 1;
    }
    v
}

/// Whether `(px, py)` lies on the rim of a `w` x `h` box.
pub open spec fn on_rim(px: int, py: int, w: int, h: int) -> bool {
    0 <= px < w && 0 <= py < h && (px == 0 || px == w - 1 || py == 0 || py == h - 1)
}

/// Whether pixel `(a, b)` is painted by the outline of the `w` x `h` box at
/// `(x, y)`: some rim point lands there once negative coordinates are raised to 0.
pub open spec fn outline_hits(x: int, y: int, w: int, h: int, a: int, b: int) -> bool {
    exists|px: int, py: int| #[trigger] on_rim(px, py, w, h) && max_i(x + px, 0) == a && max_i(y + py, 0) == b
}

/// The same pixels, as the four clamped sides of the box.
pub open spec fn on_sides(x: int, y: int, w: int, h: int, a: int, b: int) -> bool {
    let x0 = max_i(x, 0);
    let x1 = max_i(x + w - 1, 0);
    let y0 = max_i(y, 0);
    let y1 = max_i(y + h - 1, 0);
    w > 0 && h > 0 && (((b == y0 || b == y1) && x0 <= a <= x1) || ((a == x0 || a == x1) && y0 <= b <= y1))
}

/// The outline's pixels are exactly its four sides after raising negative
/// coordinates to 0: the top and bottom rows and the left and right columns.
pub proof fn outline_is_four_sides(x: int, y: int, w: int, h: int, a: int, b: int)
    ensures
        outline_hits(x, y, w, h, a, b) <==> on_sides(x, y, w, h, a, b),
{
    if outline_hits(x, y, w, h, a, b) {
        let (px, py) = choose|px: int, py: int|
            #[trigger] on_rim(px, py, w, h) && max_i(x + px, 0) == a && max_i(y + py, 0) == b;
        assert(on_sides(x, y, w, h, a, b));
    }
    if on_sides(x, y, w, h, a, b) {
        let y0 = max_i(y, 0);
        let y1 = max_i(y + h - 1, 0);
        let x0 = max_i(x, 0);
        let x1 = max_i(x + w - 1, 0);
        let px = if a == 0 && x < 0 { 0 } else { a - x };
        let py = if b == 0 && y < 0 { 0 } else { b - y };
        if (b == y0 || b == y1) && x0 <= a <= x1 {
            let qy = if b == y0 { 0 } else { h - 1 };
            assert(max_i(y + qy, 0) == b);
            assert(on_rim(px, qy, w, h) && max_i(x + px, 0) == a);
        } else {
            let qx = if a == x0 { 0 } else { w - 1 };
            assert(max_i(x + qx, 0) == a);
            assert(on_rim(qx, py, w, h) && max_i(y + py, 0) == b);
        }
    }
}

/// The raster after drawing the outline of the `w` x `h` box at `(x, y)`.
pub open spec fn outlined(before: Frame, after: Frame, x: int, y: int, w: int, h: int, color: [u8; 3]) -> bool {
    &&& after.wf()
    &&& after.w() == before.w()
    &&& after.h() == before.h()
    &&& forall|a: int, b: int|
        #![trigger after.pixel(a, b)]
        before.in_bounds(a, b) ==> after.pixel(a, b) == if outline_hits(x, y, w, h, a, b) {
            color
        } else {
            before.pixel(a, b)
        }
}

/// Draws the one-pixel outline of the `w` x `h` box at `(x, y)`; rim points left
/// or above the raster are drawn on its first column or row, the rest is clipped.
/// This is how the preview marks an icon slot when it has no icon to show.
pub fn draw_outline(img: &mut Frame, x: i32, y: i32, w: u32, h: u32, color: [u8; 3])
    requires
        old(img).wf(),
        w <= i32::MAX,
        h <= i32::MAX,
        x + w - 1 <= i32::MAX,
        y + h - 1 <= i32::MAX,
    ensures
        outlined(*old(img), *final(img), x as int, y as int, w as int, h as int, color),
{
    let ghost before = *img;
    if w == 0 || h == 0 {
        assert forall|a: int, b: int| #![trigger img.pixel(a, b)] before.in_bounds(a, b) implies img.pixel(a, b)
            == if outline_hits(x as int, y as int, w as int, h as int, a, b) {
            color
        } else {
            before.pixel(a, b)
        } by {
            outline_is_four_sides(x as int, y as int, w as int, h as int, a, b);
        }
        return;
    }
    let xl = x as i64;
    let yl = y as i64;
    let x0: i64 = if xl > 0 { xl } else { 0 };
    let x1: i64 = if xl + w as i64 - 1 > 0 { xl + w as i64 - 1 } else { 0 };
    let y0: i64 = if yl > 0 { yl } else { 0 };
    let y1: i64 = if yl + h as i64 - 1 > 0 { yl + h as i64 - 1 } else { 0 };
    fill_rect(img, x0, y0, x1 - x0 + 1, 1, color);
    let ghost s1 = *img;
    fill_rect(img, x0, y1, x1 - x0 + 1, 1, color);
    let ghost s2 = *img;
    fill_rect(img, x0, y0, 1, y1 - y0 + 1, color);
    let ghost s3 = *img;
    fill_rect(img, x1, y0, 1, y1 - y0 + 1, color);
    assert forall|a: int, b: int| #![trigger img.pixel(a, b)] before.in_bounds(a, b) implies img.pixel(a, b)
        == if outline_hits(x as int, y as int, w as int, h as int, a, b) {
        color
    } else {
        before.pixel(a, b)
    } by {
        outline_is_four_sides(x as int, y as int, w as int, h as int, a, b);
        assert(s1.pixel(a, b) == s1.pixel(a, b));
        assert(s2.pixel(a, b) == s2.pixel(a, b));
        assert(s3.pixel(a, b) == s3.pixel(a, b));
    }
}

} // verus!
