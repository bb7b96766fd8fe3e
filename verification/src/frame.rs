//! An RGB8 raster held as plain bytes, row-major, three bytes per pixel.
use vstd::prelude::*;

verus! {

/// Byte offset of pixel `(x, y)` in a raster `width` pixels wide.
pub open spec fn pixel_offset(width: int, x: int, y: int) -> int {
    (y * width + x) * 3
}

/// The offset of an in-bounds pixel leaves room for its three bytes.
pub proof fn lemma_pixel_offset_bounds(width: int, height: int, x: int, y: int)
    requires
        0 <= x < width,
        0 <= y < height,
    ensures
        0 <= pixel_offset(width, x, y),
        pixel_offset(width, x, y) + 3 <= width * height * 3,
{
    assert(0 <= y * width) by (nonlinear_arith)
        requires 0 <= y, 0 <= width;
    assert(y * width + x + 1 <= width * height) by (nonlinear_arith)
        requires 0 <= x < width, 0 <= y < height;
}

/// Distinct pixels own disjoint byte triples.
pub proof fn lemma_pixel_offset_distinct(width: int, x1: int, y1: int, x2: int, y2: int)
    requires
        0 <= x1 < width,
        0 <= x2 < width,
        0 <= y1,
        0 <= y2,
        x1 != x2 || y1 != y2,
    ensures
        pixel_offset(width, x1, y1) + 3 <= pixel_offset(width, x2, y2)
            || pixel_offset(width, x2, y2) + 3 <= pixel_offset(width, x1, y1),
{
    if y1 == y2 {
    } else if y1 < y2 {
        assert(y1 * width + width <= y2 * width) by (nonlinear_arith)
            requires y1 < y2, 0 <= width;
    } else {
        assert(y2 * width + width <= y1 * width) by (nonlinear_arith)
            requires y2 < y1, 0 <= width;
    }
}

/// The byte buffer of a well-formed raster holds three bytes per pixel.
pub proof fn lemma_wf_len(f: Frame)
    requires
        f.wf(),
    ensures
        f.bytes().len() == f.w() * f.h() * 3,
{
}

pub struct Frame {
    width: u32,
    height: u32,
    data: Vec<u8>,
}

impl Frame {
    /// The byte buffer holds exactly three bytes per pixel.
    pub closed spec fn wf(&self) -> bool {
        self.data@.len() == self.width * self.height * 3
    }

    pub closed spec fn w(&self) -> nat {
        self.width as nat
    }

    pub closed spec fn h(&self) -> nat {
        self.height as nat
    }

    /// The raw bytes, row-major, `[r, g, b]` per pixel.
    pub closed spec fn bytes(&self) -> Seq<u8> {
        self.data@
    }

    /// The colour of pixel `(x, y)` (meaningful for in-bounds pixels).
    pub open spec fn pixel(&self, x: int, y: int) -> [u8; 3] {
        let o = pixel_offset(self.w() as int, x, y);
        [self.bytes()[o], self.bytes()[o + 1], self.bytes()[o + 2]]
    }

    pub open spec fn in_bounds(&self, x: int, y: int) -> bool {
        0 <= x < self.w() && 0 <= y < self.h()
    }

    /// A black raster of the given size.
    pub fn new(width: u32, height: u32) -> (f: Frame)
        requires
            width * height * 3 <= usize::MAX,
        ensures
            f.wf(),
            f.w() == width,
            f.h() == height,
            forall|i: int| 0 <= i < f.bytes().len() ==> f.bytes()[i] == 0,
    {
        let n = width as usize * height as usize * 3;
        let data = vec![0u8; n];
        Frame { width, height, data }
    }

    /// Wraps raw row-major RGB bytes; `None` when their number does not match the size.
    pub fn from_raw(width: u32, height: u32, data: Vec<u8>) -> (f: Option<Frame>)
        ensures
            f is Some <==> data@.len() == width * height * 3,
            f matches Some(fr) ==> fr.wf() && fr.w() == width && fr.h() == height && fr.bytes() == data@,
    {
        assert((width as u128) * (height as u128) * 3 <= u128::MAX) by (nonlinear_arith)
            requires width <= u32::MAX, height <= u32::MAX;
        if (width as u128) * (height as u128) * 3 == data.len() as u128 {
            Some(Frame { width, height, data })
        } else {
            None
        }
    }

    pub fn width(&self) -> (r: u32)
        ensures
            r == self.w(),
    {
        self.width
    }

    pub fn height(&self) -> (r: u32)
        ensures
            r == self.h(),
    {
        self.height
    }

    pub fn as_raw(&self) -> (r: &Vec<u8>)
        requires
            self.wf(),
        ensures
            r@ == self.bytes(),
            r@.len() == self.w() * self.h() * 3,
    {
        &self.data
    }

    pub fn into_raw(self) -> (r: Vec<u8>)
        ensures
            r@ == self.bytes(),
    {
        self.data
    }

    pub fn get_pixel(&self, x: u32, y: u32) -> (p: [u8; 3])
        requires
            self.wf(),
            x < self.w(),
            y < self.h(),
        ensures
            p == self.pixel(x as int, y as int),
    {
        proof {
            lemma_pixel_offset_bounds(self.width as int, self.height as int, x as int, y as int);
        }
        let len = self.data.len();
        proof {
            assert(y * self.width <= y * self.width + x);
        }
        let o = ((y as usize) * (self.width as usize) + (x as usize)) * 3;
        [self.data[o], self.data[o + 1], self.data[o + 2]]
    }

    pub fn put_pixel(&mut self, x: u32, y: u32, p: [u8; 3])
        requires
            old(self).wf(),
            x < old(self).w(),
            y < old(self).h(),
        ensures
            final(self).wf(),
            final(self).w() == old(self).w(),
            final(self).h() == old(self).h(),
            final(self).pixel(x as int, y as int) == p,
            forall|qx: int, qy: int|
                #![trigger final(self).pixel(qx, qy)]
                old(self).in_bounds(qx, qy) && (qx != x || qy != y) ==> final(self).pixel(qx, qy)
                    == old(self).pixel(qx, qy),
    {
        proof {
            lemma_pixel_offset_bounds(self.width as int, self.height as int, x as int, y as int);
        }
        let len = self.data.len();
        proof {
            assert(y * self.width <= y * self.width + x);
        }
        let o = ((y as usize) * (self.width as usize) + (x as usize)) * 3;
        let ghost w = self.width as int;
        let ghost before = self.data@;
        self.data.set(o, p[0]);
        self.data.set(o + 1, p[1]);
        self.data.set(o + 2, p[2]);
        proof {
            assert forall|qx: int, qy: int|
                #![trigger self.pixel(qx, qy)]
                0 <= qx < w && 0 <= qy < self.height && (qx != x || qy != y) implies self.pixel(qx, qy)
                    == old(self).pixel(qx, qy) by {
                lemma_pixel_offset_distinct(w, qx, qy, x as int, y as int);
                lemma_pixel_offset_bounds(w, self.height as int, qx, qy);
            }
            assert(self.pixel(x as int, y as int) =~= p);
        }
    }
}

} // verus!

verus! {

pub open spec fn max_i(a: int, b: int) -> int {
    if a >= b {
        a
    } else {
        b
    }
}

pub open spec fn min_i(a: int, b: int) -> int {
    if a <= b {
        a
    } else {
        b
    }
}

/// The raster after painting `color` into the rectangle `x..x+w` by `y..y+h`,
/// clipped to the raster.
pub open spec fn rect_filled(before: Frame, after: Frame, x: int, y: int, w: int, h: int, color: [u8; 3]) -> bool {
    &&& after.wf()
    &&& after.w() == before.w()
    &&& after.h() == before.h()
    &&& forall|px: int, py: int|
        #![trigger after.pixel(px, py)]
        before.in_bounds(px, py) ==> after.pixel(px, py) == if x <= px < x + w && y <= py < y + h {
            color
        } else {
            before.pixel(px, py)
        }
}

/// Paints a rectangle, clipped to the raster.
pub fn fill_rect(img: &mut Frame, x: i64, y: i64, w: i64, h: i64, color: [u8; 3])
    requires
        old(img).wf(),
        -0x1_0000_0000 <= x <= 0x1_0000_0000,
        -0x1_0000_0000 <= y <= 0x1_0000_0000,
        -0x1_0000_0000 <= w <= 0x1_0000_0000,
        -0x1_0000_0000 <= h <= 0x1_0000_0000,
    ensures
        rect_filled(*old(img), *final(img), x as int, y as int, w as int, h as int, color),
{
    let iw = img.width() as i64;
    let ih = img.height() as i64;
    let x0 = if x > 0 { x } else { 0 };
    let y0 = if y > 0 { y } else { 0 };
    let x1 = if x + w < iw { x + w } else { iw };
    let y1 = if y + h < ih { y + h } else { ih };
    let ghost before = *img;
    let mut py = y0;
    while py < y1
        invariant
            0 <= y0 <= py,
            y1 <= ih,
            x1 <= iw,
            0 <= x0,
            x0 == max_i(x as int, 0),
            y0 == max_i(y as int, 0),
            x1 == min_i(x + w, iw as int),
            y1 == min_i(y + h, ih as int),
            iw == before.w(),
            ih == before.h(),
            img.wf(),
            img.w() == before.w(),
            img.h() == before.h(),
            forall|px: int, qy: int|
                #![trigger img.pixel(px, qy)]
                before.in_bounds(px, qy) ==> img.pixel(px, qy) == if x <= px < x + w && y <= qy < y + h
                    && qy < py {
                    color
                } else {
                    before.pixel(px, qy)
                },
        decreases y1 - py,
    {
        let mut px = x0;
        while px < x1
            invariant
                0 <= y0 <= py < y1 <= ih,
                x1 <= iw,
                0 <= x0 <= px,
                x0 == max_i(x as int, 0),
                y0 == max_i(y as int, 0),
                x1 == min_i(x + w, iw as int),
                y1 == min_i(y + h, ih as int),
                iw == before.w(),
                ih == before.h(),
                img.wf(),
                img.w() == before.w(),
                img.h() == before.h(),
                forall|qx: int, qy: int|
                    #![trigger img.pixel(qx, qy)]
                    before.in_bounds(qx, qy) ==> img.pixel(qx, qy) == if x <= qx < x + w && y <= qy < y
                        + h && (qy < py || (qy == py && qx < px)) {
                        color
                    } else {
                        before.pixel(qx, qy)
                    },
            decreases x1 - px,
        {
            img.put_pixel(px as u32, py as u32, color);
            px += 1;
        }
        py += 1;
    }
}

/// What `draw_image` leaves at each pixel: the overlay's pixel where the
/// overlay covers it and is not black, the old pixel elsewhere.
pub open spec fn overlaid(before: Frame, overlay: Frame, after: Frame, x: int, y: int) -> bool {
    &&& after.wf()
    &&& after.w() == before.w()
    &&& after.h() == before.h()
    &&& forall|px: int, py: int|
        #![trigger after.pixel(px, py)]
        before.in_bounds(px, py) ==> after.pixel(px, py) == if overlay.in_bounds(px - x, py - y)
            && overlay.pixel(px - x, py - y) != [0u8, 0u8, 0u8] {
            overlay.pixel(px - x, py - y)
        } else {
            before.pixel(px, py)
        }
}

/// Copies the non-black pixels of `overlay` onto `img` with its top-left corner
/// at `(x, y)`, clipped to `img`.
pub fn draw_image(img: &mut Frame, overlay: &Frame, x: i32, y: i32)
    requires
        old(img).wf(),
        overlay.wf(),
    ensures
        overlaid(*old(img), *overlay, *final(img), x as int, y as int),
{
    let ghost before = *img;
    let iw = img.width() as i64;
    let ih = img.height() as i64;
    let ow = overlay.width();
    let oh = overlay.height();
    let mut oy: u32 = 0;
    while oy < oh
        invariant
            oy <= oh == overlay.h(),
            ow == overlay.w(),
            overlay.wf(),
            iw == before.w(),
            ih == before.h(),
            img.wf(),
            img.w() == before.w(),
            img.h() == before.h(),
            forall|px: int, py: int|
                #![trigger img.pixel(px, py)]
                before.in_bounds(px, py) ==> img.pixel(px, py) == if overlay.in_bounds(px - x, py - y)
                    && py - y < oy && overlay.pixel(px - x, py - y) != [0u8, 0u8, 0u8] {
                    overlay.pixel(px - x, py - y)
                } else {
                    before.pixel(px, py)
                },
        decreases oh - oy,
    {
        let mut ox: u32 = 0;
        while ox < ow
            invariant
                oy < oh == overlay.h(),
                ox <= ow == overlay.w(),
                overlay.wf(),
                iw == before.w(),
                ih == before.h(),
                img.wf(),
                img.w() == before.w(),
                img.h() == before.h(),
                forall|px: int, py: int|
                    #![trigger img.pixel(px, py)]
                    before.in_bounds(px, py) ==> img.pixel(px, py) == if overlay.in_bounds(
                        px - x,
                        py - y,
                    ) && (py - y < oy || (py - y == oy && px - x < ox)) && overlay.pixel(
                        px - x,
                        py - y,
                    ) != [0u8, 0u8, 0u8] {
                        overlay.pixel(px - x, py - y)
                    } else {
                        before.pixel(px, py)
                    },
            decreases ow - ox,
        {
            let dx = x as i64 + ox as i64;
            let dy = y as i64 + oy as i64;
            if dx >= 0 && dy >= 0 && dx < iw && dy < ih {
                let p = overlay.get_pixel(ox, oy);
                if p[0] > 0 || p[1] > 0 || p[2] > 0 {
                    img.put_pixel(dx as u32, dy as u32, p);
                } else {
                    assert(p =~= [0u8, 0u8, 0u8]);
                }
            }
            ox += 1;
        }
        oy += 1;
    }
}

} // verus!
