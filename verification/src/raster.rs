//! The in-memory raster: a contiguous pixel buffer with width, height and
//! channel count, addressed row-major as `(y * width + x) * channels + c`.

use vstd::prelude::*;

verus! {

/// A decoded image. `data` holds `width * height * channels` bytes, row by
/// row, each pixel as `channels` consecutive bytes.
pub struct Raster {
    pub width: usize,
    pub height: usize,
    pub channels: usize,
    pub data: Vec<u8>,
}

impl Raster {
    /// Well-formedness: one or three channels, and a buffer of exactly the
    /// advertised size.
    pub open spec fn wf(self) -> bool {
        &&& self.channels == 1 || self.channels == 3
        &&& self.data@.len() == self.width * self.height * self.channels
    }

    /// Flat index of channel `c` of the pixel at `(x, y)`.
    pub open spec fn idx(self, x: int, y: int, c: int) -> int {
        (y * self.width + x) * self.channels + c
    }

    /// The stored value of channel `c` of the pixel at `(x, y)`.
    pub open spec fn at(self, x: int, y: int, c: int) -> u8 {
        self.data@[self.idx(x, y, c)]
    }

    /// Coordinates that address a pixel channel of this raster.
    pub open spec fn in_bounds(self, x: int, y: int, c: int) -> bool {
        0 <= x < self.width && 0 <= y < self.height && 0 <= c < self.channels
    }

    /// Number of pixels.
    pub open spec fn pixel_count(self) -> int {
        self.width * self.height
    }

    /// Builds a raster from its parts, checking the size invariant; `None`
    /// when the channel count is not 1 or 3 or the buffer has the wrong size.
    pub fn new(width: usize, height: usize, channels: usize, data: Vec<u8>) -> (r: Option<Raster>)
        ensures
            match r {
                Some(img) => {
                    &&& img.wf()
                    &&& img.width == width
                    &&& img.height == height
                    &&& img.channels == channels
                    &&& img.data@ == data@
                },
                None => channels != 1 && channels != 3
                    || data@.len() != width * height * channels,
            },
    {
        if channels != 1 && channels != 3 {
            return None;
        }
        let n = data.len();
        let px = match width.checked_mul(height) {
            Some(p) => p,
            None => {
                proof {
                    lemma_mul_exceeds(width as int, height as int, channels as int, n as int);
                }
                return None;
            },
        };
        let total = match px.checked_mul(channels) {
            Some(t) => t,
            None => {
                return None;
            },
        };
        if n != total {
            return None;
        }
        Some(Raster { width, height, channels, data })
    }

    /// Reads one channel value of one pixel.
    pub fn get(&self, x: usize, y: usize, c: usize) -> (v: u8)
        requires
            self.wf(),
            self.in_bounds(x as int, y as int, c as int),
        ensures
            v == self.at(x as int, y as int, c as int),
    {
        let n = self.data.len();
        proof {
            lemma_raster_index(
                self.width as int,
                self.height as int,
                self.channels as int,
                x as int,
                y as int,
                c as int,
            );
            assert(self.width * self.height <= n && (y * self.width + x) * self.channels + c
                < n) by (nonlinear_arith)
                requires
                    0 <= y * self.width + x < self.width * self.height,
                    0 <= (y * self.width + x) * self.channels + c < self.width * self.height
                        * self.channels,
                    self.channels >= 1,
                    n == self.width * self.height * self.channels,
            ;
        }
        let p: usize = y * self.width + x;
        let i: usize = p * self.channels + c;
        self.data[i]
    }
}

/// If a multiplication of sizes overflows `usize`, no `usize`-sized buffer
/// can have the product as its length.
proof fn lemma_mul_exceeds(w: int, h: int, c: int, len: int)
    requires
        w * h > usize::MAX,
        c == 1 || c == 3,
        0 <= len <= usize::MAX,
    ensures
        len != w * h * c,
{
    assert(w * h * c >= w * h) by (nonlinear_arith)
        requires
            w * h > 0,
            c >= 1,
    ;
}

/// In-range coordinates give an in-range flat index, and every intermediate
/// product stays below the buffer length.
pub proof fn lemma_raster_index(w: int, h: int, c_cnt: int, x: int, y: int, c: int)
    requires
        0 <= x < w,
        0 <= y < h,
        0 <= c < c_cnt,
    ensures
        0 <= y * w + x < w * h,
        0 <= (y * w + x) * c_cnt + c < w * h * c_cnt,
        (y * w + x) * c_cnt + c < w * h * c_cnt,
{
    assert(y * w + x < w * h) by (nonlinear_arith)
        requires
            0 <= x < w,
            0 <= y < h,
    ;
    assert(0 <= y * w + x) by (nonlinear_arith)
        requires
            0 <= x,
            0 <= y,
            0 <= w,
    ;
    assert((y * w + x) * c_cnt + c < w * h * c_cnt) by (nonlinear_arith)
        requires
            0 <= y * w + x < w * h,
            0 <= c < c_cnt,
    ;
}

/// Two well-formed rasters of the same shape whose pixels agree everywhere
/// hold identical buffers.
pub proof fn lemma_pointwise_eq(a: Raster, b: Raster)
    requires
        a.wf(),
        b.wf(),
        a.width == b.width,
        a.height == b.height,
        a.channels == b.channels,
        forall|x: int, y: int, c: int|
            a.in_bounds(x, y, c) ==> a.at(x, y, c) == b.at(x, y, c),
    ensures
        a.data@ == b.data@,
{
    let w = a.width as int;
    let h = a.height as int;
    let cc = a.channels as int;
    assert forall|k: int| 0 <= k < a.data@.len() implies a.data@[k] == b.data@[k] by {
        let p = k / cc;
        let c = k % cc;
        let y = p / w;
        let x = p % w;
        assert(w > 0 && cc > 0) by {
            assert(w * h * cc > 0) by (nonlinear_arith)
                requires
                    0 <= k < w * h * cc,
            ;
            assert(w > 0 && h > 0 && cc > 0) by (nonlinear_arith)
                requires
                    w * h * cc > 0,
                    w >= 0,
                    h >= 0,
                    cc >= 0,
            ;
        }
        vstd::arithmetic::div_mod::lemma_fundamental_div_mod(k, cc);
        vstd::arithmetic::div_mod::lemma_mod_bound(k, cc);
        vstd::arithmetic::div_mod::lemma_fundamental_div_mod(p, w);
        vstd::arithmetic::div_mod::lemma_mod_bound(p, w);
        assert(p < w * h) by (nonlinear_arith)
            requires
                k < w * h * cc,
                k == cc * p + c,
                0 <= c,
                cc > 0,
                0 <= p,
        ;
        assert(y < h) by (nonlinear_arith)
            requires
                p < w * h,
                p == w * y + x,
                0 <= x,
                w > 0,
                0 <= y,
        ;
        assert(k == (y * w + x) * cc + c) by (nonlinear_arith)
            requires
                k == cc * p + c,
                p == w * y + x,
        ;
        assert(a.in_bounds(x, y, c));
        assert(a.at(x, y, c) == b.at(x, y, c));
    }
    assert(a.data@ =~= b.data@);
}

} // verus!
