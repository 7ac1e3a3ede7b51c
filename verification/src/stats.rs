//! Per-channel statistics: the minimum and maximum byte value of one channel
//! over every pixel of a raster.

use vstd::prelude::*;

use crate::raster::Raster;

verus! {

/// The (min, max) byte values of one channel of a raster.
#[derive(Clone, Copy, Debug, PartialEq, Eq, Structural)]
pub struct ChannelRange {
    pub min: u8,
    pub max: u8,
}

/// The smaller of two bytes.
pub open spec fn min_byte(a: u8, b: u8) -> u8 {
    if a <= b {
        a
    } else {
        b
    }
}

/// The larger of two bytes.
pub open spec fn max_byte(a: u8, b: u8) -> u8 {
    if a >= b {
        a
    } else {
        b
    }
}

/// Channel `c` of the pixel with flat pixel index `p`.
pub open spec fn channel_at(img: Raster, c: int, p: int) -> u8 {
    img.data@[p * img.channels + c]
}

/// Minimum of channel `c` over the first `n` pixels (255 when `n == 0`).
pub open spec fn channel_min_upto(img: Raster, c: int, n: int) -> u8
    decreases n,
{
    if n <= 0 {
        255
    } else {
        min_byte(channel_min_upto(img, c, n - 1), channel_at(img, c, n - 1))
    }
}

/// Maximum of channel `c` over the first `n` pixels (0 when `n == 0`).
pub open spec fn channel_max_upto(img: Raster, c: int, n: int) -> u8
    decreases n,
{
    if n <= 0 {
        0
    } else {
        max_byte(channel_max_upto(img, c, n - 1), channel_at(img, c, n - 1))
    }
}

/// Minimum byte value of channel `c` over the whole raster.
pub open spec fn channel_min(img: Raster, c: int) -> u8 {
    channel_min_upto(img, c, img.pixel_count())
}

/// Maximum byte value of channel `c` over the whole raster.
pub open spec fn channel_max(img: Raster, c: int) -> u8 {
    channel_max_upto(img, c, img.pixel_count())
}

/// `channel_min_upto` is a lower bound on the scanned prefix and is attained
/// in it; dually for `channel_max_upto`.
pub proof fn lemma_channel_extrema(img: Raster, c: int, n: int)
    ensures
        forall|p: int|
            0 <= p < n ==> channel_min_upto(img, c, n) <= #[trigger] channel_at(img, c, p),
        forall|p: int|
            0 <= p < n ==> channel_max_upto(img, c, n) >= #[trigger] channel_at(img, c, p),
        n > 0 ==> exists|p: int|
            0 <= p < n && channel_min_upto(img, c, n) == channel_at(img, c, p),
        n > 0 ==> exists|p: int|
            0 <= p < n && channel_max_upto(img, c, n) == channel_at(img, c, p),
    decreases n,
{
    if n > 0 {
        reveal_with_fuel(channel_min_upto, 2);
        reveal_with_fuel(channel_max_upto, 2);
        lemma_channel_extrema(img, c, n - 1);
        if n > 1 && channel_min_upto(img, c, n) == channel_min_upto(img, c, n - 1) {
            let pmin = choose|p: int|
                0 <= p < n - 1 && channel_min_upto(img, c, n - 1) == channel_at(img, c, p);
            assert(0 <= pmin < n && channel_min_upto(img, c, n) == channel_at(img, c, pmin));
        } else {
            assert(channel_min_upto(img, c, n) == channel_at(img, c, n - 1));
        }
        if n > 1 && channel_max_upto(img, c, n) == channel_max_upto(img, c, n - 1) {
            let pmax = choose|p: int|
                0 <= p < n - 1 && channel_max_upto(img, c, n - 1) == channel_at(img, c, p);
            assert(0 <= pmax < n && channel_max_upto(img, c, n) == channel_at(img, c, pmax));
        } else {
            assert(channel_max_upto(img, c, n) == channel_at(img, c, n - 1));
        }
    }
}

/// The values of channel `channel`, pixels walked column by column: all
/// `y` for `x = 0`, then for `x = 1`, and so on.
pub fn get_channel(img: &Raster, channel: usize) -> (r: Vec<u8>)
    requires
        img.wf(),
        channel < img.channels,
    ensures
        r@.len() == img.width * img.height,
        forall|x: int, y: int|
            0 <= x < img.width && 0 <= y < img.height ==> r@[x * img.height + y] == img.at(
                x,
                y,
                channel as int,
            ),
{
    let w = img.width;
    let h = img.height;
    let mut r: Vec<u8> = Vec::new();
    let mut x: usize = 0;
    while x < w
        invariant
            img.wf(),
            channel < img.channels,
            w == img.width,
            h == img.height,
            x <= w,
            r@.len() == x * h,
            forall|x0: int, y0: int| #![trigger r@[x0 * h + y0]]
                0 <= x0 < x && 0 <= y0 < h ==> r@[x0 * h + y0] == img.at(x0, y0, channel as int),
        decreases w - x,
    {
        let mut y: usize = 0;
        while y < h
            invariant
                img.wf(),
                channel < img.channels,
                w == img.width,
                h == img.height,
                x < w,
                y <= h,
                r@.len() == x * h + y,
                forall|x0: int, y0: int| #![trigger r@[x0 * h + y0]]
                    0 <= x0 < x && 0 <= y0 < h ==> r@[x0 * h + y0] == img.at(
                        x0,
                        y0,
                        channel as int,
                    ),
                forall|y0: int| 0 <= y0 < y ==> #[trigger] r@[x * h + y0] == img.at(x as int, y0, channel as int),
            decreases h - y,
        {
            proof {
                assert(x * h + y < w * h && x * h + h <= w * h) by (nonlinear_arith)
                    requires
                        0 <= x < w,
                        0 <= y < h,
                ;
                assert(w * h <= img.data@.len()) by (nonlinear_arith)
                    requires
                        img.data@.len() == w * h * img.channels,
                        img.channels >= 1,
                        w * h >= 0,
                ;
            }
            let v = img.get(x, y, channel);
            r.push(v);
            proof {
                assert forall|x0: int, y0: int| #![trigger r@[x0 * h + y0]]
                    0 <= x0 < x && 0 <= y0 < h implies r@[x0 * h + y0] == img.at(
                    x0,
                    y0,
                    channel as int,
                ) by {
                    assert(x0 * h + y0 < x * h) by (nonlinear_arith)
                        requires
                            0 <= x0 < x,
                            0 <= y0 < h,
                    ;
                }
            }
            y = y + 1;
        }
        proof {
            assert(x * h + h == (x + 1) * h) by (nonlinear_arith);
            assert forall|x0: int, y0: int| #![trigger r@[x0 * h + y0]]
                0 <= x0 < x + 1 && 0 <= y0 < h implies r@[x0 * h + y0] == img.at(
                x0,
                y0,
                channel as int,
            ) by {
                if x0 == x as int {
                    assert(r@[x * h + y0] == img.at(x as int, y0, channel as int));
                }
            }
        }
        x = x + 1;
    }
    r
}

/// Minimum and maximum of channel `channel` over the whole raster, in one
/// linear pass; `None` exactly when the raster has no pixels, where a
/// minimum and maximum are undefined.
pub fn get_channel_ranges(img: &Raster, channel: usize) -> (r: Option<ChannelRange>)
    requires
        img.wf(),
        channel < img.channels,
    ensures
        match r {
            Some(cr) => {
                &&& img.pixel_count() > 0
                &&& cr.min == channel_min(*img, channel as int)
                &&& cr.max == channel_max(*img, channel as int)
                &&& cr.min <= cr.max
            },
            None => img.pixel_count() == 0,
        },
{
    let n = img.data.len();
    proof {
        assert(img.width * img.height <= n) by (nonlinear_arith)
            requires
                n == img.width * img.height * img.channels,
                img.channels >= 1,
                img.width * img.height >= 0,
        ;
    }
    let np: usize = img.width * img.height;
    if np == 0 {
        return None;
    }
    let mut mn: u8 = 255;
    let mut mx: u8 = 0;
    let mut p: usize = 0;
    while p < np
        invariant
            img.wf(),
            channel < img.channels,
            np == img.width * img.height,
            np <= n,
            n == img.data@.len(),
            p <= np,
            mn == channel_min_upto(*img, channel as int, p as int),
            mx == channel_max_upto(*img, channel as int, p as int),
        decreases np - p,
    {
        proof {
            assert(p * img.channels + channel < np * img.channels && np * img.channels <= n)
                by (nonlinear_arith)
                requires
                    0 <= p < np,
                    0 <= channel < img.channels,
                    n == img.width * img.height * img.channels,
                    np == img.width * img.height,
            ;
        }
        let i: usize = p * img.channels + channel;
        let v = img.data[i];
        if v < mn {
            mn = v;
        }
        if v > mx {
            mx = v;
        }
        p = p + 1;
    }
    proof {
        lemma_channel_extrema(*img, channel as int, np as int);
    }
    Some(ChannelRange { min: mn, max: mx })
}

} // verus!
