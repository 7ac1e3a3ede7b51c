//! Grayscale classifiers: whether a raster is already single-channel, and
//! whether a 3-channel raster looks monochrome.
//!
//! Two distinct color detectors exist on purpose. `has_color` scans every
//! pixel and is authoritative. `is_color_grayscale` examines only a small
//! prefix of the pixels (about 0.5% of the samples) and stops at the first
//! disagreeing pixel; it is a fast color-presence veto that may call an image
//! monochrome when color first appears after the sampled prefix.

use vstd::prelude::*;

use crate::raster::Raster;
use crate::stats::channel_at;

verus! {

/// All three channels of the pixel with flat index `p` hold one value.
pub open spec fn pixel_channels_equal(img: Raster, p: int) -> bool {
    channel_at(img, 0, p) == channel_at(img, 1, p) && channel_at(img, 1, p) == channel_at(
        img,
        2,
        p,
    )
}

/// How many leading pixels the sampled classifier examines at most: about
/// 0.5% of the stored samples (three per pixel).
pub open spec fn sample_budget(img: Raster) -> int {
    img.pixel_count() * 3 / 200
}

/// Number of leading pixels the sampled classifier actually examines.
pub open spec fn sampled_prefix(img: Raster) -> int {
    if sample_budget(img) < img.pixel_count() {
        sample_budget(img)
    } else {
        img.pixel_count()
    }
}

/// The sampled answer: every examined pixel has equal channels.
pub open spec fn sampled_monochrome(img: Raster) -> bool {
    forall|p: int| 0 <= p < sampled_prefix(img) ==> pixel_channels_equal(img, p)
}

/// A 3-channel raster holds a pixel whose channels disagree.
pub open spec fn colored(img: Raster) -> bool {
    img.channels == 3 && exists|p: int|
        0 <= p < img.pixel_count() && !pixel_channels_equal(img, p)
}

/// True exactly when the raster has a single channel.
pub fn is_grayscale_image(img: &Raster) -> (r: bool)
    ensures
        r == (img.channels == 1),
{
    img.channels == 1
}

/// The sampled monochrome check over a 3-channel raster: walks the leading
/// pixels under a countdown that starts at the sample budget and reports
/// true only if every examined pixel has all channels numerically equal.
/// Approximate by design: color past the sampled prefix goes unseen.
pub fn is_color_grayscale(img: &Raster) -> (r: bool)
    requires
        img.wf(),
        img.channels == 3,
    ensures
        r == sampled_monochrome(*img),
{
    let n = img.data.len();
    proof {
        assert(img.width * img.height * 3 == n && img.width * img.height <= n)
            by (nonlinear_arith)
            requires
                n == img.width * img.height * img.channels,
                img.channels == 3,
        ;
    }
    let np: usize = img.width * img.height;
    let budget: usize = n / 200;
    let limit: usize = if budget < np {
        budget
    } else {
        np
    };
    assert(limit == sampled_prefix(*img));
    let mut p: usize = 0;
    while p < limit
        invariant
            img.wf(),
            img.channels == 3,
            n == img.data@.len(),
            limit == sampled_prefix(*img),
            limit <= np,
            np * 3 == n,
            p <= limit,
            forall|q: int| 0 <= q < p ==> pixel_channels_equal(*img, q),
        decreases limit - p,
    {
        proof {
            assert(p * 3 + 2 < n) by (nonlinear_arith)
                requires
                    0 <= p < np,
                    np * 3 == n,
            ;
        }
        let i: usize = p * 3;
        let v0 = img.data[i];
        let v1 = img.data[i + 1];
        let v2 = img.data[i + 2];
        if v0 != v1 || v0 != v2 || v1 != v2 {
            assert(!pixel_channels_equal(*img, p as int));
            return false;
        }
        p = p + 1;
    }
    true
}

/// The authoritative color detector: scans every pixel of the raster and
/// reports true exactly when some pixel's channels disagree. A single-channel
/// raster is never colored.
pub fn has_color(img: &Raster) -> (r: bool)
    requires
        img.wf(),
    ensures
        r == colored(*img),
{
    if img.channels != 3 {
        return false;
    }
    let n = img.data.len();
    proof {
        assert(img.width * img.height * 3 == n && img.width * img.height <= n)
            by (nonlinear_arith)
            requires
                n == img.width * img.height * img.channels,
                img.channels == 3,
        ;
    }
    let np: usize = img.width * img.height;
    let mut p: usize = 0;
    while p < np
        invariant
            img.wf(),
            img.channels == 3,
            n == img.data@.len(),
            np == img.pixel_count(),
            np * 3 == n,
            p <= np,
            forall|q: int| 0 <= q < p ==> pixel_channels_equal(*img, q),
        decreases np - p,
    {
        proof {
            assert(p * 3 + 2 < n) by (nonlinear_arith)
                requires
                    0 <= p < np,
                    np * 3 == n,
            ;
        }
        let i: usize = p * 3;
        let v0 = img.data[i];
        let v1 = img.data[i + 1];
        let v2 = img.data[i + 2];
        if v0 != v1 || v0 != v2 || v1 != v2 {
            assert(!pixel_channels_equal(*img, p as int));
            return true;
        }
        p = p + 1;
    }
    false
}

} // verus!
