//! General properties of the pipeline, stated and proved once and for all:
//! the flip and inversion involutions, composition of the two flip axes,
//! idempotence of the contrast stretch on already-stretched data, and the
//! bounds of the sampled monochrome classifier.

use vstd::prelude::*;

use crate::classify::colored;
use crate::classify::pixel_channels_equal;
use crate::classify::sampled_monochrome;
use crate::classify::sampled_prefix;
use crate::options::ConfigOptions;
use crate::raster::Raster;
use crate::raster::lemma_pointwise_eq;
use crate::stats::channel_max;
use crate::stats::channel_min;
use crate::transform::output_value;
use crate::transform::stretch_value;
use crate::transform::transforms_to;

verus! {

/// The options request only flips: no grayscale reduction, no inversion and
/// no contrast stretch.
pub open spec fn flips_only(opts: ConfigOptions) -> bool {
    !opts.grayscale && !opts.invert && !opts.autocontrast
}

/// Flip involution: transforming with the horizontal flip alone, twice,
/// reproduces the starting raster exactly, for any raster.
pub proof fn lemma_flip_h_involution(a: Raster, b: Raster, c: Raster, opts: ConfigOptions)
    requires
        a.wf(),
        flips_only(opts),
        opts.fliph,
        !opts.flipv,
        transforms_to(a, opts, b),
        transforms_to(b, opts, c),
    ensures
        c.width == a.width,
        c.height == a.height,
        c.channels == a.channels,
        c.data@ == a.data@,
{
    assert forall|x: int, y: int, ch: int| c.in_bounds(x, y, ch) implies c.at(x, y, ch) == a.at(
        x,
        y,
        ch,
    ) by {
        let sx = a.width - 1 - x;
        assert(b.in_bounds(sx, y, ch));
        assert(c.at(x, y, ch) == output_value(b, opts, x, y, ch));
        assert(b.at(sx, y, ch) == output_value(a, opts, sx, y, ch));
    }
    lemma_pointwise_eq(c, a);
}

/// Flip composition independence: transforming with both flips at once
/// equals transforming with the horizontal flip and then transforming that
/// result with the vertical flip, for all rasters.
pub proof fn lemma_flip_composition(
    a: Raster,
    both: Raster,
    mid: Raster,
    chained: Raster,
    opts_hv: ConfigOptions,
    opts_h: ConfigOptions,
    opts_v: ConfigOptions,
)
    requires
        a.wf(),
        flips_only(opts_hv),
        opts_hv.fliph,
        opts_hv.flipv,
        flips_only(opts_h),
        opts_h.fliph,
        !opts_h.flipv,
        flips_only(opts_v),
        !opts_v.fliph,
        opts_v.flipv,
        transforms_to(a, opts_hv, both),
        transforms_to(a, opts_h, mid),
        transforms_to(mid, opts_v, chained),
    ensures
        chained.width == both.width,
        chained.height == both.height,
        chained.channels == both.channels,
        chained.data@ == both.data@,
{
    assert forall|x: int, y: int, ch: int| chained.in_bounds(x, y, ch) implies chained.at(
        x,
        y,
        ch,
    ) == both.at(x, y, ch) by {
        let sy = a.height - 1 - y;
        let sx = a.width - 1 - x;
        assert(mid.in_bounds(x, sy, ch));
        assert(chained.at(x, y, ch) == output_value(mid, opts_v, x, y, ch));
        assert(mid.at(x, sy, ch) == output_value(a, opts_h, x, sy, ch));
        assert(both.at(x, y, ch) == output_value(a, opts_hv, x, y, ch));
        assert(a.in_bounds(sx, sy, ch));
    }
    lemma_pointwise_eq(chained, both);
}

/// Inversion involution: inverting alone, twice, reproduces the starting
/// raster exactly, since `255 - (255 - v) == v` for every byte.
pub proof fn lemma_invert_involution(a: Raster, b: Raster, c: Raster, opts: ConfigOptions)
    requires
        a.wf(),
        opts.invert,
        !opts.grayscale,
        !opts.autocontrast,
        !opts.fliph,
        !opts.flipv,
        transforms_to(a, opts, b),
        transforms_to(b, opts, c),
    ensures
        c.width == a.width,
        c.height == a.height,
        c.channels == a.channels,
        c.data@ == a.data@,
{
    assert forall|x: int, y: int, ch: int| c.in_bounds(x, y, ch) implies c.at(x, y, ch) == a.at(
        x,
        y,
        ch,
    ) by {
        assert(b.in_bounds(x, y, ch));
        assert(c.at(x, y, ch) == output_value(b, opts, x, y, ch));
        assert(b.at(x, y, ch) == output_value(a, opts, x, y, ch));
    }
    lemma_pointwise_eq(c, a);
}

/// Stretching a channel whose extrema are already 0 and 255 is the identity
/// map on every byte.
pub proof fn lemma_stretch_identity(v: u8)
    ensures
        stretch_value(v, 0, 255) == v,
{
    if v > 0 {
        vstd::arithmetic::div_mod::lemma_div_multiples_vanish(v as int, 255);
        assert(255 * (v as int) == (v as int) * 255) by (nonlinear_arith);
    }
}

/// Contrast stretch idempotence on already-stretched data: when every
/// channel of a raster already spans 0..255, the stretch-only transform
/// reproduces the raster unchanged.
pub proof fn lemma_autocontrast_identity(a: Raster, b: Raster, opts: ConfigOptions)
    requires
        a.wf(),
        opts.autocontrast,
        !opts.grayscale,
        !opts.invert,
        !opts.fliph,
        !opts.flipv,
        forall|c: int|
            0 <= c < a.channels ==> channel_min(a, c) == 0 && channel_max(a, c) == 255,
        transforms_to(a, opts, b),
    ensures
        b.width == a.width,
        b.height == a.height,
        b.channels == a.channels,
        b.data@ == a.data@,
{
    assert forall|x: int, y: int, ch: int| b.in_bounds(x, y, ch) implies b.at(x, y, ch) == a.at(
        x,
        y,
        ch,
    ) by {
        assert(b.at(x, y, ch) == output_value(a, opts, x, y, ch));
        assert(channel_min(a, ch) == 0 && channel_max(a, ch) == 255);
        lemma_stretch_identity(a.at(x, y, ch));
    }
    lemma_pointwise_eq(b, a);
}

/// Sampled classifier bound, first half: a pixel with disagreeing channels
/// inside the sampled prefix forces the sampled answer to "not monochrome",
/// and the full scan reports color as well.
pub proof fn lemma_sampled_classifier_bound(img: Raster, k: int)
    requires
        img.channels == 3,
        0 <= k < sampled_prefix(img),
        !pixel_channels_equal(img, k),
    ensures
        !sampled_monochrome(img),
        colored(img),
{
    assert(k < img.pixel_count());
}

/// Sampled classifier bound, second half: when channels agree throughout
/// the sampled prefix and color first appears after it, the sampled
/// classifier still answers "monochrome" — it is approximate by design —
/// while the authoritative full scan reports color.
pub proof fn lemma_sampled_approximate(img: Raster, k: int)
    requires
        img.channels == 3,
        forall|p: int| 0 <= p < sampled_prefix(img) ==> pixel_channels_equal(img, p),
        sampled_prefix(img) <= k < img.pixel_count(),
        !pixel_channels_equal(img, k),
    ensures
        sampled_monochrome(img),
        colored(img),
{
}

} // verus!
