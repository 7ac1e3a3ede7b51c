//! The pixel transform pipeline: geometric flip, grayscale reduction,
//! per-channel contrast stretch and tonal inversion, applied in one
//! coordinated pass that produces a fresh raster.
//!
//! The order of operations is fixed: contrast stretch, then grayscale
//! reduction, then inversion. Each output pixel is read from the mirrored
//! source position, so a flip is an index remap and never moves data twice.

use vstd::prelude::*;

use crate::options::ConfigOptions;
use crate::raster::Raster;
use crate::raster::lemma_raster_index;
use crate::stats::ChannelRange;
use crate::stats::channel_max;
use crate::stats::channel_min;
use crate::stats::get_channel_ranges;

verus! {

/// Why no transformed raster could be produced. Neither case is a fault of
/// the input data: both mean "no adjustment is possible", and callers skip
/// writing a new file.
#[derive(Clone, Copy, Debug, PartialEq, Eq, Structural)]
pub enum TransformError {
    /// Contrast stretching was requested for a raster with no pixels, where
    /// channel extrema are undefined.
    EmptyRaster,
    /// Contrast stretching was requested but some channel holds a single
    /// value throughout, so the linear map is undefined; the image is taken
    /// to be at maximum contrast already.
    FlatChannel,
}

/// Grayscale reduction takes place only when it was requested with the
/// force flag and the raster is not single-channel already.
pub open spec fn reduces_to_gray(img: Raster, opts: ConfigOptions) -> bool {
    opts.grayscale && img.channels != 1 && opts.force
}

/// Channel count of the transformed raster.
pub open spec fn out_channel_count(img: Raster, opts: ConfigOptions) -> int {
    if reduces_to_gray(img, opts) {
        1
    } else {
        img.channels as int
    }
}

/// The linear tone map of a channel with extrema `mn < mx`: scale `v - mn`
/// by `255 / (mx - mn)`, truncating toward zero, and clamp to a byte.
pub open spec fn stretch_value(v: u8, mn: u8, mx: u8) -> u8
    recommends
        mn < mx,
{
    let d: int = if v <= mn {
        0
    } else {
        v - mn
    };
    let q: int = 255 * d / (mx - mn);
    if q > 255 {
        255
    } else {
        q as u8
    }
}

/// The weighted channel combination used for grayscale reduction, truncated
/// toward zero: weight 299/1000 on channel 0, 587/1000 on channel 2 and
/// 114/1000 on channel 1. The swap of the conventional weights of channels
/// 1 and 2 is kept deliberately; changing it would change every produced
/// gray value.
pub open spec fn luma_value(c0: u8, c1: u8, c2: u8) -> u8 {
    ((299 * c0 + 587 * c2 + 114 * c1) / 1000) as u8
}

/// Channel `c` of the source pixel `(x, y)` after the optional contrast
/// stretch against the channel's own extrema.
pub open spec fn adjusted_value(img: Raster, autocontrast: bool, x: int, y: int, c: int) -> u8 {
    if autocontrast {
        stretch_value(img.at(x, y, c), channel_min(img, c), channel_max(img, c))
    } else {
        img.at(x, y, c)
    }
}

/// The source column read for output column `x`.
pub open spec fn source_x(img: Raster, opts: ConfigOptions, x: int) -> int {
    if opts.fliph {
        img.width - 1 - x
    } else {
        x
    }
}

/// The source row read for output row `y`.
pub open spec fn source_y(img: Raster, opts: ConfigOptions, y: int) -> int {
    if opts.flipv {
        img.height - 1 - y
    } else {
        y
    }
}

/// The value of output channel `c` at output position `(x, y)`: the mirrored
/// source pixel, contrast-stretched if requested, reduced to luma if the
/// transform reduces to grayscale, then inverted if requested.
pub open spec fn output_value(img: Raster, opts: ConfigOptions, x: int, y: int, c: int) -> u8 {
    let sx = source_x(img, opts, x);
    let sy = source_y(img, opts, y);
    let base = if reduces_to_gray(img, opts) {
        luma_value(
            adjusted_value(img, opts.autocontrast, sx, sy, 0),
            adjusted_value(img, opts.autocontrast, sx, sy, 1),
            adjusted_value(img, opts.autocontrast, sx, sy, 2),
        )
    } else {
        adjusted_value(img, opts.autocontrast, sx, sy, c)
    };
    if opts.invert {
        (255 - base) as u8
    } else {
        base
    }
}

/// Some channel of the raster holds one value throughout.
pub open spec fn has_flat_channel(img: Raster) -> bool {
    exists|c: int| 0 <= c < img.channels && channel_min(img, c) == channel_max(img, c)
}

/// `out` is the transform of `img` under `opts`: same width and height,
/// the possibly reduced channel count, and every output channel value as
/// `output_value` has it.
pub open spec fn transforms_to(img: Raster, opts: ConfigOptions, out: Raster) -> bool {
    &&& out.wf()
    &&& out.width == img.width
    &&& out.height == img.height
    &&& out.channels == out_channel_count(img, opts)
    &&& forall|x: int, y: int, c: int|
        out.in_bounds(x, y, c) ==> out.at(x, y, c) == output_value(img, opts, x, y, c)
}

/// Whether the transform of `img` under `opts` reduces it to one channel;
/// the metadata rewrite is keyed on this answer.
pub fn will_reduce_to_gray(img: &Raster, opts: &ConfigOptions) -> (r: bool)
    ensures
        r == reduces_to_gray(*img, *opts),
{
    opts.grayscale && img.channels != 1 && opts.force
}

/// The contrast stretch of one byte against channel extrema `mn < mx`.
pub fn stretch_byte(v: u8, mn: u8, mx: u8) -> (r: u8)
    requires
        mn < mx,
    ensures
        r == stretch_value(v, mn, mx),
{
    let d: u32 = if v <= mn {
        0
    } else {
        (v - mn) as u32
    };
    let q: u32 = 255 * d / ((mx - mn) as u32);
    if q > 255 {
        255
    } else {
        q as u8
    }
}

/// The grayscale luma of one pixel's three channel values.
pub fn luma_byte(c0: u8, c1: u8, c2: u8) -> (r: u8)
    ensures
        r == luma_value(c0, c1, c2),
{
    let s: u32 = 299 * (c0 as u32) + 587 * (c2 as u32) + 114 * (c1 as u32);
    proof {
        vstd::arithmetic::div_mod::lemma_div_is_ordered(s as int, 255000, 1000);
    }
    (s / 1000) as u8
}

/// The per-channel extrema handed through the pipeline loops: when the
/// stretch is on, `mins`/`maxs` hold each channel's minimum and maximum,
/// and no channel is flat.
spec fn ranges_loaded(img: Raster, autocontrast: bool, mins: Seq<u8>, maxs: Seq<u8>) -> bool {
    autocontrast ==> {
        &&& mins.len() == img.channels
        &&& maxs.len() == img.channels
        &&& forall|c: int|
            0 <= c < img.channels ==> mins[c] == channel_min(img, c) && maxs[c] == channel_max(
                img,
                c,
            ) && mins[c] < maxs[c]
    }
}

/// One source channel value after the optional contrast stretch.
fn adjusted_byte(
    img: &Raster,
    autocontrast: bool,
    x: usize,
    y: usize,
    c: usize,
    mins: &Vec<u8>,
    maxs: &Vec<u8>,
) -> (r: u8)
    requires
        img.wf(),
        img.in_bounds(x as int, y as int, c as int),
        ranges_loaded(*img, autocontrast, mins@, maxs@),
    ensures
        r == adjusted_value(*img, autocontrast, x as int, y as int, c as int),
{
    let v = img.get(x, y, c);
    if autocontrast {
        stretch_byte(v, mins[c], maxs[c])
    } else {
        v
    }
}

/// The full per-position computation: mirror, stretch, reduce, invert.
fn output_byte(
    img: &Raster,
    opts: &ConfigOptions,
    mins: &Vec<u8>,
    maxs: &Vec<u8>,
    x: usize,
    y: usize,
    c: usize,
) -> (r: u8)
    requires
        img.wf(),
        x < img.width,
        y < img.height,
        reduces_to_gray(*img, *opts) ==> c == 0,
        !reduces_to_gray(*img, *opts) ==> c < img.channels,
        ranges_loaded(*img, opts.autocontrast, mins@, maxs@),
    ensures
        r == output_value(*img, *opts, x as int, y as int, c as int),
{
    let sx: usize = if opts.fliph {
        img.width - 1 - x
    } else {
        x
    };
    let sy: usize = if opts.flipv {
        img.height - 1 - y
    } else {
        y
    };
    let to_gray = opts.grayscale && img.channels != 1 && opts.force;
    let base: u8 = if to_gray {
        let a0 = adjusted_byte(img, opts.autocontrast, sx, sy, 0, mins, maxs);
        let a1 = adjusted_byte(img, opts.autocontrast, sx, sy, 1, mins, maxs);
        let a2 = adjusted_byte(img, opts.autocontrast, sx, sy, 2, mins, maxs);
        luma_byte(a0, a1, a2)
    } else {
        adjusted_byte(img, opts.autocontrast, sx, sy, c, mins, maxs)
    };
    if opts.invert {
        255 - base
    } else {
        base
    }
}

/// Flat output indices decompose uniquely into (column, row, channel).
proof fn lemma_index_injective(
    w: int,
    cc: int,
    x0: int,
    y0: int,
    c0: int,
    x1: int,
    y1: int,
    c1: int,
)
    requires
        0 <= x0 < w,
        0 <= x1 < w,
        0 <= y0,
        0 <= y1,
        0 <= c0 < cc,
        0 <= c1 < cc,
        (y0 * w + x0) * cc + c0 == (y1 * w + x1) * cc + c1,
    ensures
        x0 == x1,
        y0 == y1,
        c0 == c1,
{
    let p0 = y0 * w + x0;
    let p1 = y1 * w + x1;
    assert(p0 == p1 && c0 == c1) by (nonlinear_arith)
        requires
            p0 * cc + c0 == p1 * cc + c1,
            0 <= c0 < cc,
            0 <= c1 < cc,
            0 <= p0,
            0 <= p1,
    ;
    assert(y0 == y1 && x0 == x1) by (nonlinear_arith)
        requires
            y0 * w + x0 == y1 * w + x1,
            0 <= x0 < w,
            0 <= x1 < w,
            0 <= y0,
            0 <= y1,
    ;
}

/// Applies the requested subset of transforms in one pass over the raster.
/// Succeeds with the transformed raster unless a contrast stretch was
/// requested and is undefined: for a raster with no pixels, or one with a
/// flat channel; the error says which, and the caller skips the write.
pub fn process_image(img: &Raster, opts: &ConfigOptions) -> (r: Result<Raster, TransformError>)
    requires
        img.wf(),
    ensures
        match r {
            Ok(out) => {
                &&& transforms_to(*img, *opts, out)
                &&& !(opts.autocontrast && (img.pixel_count() == 0 || has_flat_channel(*img)))
            },
            Err(e) => opts.autocontrast && (match e {
                TransformError::EmptyRaster => img.pixel_count() == 0,
                TransformError::FlatChannel => img.pixel_count() > 0 && has_flat_channel(*img),
            }),
        },
{
    let w = img.width;
    let h = img.height;
    let cc = img.channels;
    let mut mins: Vec<u8> = Vec::new();
    let mut maxs: Vec<u8> = Vec::new();
    if opts.autocontrast {
        if w == 0 || h == 0 {
            proof {
                assert(img.pixel_count() == 0) by (nonlinear_arith)
                    requires
                        w == 0 || h == 0,
                        img.pixel_count() == w * h,
                ;
            }
            return Err(TransformError::EmptyRaster);
        }
        proof {
            assert(img.pixel_count() > 0) by (nonlinear_arith)
                requires
                    w >= 1,
                    h >= 1,
                    img.pixel_count() == w * h,
            ;
        }
        let mut c: usize = 0;
        while c < cc
            invariant
                img.wf(),
                cc == img.channels,
                opts.autocontrast,
                img.pixel_count() > 0,
                c <= cc,
                mins@.len() == c,
                maxs@.len() == c,
                forall|i: int|
                    0 <= i < c ==> mins@[i] == channel_min(*img, i) && maxs@[i] == channel_max(
                        *img,
                        i,
                    ) && mins@[i] < maxs@[i],
            decreases cc - c,
        {
            let cr = match get_channel_ranges(img, c) {
                Some(cr) => cr,
                // pixel_count() > 0, so no range query can fail here
                None => ChannelRange { min: 0, max: 0 },
            };
            if cr.min == cr.max {
                assert(channel_min(*img, c as int) == channel_max(*img, c as int));
                assert(has_flat_channel(*img));
                return Err(TransformError::FlatChannel);
            }
            mins.push(cr.min);
            maxs.push(cr.max);
            c = c + 1;
        }
        proof {
            assert forall|c0: int|
                0 <= c0 < img.channels implies channel_min(*img, c0) != channel_max(
                *img,
                c0,
            ) by {
                assert(mins@[c0] == channel_min(*img, c0));
            }
            assert(!has_flat_channel(*img));
        }
    }
    let to_gray = opts.grayscale && cc != 1 && opts.force;
    let out_cc: usize = if to_gray {
        1
    } else {
        cc
    };
    let mut out_data: Vec<u8> = Vec::new();
    let mut y: usize = 0;
    proof {
        assert(((y * w) * out_cc) == 0) by (nonlinear_arith)
            requires
                y == 0,
        ;
    }
    while y < h
        invariant
            img.wf(),
            w == img.width,
            h == img.height,
            cc == img.channels,
            to_gray == reduces_to_gray(*img, *opts),
            out_cc == out_channel_count(*img, *opts),
            1 <= out_cc <= cc,
            ranges_loaded(*img, opts.autocontrast, mins@, maxs@),
            y <= h,
            out_data@.len() == (y * w) * out_cc,
            forall|x0: int, y0: int, c0: int|
                #![trigger out_data@[(y0 * w + x0) * out_cc + c0]]
                0 <= x0 < w && 0 <= y0 < h && 0 <= c0 < out_cc && (y0 * w + x0) * out_cc + c0
                    < out_data@.len() ==> out_data@[(y0 * w + x0) * out_cc + c0] == output_value(
                    *img,
                    *opts,
                    x0,
                    y0,
                    c0,
                ),
        decreases h - y,
    {
        let mut x: usize = 0;
        while x < w
            invariant
                img.wf(),
                w == img.width,
                h == img.height,
                cc == img.channels,
                to_gray == reduces_to_gray(*img, *opts),
                out_cc == out_channel_count(*img, *opts),
                1 <= out_cc <= cc,
                ranges_loaded(*img, opts.autocontrast, mins@, maxs@),
                y < h,
                x <= w,
                out_data@.len() == (y * w + x) * out_cc,
                forall|x0: int, y0: int, c0: int|
                    #![trigger out_data@[(y0 * w + x0) * out_cc + c0]]
                    0 <= x0 < w && 0 <= y0 < h && 0 <= c0 < out_cc && (y0 * w + x0) * out_cc + c0
                        < out_data@.len() ==> out_data@[(y0 * w + x0) * out_cc + c0]
                        == output_value(*img, *opts, x0, y0, c0),
            decreases w - x,
        {
            let mut c: usize = 0;
            while c < out_cc
                invariant
                    img.wf(),
                    w == img.width,
                    h == img.height,
                    cc == img.channels,
                    to_gray == reduces_to_gray(*img, *opts),
                    out_cc == out_channel_count(*img, *opts),
                    1 <= out_cc <= cc,
                    ranges_loaded(*img, opts.autocontrast, mins@, maxs@),
                    y < h,
                    x < w,
                    c <= out_cc,
                    out_data@.len() == (y * w + x) * out_cc + c,
                    forall|x0: int, y0: int, c0: int|
                        #![trigger out_data@[(y0 * w + x0) * out_cc + c0]]
                        0 <= x0 < w && 0 <= y0 < h && 0 <= c0 < out_cc && (y0 * w + x0) * out_cc
                            + c0 < out_data@.len() ==> out_data@[(y0 * w + x0) * out_cc + c0]
                            == output_value(*img, *opts, x0, y0, c0),
                decreases out_cc - c,
            {
                let v = output_byte(img, opts, &mins, &maxs, x, y, c);
                out_data.push(v);
                proof {
                    let len0 = (y * w + x) * out_cc + c;
                    assert forall|x0: int, y0: int, c0: int|
                        #![trigger out_data@[(y0 * w + x0) * out_cc + c0]]
                        0 <= x0 < w && 0 <= y0 < h && 0 <= c0 < out_cc && (y0 * w + x0) * out_cc
                            + c0 < out_data@.len() implies out_data@[(y0 * w + x0) * out_cc + c0]
                        == output_value(*img, *opts, x0, y0, c0) by {
                        if (y0 * w + x0) * out_cc + c0 == len0 {
                            lemma_index_injective(
                                w as int,
                                out_cc as int,
                                x0,
                                y0,
                                c0,
                                x as int,
                                y as int,
                                c as int,
                            );
                        }
                    }
                }
                c = c + 1;
            }
            proof {
                assert(((y * w + x) * out_cc + out_cc) == ((y * w + x + 1) * out_cc))
                    by (nonlinear_arith);
            }
            x = x + 1;
        }
        proof {
            assert(((y * w + w) * out_cc) == (((y + 1) * w) * out_cc)) by (nonlinear_arith);
        }
        y = y + 1;
    }
    let out = Raster { width: w, height: h, channels: out_cc, data: out_data };
    proof {
        assert((h * w) * out_cc == w * h * out_cc) by (nonlinear_arith);
        assert forall|x0: int, y0: int, c0: int|
            out.in_bounds(x0, y0, c0) implies out.at(x0, y0, c0) == output_value(
            *img,
            *opts,
            x0,
            y0,
            c0,
        ) by {
            lemma_raster_index(w as int, h as int, out_cc as int, x0, y0, c0);
        }
    }
    Ok(out)
}

} // verus!
