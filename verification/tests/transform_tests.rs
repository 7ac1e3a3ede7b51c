use rustyimg::options::ConfigOptions;
use rustyimg::raster::Raster;
use rustyimg::transform::{process_image, stretch_byte, luma_byte, will_reduce_to_gray, TransformError};

fn raster(width: usize, height: usize, channels: usize, data: Vec<u8>) -> Raster {
    assert_eq!(data.len(), width * height * channels);
    Raster { width, height, channels, data }
}

fn opts_off() -> ConfigOptions {
    ConfigOptions::all_off()
}

#[test]
fn flip_h_involution_restores_raster() {
    let img = raster(3, 2, 1, vec![1, 2, 3, 4, 5, 6]);
    let mut opts = opts_off();
    opts.fliph = true;
    let once = process_image(&img, &opts).unwrap();
    assert_eq!(once.data, vec![3, 2, 1, 6, 5, 4]);
    let twice = process_image(&once, &opts).unwrap();
    assert_eq!(twice.width, img.width);
    assert_eq!(twice.height, img.height);
    assert_eq!(twice.channels, img.channels);
    assert_eq!(twice.data, img.data);
}

#[test]
fn flip_v_involution_restores_raster() {
    let img = raster(2, 2, 3, vec![1, 2, 3, 4, 5, 6, 7, 8, 9, 10, 11, 12]);
    let mut opts = opts_off();
    opts.flipv = true;
    let once = process_image(&img, &opts).unwrap();
    assert_eq!(once.data, vec![7, 8, 9, 10, 11, 12, 1, 2, 3, 4, 5, 6]);
    let twice = process_image(&once, &opts).unwrap();
    assert_eq!(twice.data, img.data);
}

#[test]
fn flip_both_equals_flip_h_then_flip_v() {
    let img = raster(3, 2, 1, vec![1, 2, 3, 4, 5, 6]);
    let mut both = opts_off();
    both.fliph = true;
    both.flipv = true;
    let mut h_only = opts_off();
    h_only.fliph = true;
    let mut v_only = opts_off();
    v_only.flipv = true;
    let combined = process_image(&img, &both).unwrap();
    let mid = process_image(&img, &h_only).unwrap();
    let chained = process_image(&mid, &v_only).unwrap();
    assert_eq!(combined.data, chained.data);
    assert_eq!(combined.data, vec![6, 5, 4, 3, 2, 1]);
}

#[test]
fn invert_involution_restores_raster() {
    let img = raster(2, 1, 3, vec![0, 127, 255, 13, 200, 77]);
    let mut opts = opts_off();
    opts.invert = true;
    let once = process_image(&img, &opts).unwrap();
    assert_eq!(once.data, vec![255, 128, 0, 242, 55, 178]);
    let twice = process_image(&once, &opts).unwrap();
    assert_eq!(twice.data, img.data);
}

#[test]
fn stretch_identity_on_full_range_channel() {
    for v in [0u8, 1, 17, 127, 128, 254, 255] {
        assert_eq!(stretch_byte(v, 0, 255), v);
    }
}

#[test]
fn autocontrast_leaves_full_range_raster_unchanged() {
    let img = raster(2, 1, 1, vec![0, 255]);
    let mut opts = opts_off();
    opts.autocontrast = true;
    let out = process_image(&img, &opts).unwrap();
    assert_eq!(out.data, img.data);
}

#[test]
fn stretch_formula_exact_values() {
    // 255 * (v - min) / (max - min), truncated toward zero
    assert_eq!(stretch_byte(5, 5, 10), 0);
    assert_eq!(stretch_byte(10, 5, 10), 255);
    assert_eq!(stretch_byte(7, 5, 10), 102); // 255 * 2 / 5
    assert_eq!(stretch_byte(20, 10, 30), 127); // 2550 / 20 = 127.5 -> 127
}

#[test]
fn autocontrast_stretches_narrow_channel() {
    let img = raster(1, 3, 1, vec![10, 20, 30]);
    let mut opts = opts_off();
    opts.autocontrast = true;
    let out = process_image(&img, &opts).unwrap();
    assert_eq!(out.data, vec![0, 127, 255]);
}

#[test]
fn autocontrast_flat_channel_yields_no_adjustment_signal() {
    let img = raster(2, 2, 1, vec![7, 7, 7, 7]);
    let mut opts = opts_off();
    opts.autocontrast = true;
    match process_image(&img, &opts) {
        Err(TransformError::FlatChannel) => {}
        other => panic!("expected FlatChannel, got {:?}", other.map(|r| r.data)),
    }
}

#[test]
fn autocontrast_flat_single_channel_of_three_yields_signal() {
    // channel 1 is flat while channels 0 and 2 vary
    let img = raster(2, 1, 3, vec![0, 9, 10, 255, 9, 200]);
    let mut opts = opts_off();
    opts.autocontrast = true;
    assert!(matches!(process_image(&img, &opts), Err(TransformError::FlatChannel)));
}

#[test]
fn autocontrast_empty_raster_yields_empty_signal() {
    let img = raster(0, 4, 3, vec![]);
    let mut opts = opts_off();
    opts.autocontrast = true;
    assert!(matches!(process_image(&img, &opts), Err(TransformError::EmptyRaster)));
}

#[test]
fn flat_raster_without_autocontrast_is_fine() {
    let img = raster(2, 2, 1, vec![7, 7, 7, 7]);
    let opts = opts_off();
    let out = process_image(&img, &opts).unwrap();
    assert_eq!(out.data, vec![7, 7, 7, 7]);
}

#[test]
fn grayscale_reduction_shape_and_luma() {
    let img = raster(2, 2, 3, vec![
        100, 50, 200, // (0,0)
        255, 255, 255, // (1,0)
        0, 0, 0, // (0,1)
        10, 20, 30, // (1,1)
    ]);
    let mut opts = opts_off();
    opts.grayscale = true;
    opts.force = true;
    let out = process_image(&img, &opts).unwrap();
    assert_eq!(out.width, 2);
    assert_eq!(out.height, 2);
    assert_eq!(out.channels, 1);
    // luma = (299*c0 + 587*c2 + 114*c1) / 1000, truncated
    assert_eq!(out.data[0], ((299 * 100 + 587 * 200 + 114 * 50) / 1000) as u8); // 153
    assert_eq!(out.data[1], 255);
    assert_eq!(out.data[2], 0);
    assert_eq!(out.data[3], ((299 * 10 + 587 * 30 + 114 * 20) / 1000) as u8); // 22
}

#[test]
fn luma_weights_use_channel_two_for_the_big_weight() {
    // the 0.587 weight applies to channel 2, the 0.114 weight to channel 1
    assert_eq!(luma_byte(0, 0, 100), 58); // 587*100/1000
    assert_eq!(luma_byte(0, 100, 0), 11); // 114*100/1000
    assert_eq!(luma_byte(100, 0, 0), 29); // 299*100/1000
    assert_eq!(luma_byte(255, 255, 255), 255);
}

#[test]
fn grayscale_not_forced_keeps_channels() {
    let img = raster(1, 1, 3, vec![10, 20, 30]);
    let mut opts = opts_off();
    opts.grayscale = true; // no force
    let out = process_image(&img, &opts).unwrap();
    assert_eq!(out.channels, 3);
    assert_eq!(out.data, vec![10, 20, 30]);
    assert!(!will_reduce_to_gray(&img, &opts));
    let mut forced = opts_off();
    forced.grayscale = true;
    forced.force = true;
    assert!(will_reduce_to_gray(&img, &forced));
}

#[test]
fn combined_order_stretch_then_gray_then_invert() {
    let img = raster(2, 1, 3, vec![0, 0, 0, 255, 255, 255]);
    let mut opts = opts_off();
    opts.autocontrast = true;
    opts.grayscale = true;
    opts.force = true;
    opts.invert = true;
    opts.fliph = true;
    let out = process_image(&img, &opts).unwrap();
    assert_eq!(out.channels, 1);
    // source pixel (1,0) = white -> luma 255 -> invert 0, lands at output x=0
    assert_eq!(out.data, vec![0, 255]);
}

#[test]
fn raster_new_checks_shape() {
    assert!(Raster::new(2, 2, 1, vec![1, 2, 3, 4]).is_some());
    assert!(Raster::new(2, 2, 2, vec![1, 2, 3, 4]).is_none()); // bad channel count
    assert!(Raster::new(2, 2, 1, vec![1, 2, 3]).is_none()); // bad length
    assert!(Raster::new(0, 0, 3, vec![]).is_some());
}
