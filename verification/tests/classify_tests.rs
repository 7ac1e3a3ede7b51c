use rustyimg::classify::{has_color, is_color_grayscale, is_grayscale_image};
use rustyimg::raster::Raster;

fn gray_pixels(count: usize, value: u8) -> Vec<u8> {
    let mut data = Vec::new();
    for _ in 0..count {
        data.push(value);
        data.push(value);
        data.push(value);
    }
    data
}

#[test]
fn single_channel_is_grayscale() {
    let img = Raster { width: 2, height: 2, channels: 1, data: vec![1, 2, 3, 4] };
    assert!(is_grayscale_image(&img));
    let color = Raster { width: 1, height: 1, channels: 3, data: vec![1, 2, 3] };
    assert!(!is_grayscale_image(&color));
}

#[test]
fn sampled_classifier_sees_color_inside_budget() {
    // 200 x 1 pixels: sample budget is 200*1*3/200 = 3 pixels.
    // Pixels 0 and 1 agree; pixel 2 (inside the budget) does not.
    let mut data = gray_pixels(200, 40);
    data[6] = 1;
    data[7] = 2;
    data[8] = 3;
    let img = Raster { width: 200, height: 1, channels: 3, data };
    assert!(!is_color_grayscale(&img));
    assert!(has_color(&img));
}

#[test]
fn sampled_classifier_misses_color_after_budget() {
    // Budget is 3 pixels; color first appears at pixel 10.
    let mut data = gray_pixels(200, 40);
    data[30] = 1;
    data[31] = 2;
    data[32] = 3;
    let img = Raster { width: 200, height: 1, channels: 3, data };
    assert!(is_color_grayscale(&img)); // approximate by design
    assert!(has_color(&img)); // the full scan is authoritative
}

#[test]
fn sampled_classifier_accepts_monochrome_image() {
    let img = Raster { width: 200, height: 2, channels: 3, data: gray_pixels(400, 77) };
    assert!(is_color_grayscale(&img));
    assert!(!has_color(&img));
}

#[test]
fn full_scan_finds_color_in_last_pixel() {
    let mut data = gray_pixels(10, 5);
    let n = data.len();
    data[n - 1] = 200;
    let img = Raster { width: 10, height: 1, channels: 3, data };
    assert!(has_color(&img));
}

#[test]
fn full_scan_on_single_channel_reports_no_color() {
    let img = Raster { width: 3, height: 1, channels: 1, data: vec![1, 2, 3] };
    assert!(!has_color(&img));
}

#[test]
fn tiny_image_has_zero_budget() {
    // 4 pixels: budget 4*3/200 = 0, so nothing is examined and the sampled
    // answer is monochrome even for a colored image.
    let img = Raster { width: 2, height: 2, channels: 3, data: vec![
        1, 2, 3, 4, 5, 6, 7, 8, 9, 10, 11, 12,
    ] };
    assert!(is_color_grayscale(&img));
    assert!(has_color(&img));
}
