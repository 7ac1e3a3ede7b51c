use rustyimg::raster::Raster;
use rustyimg::stats::{get_channel, get_channel_ranges};

#[test]
fn channel_extraction_walks_columns_first() {
    // row-major storage: (0,0)=1 (1,0)=2 (0,1)=3 (1,1)=4
    let img = Raster { width: 2, height: 2, channels: 1, data: vec![1, 2, 3, 4] };
    assert_eq!(get_channel(&img, 0), vec![1, 3, 2, 4]);
}

#[test]
fn channel_extraction_picks_one_channel() {
    let img = Raster { width: 2, height: 1, channels: 3, data: vec![1, 2, 3, 4, 5, 6] };
    assert_eq!(get_channel(&img, 0), vec![1, 4]);
    assert_eq!(get_channel(&img, 1), vec![2, 5]);
    assert_eq!(get_channel(&img, 2), vec![3, 6]);
}

#[test]
fn range_finds_min_and_max() {
    let img = Raster { width: 2, height: 2, channels: 1, data: vec![9, 3, 250, 17] };
    let r = get_channel_ranges(&img, 0).unwrap();
    assert_eq!(r.min, 3);
    assert_eq!(r.max, 250);
}

#[test]
fn range_per_channel() {
    let img = Raster { width: 2, height: 1, channels: 3, data: vec![10, 0, 200, 30, 5, 100] };
    let r0 = get_channel_ranges(&img, 0).unwrap();
    assert_eq!((r0.min, r0.max), (10, 30));
    let r1 = get_channel_ranges(&img, 1).unwrap();
    assert_eq!((r1.min, r1.max), (0, 5));
    let r2 = get_channel_ranges(&img, 2).unwrap();
    assert_eq!((r2.min, r2.max), (100, 200));
}

#[test]
fn range_of_flat_channel_is_degenerate() {
    let img = Raster { width: 3, height: 1, channels: 1, data: vec![42, 42, 42] };
    let r = get_channel_ranges(&img, 0).unwrap();
    assert_eq!((r.min, r.max), (42, 42));
}

#[test]
fn range_of_empty_raster_is_an_error() {
    let img = Raster { width: 0, height: 5, channels: 1, data: vec![] };
    assert!(get_channel_ranges(&img, 0).is_none());
}
