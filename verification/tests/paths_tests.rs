use rustyimg::options::ConfigOptions;
use rustyimg::paths::{get_dest_name, get_filename_extension, rename_jpeg_file};

fn opts(suffix: &str, overwrite: bool) -> ConfigOptions {
    let mut o = ConfigOptions::all_off();
    o.suffix = suffix.to_string();
    o.overwrite = overwrite;
    o
}

#[test]
fn dest_name_with_suffix() {
    let r = get_dest_name("/a/b/photo.JPG", &opts("bw", false)).unwrap();
    assert_eq!(r.0, "/a/b/photo_bw.JPG");
    assert_eq!(r.1, "photo");
    assert_eq!(r.2, "/a/b");
    assert_eq!(r.3, "JPG");
}

#[test]
fn dest_name_without_suffix_skips() {
    assert!(get_dest_name("/a/b/photo.JPG", &opts("", false)).is_none());
}

#[test]
fn dest_name_without_suffix_with_overwrite_proceeds() {
    let r = get_dest_name("/a/b/photo.JPG", &opts("", true)).unwrap();
    assert_eq!(r.0, "/a/b/photo.JPG");
}

#[test]
fn heic_source_remaps_to_jpg() {
    let r = get_dest_name("/x/img.heic", &opts("", false)).unwrap();
    assert_eq!(r.0, "/x/img.jpg");
    assert_eq!(r.3, "heic");
}

#[test]
fn heic_remap_is_case_insensitive() {
    let r = get_dest_name("/x/IMG.HEIC", &opts("", false)).unwrap();
    assert_eq!(r.0, "/x/IMG.jpg");
}

#[test]
fn relative_path_without_directory() {
    let r = get_dest_name("photo.jpg", &opts("bw", false)).unwrap();
    assert_eq!(r.0, "photo_bw.jpg");
    assert_eq!(r.2, "");
}

#[test]
fn extension_of_simple_name() {
    assert_eq!(get_filename_extension("/a/b/c.jpeg").unwrap(), "jpeg");
    assert_eq!(get_filename_extension("a.tar.gz").unwrap(), "gz");
}

#[test]
fn extension_absent() {
    assert!(get_filename_extension("/a/b/noext").is_none());
    assert!(get_filename_extension(".bashrc").is_none());
    assert!(get_filename_extension("/dotted.dir/plain").is_none());
}

#[test]
fn extension_empty_after_trailing_dot() {
    assert_eq!(get_filename_extension("name.").unwrap(), "");
}

#[test]
fn rename_jpeg_builds_jpg_path() {
    assert_eq!(rename_jpeg_file("/a/b/c.jpeg"), "/a/b/c.jpg");
    assert_eq!(rename_jpeg_file("/a/b/c.JPEG"), "/a/b/c.jpg");
}
