use rustyimg::exif::{
    extract_image_year, filter_exif_fields, find_field, rewrite_exif_fields, set_artist_name,
    set_exif_date, ExifField,
};

fn field(name: &str, value: &str) -> ExifField {
    ExifField { name: name.to_string(), value: value.to_string() }
}

#[test]
fn color_space_rewrite_on_grayscale_conversion() {
    let fields = vec![
        field("ColorSpace", "65535"),
        field("ColorSpaceData", "RGB"),
        field("Artist", "Someone"),
    ];
    let out = rewrite_exif_fields(&fields, false, true);
    assert_eq!(out.len(), 3);
    assert_eq!(out[0].name, "ColorSpace");
    assert_eq!(out[0].value, "1");
    assert_eq!(out[1].name, "ColorSpaceData");
    assert_eq!(out[1].value, "GRAY");
    assert_eq!(out[2].name, "Artist");
    assert_eq!(out[2].value, "Someone");
}

#[test]
fn rewrite_without_grayscale_passes_fields_through() {
    let fields = vec![field("ColorSpace", "65535"), field("Artist", "Someone")];
    let out = rewrite_exif_fields(&fields, false, false);
    assert_eq!(out.len(), 2);
    assert_eq!(out[0].value, "65535");
    assert_eq!(out[1].value, "Someone");
}

#[test]
fn rewrite_with_noexif_strips_everything() {
    let fields = vec![field("ColorSpace", "65535"), field("Artist", "Someone")];
    let out = rewrite_exif_fields(&fields, true, true);
    assert!(out.is_empty());
}

#[test]
fn filter_drops_blocklisted_fields_only() {
    let fields = vec![
        field("SourceFile", "/a/b.jpg"),
        field("Artist", "Someone"),
        field("MIMEType", "image/jpeg"),
        field("FileSize", "12345"),
        field("DateTimeOriginal", "2020:01:02 03:04:05"),
    ];
    let out = filter_exif_fields(fields);
    assert_eq!(out.len(), 2);
    assert_eq!(out[0].name, "Artist");
    assert_eq!(out[1].name, "DateTimeOriginal");
}

#[test]
fn find_field_returns_first_match() {
    let fields = vec![field("A", "1"), field("B", "2"), field("A", "3")];
    assert_eq!(find_field(&fields, "A"), Some(0));
    assert_eq!(find_field(&fields, "B"), Some(1));
    assert_eq!(find_field(&fields, "C"), None);
}

#[test]
fn year_extraction_follows_tag_priority() {
    let fields = vec![
        field("CreateDate", "2011:02:03 00:00:00"),
        field("DateTime", "2005:06:07 00:00:00"),
    ];
    assert_eq!(extract_image_year(&fields).unwrap(), "2005");
}

#[test]
fn year_extraction_without_date_tags() {
    let fields = vec![field("Artist", "Someone")];
    assert!(extract_image_year(&fields).is_none());
}

#[test]
fn year_extraction_with_short_value() {
    let fields = vec![field("DateTimeOriginal", "20")];
    assert!(extract_image_year(&fields).is_none());
}

#[test]
fn date_action_sets_all_seven_tags() {
    let out = set_exif_date("2020-01-02", vec![field("Artist", "Someone")]);
    assert_eq!(out.len(), 8);
    let names: Vec<&str> = out.iter().map(|f| f.name.as_str()).collect();
    assert_eq!(
        names,
        vec![
            "DateTimeOriginal",
            "DateTimeDigitized",
            "DateTime",
            "CreateDate",
            "ModifyDate",
            "SubSecCreateDate",
            "GPSDateTime",
            "Artist",
        ]
    );
    for f in &out[..7] {
        assert_eq!(f.value, "2020:01:02 12:00:00");
    }
    assert_eq!(out[7].value, "Someone");
}

#[test]
fn artist_action_with_date_year() {
    let out = set_artist_name("Alice", "2020-05-06", "1999");
    assert_eq!(out.len(), 2);
    assert_eq!(out[0].name, "Artist");
    assert_eq!(out[0].value, "Alice");
    assert_eq!(out[1].name, "Copyright");
    assert_eq!(out[1].value, "?? 2020 Alice");
}

#[test]
fn artist_action_with_fallback_year() {
    let out = set_artist_name("Alice", "", "1999");
    assert_eq!(out[1].value, "?? 1999 Alice");
}
