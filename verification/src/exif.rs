//! Metadata policy: the field pair type, the blocklist of container-intrinsic
//! fields that are never round-tripped, the color-space rewrite that follows
//! a grayscale conversion, and the field lists written by the date and artist
//! actions. Reading fields from a file and writing them back are the
//! caller's business; nothing here performs I/O.

use vstd::prelude::*;

verus! {

/// One metadata field: a name and a value, both plain text.
pub struct ExifField {
    pub name: String,
    pub value: String,
}

/// Fields intrinsic to the container or the reading tool; they describe the
/// file rather than the image and must never be copied to a destination.
pub open spec fn blocklisted(name: Seq<char>) -> bool {
    ||| name == "SourceFile"@
    ||| name == "ExifToolVersion"@
    ||| name == "FileName"@
    ||| name == "Directory"@
    ||| name == "FileAccessDate"@
    ||| name == "FileInodeChangeDate"@
    ||| name == "FileModifyDate"@
    ||| name == "FilePermissions"@
    ||| name == "FileSize"@
    ||| name == "FileType"@
    ||| name == "FileTypeExtension"@
    ||| name == "MIMEType"@
}

/// A field the filter keeps.
pub open spec fn editable_field(f: ExifField) -> bool {
    !blocklisted(f.name@)
}

/// Whether a name is on the blocklist.
fn is_blocklisted_name(name: &String) -> (r: bool)
    ensures
        r == blocklisted(name@),
{
    if *name == "SourceFile".to_owned() {
        return true;
    }
    if *name == "ExifToolVersion".to_owned() {
        return true;
    }
    if *name == "FileName".to_owned() {
        return true;
    }
    if *name == "Directory".to_owned() {
        return true;
    }
    if *name == "FileAccessDate".to_owned() {
        return true;
    }
    if *name == "FileInodeChangeDate".to_owned() {
        return true;
    }
    if *name == "FileModifyDate".to_owned() {
        return true;
    }
    if *name == "FilePermissions".to_owned() {
        return true;
    }
    if *name == "FileSize".to_owned() {
        return true;
    }
    if *name == "FileType".to_owned() {
        return true;
    }
    if *name == "FileTypeExtension".to_owned() {
        return true;
    }
    if *name == "MIMEType".to_owned() {
        return true;
    }
    false
}

/// Keeps exactly the editable fields, in their order of first appearance.
pub fn filter_exif_fields(fields: Vec<ExifField>) -> (r: Vec<ExifField>)
    ensures
        r@ == fields@.filter(|f: ExifField| editable_field(f)),
{
    let n = fields.len();
    let mut r: Vec<ExifField> = Vec::new();
    let mut i: usize = 0;
    proof {
        reveal_with_fuel(Seq::<_>::filter, 1);
        assert(fields@.subrange(0, 0) =~= Seq::<ExifField>::empty());
        assert(r@ =~= fields@.subrange(0, 0).filter(|f: ExifField| editable_field(f)));
    }
    while i < n
        invariant
            n == fields@.len(),
            i <= n,
            r@ == fields@.subrange(0, i as int).filter(|f: ExifField| editable_field(f)),
        decreases n - i,
    {
        let hit = is_blocklisted_name(&fields[i].name);
        if !hit {
            assert(editable_field(fields@[i as int]));
            let f = &fields[i];
            r.push(ExifField { name: f.name.clone(), value: f.value.clone() });
        } else {
            assert(!editable_field(fields@[i as int]));
        }
        proof {
            let pred = |f: ExifField| editable_field(f);
            let prefix = fields@.subrange(0, i as int);
            let one = seq![fields@[i as int]];
            assert(fields@.subrange(0, i + 1) =~= prefix + one);
            Seq::<ExifField>::filter_distributes_over_add(prefix, one, pred);
            reveal_with_fuel(Seq::<_>::filter, 2);
            assert(one.drop_last() =~= Seq::<ExifField>::empty());
            if pred(fields@[i as int]) {
                assert(one.filter(pred) =~= seq![fields@[i as int]]);
                assert(r@ =~= prefix.filter(pred) + one.filter(pred));
            } else {
                assert(one.filter(pred) =~= Seq::<ExifField>::empty());
                assert(r@ =~= prefix.filter(pred) + one.filter(pred));
            }
        }
        i = i + 1;
    }
    proof {
        assert(fields@.subrange(0, n as int) =~= fields@);
    }
    r
}

/// What the color-space rewrite makes of one field's value: a field named
/// `ColorSpaceData` becomes `GRAY`, one named `ColorSpace` becomes `1`, and
/// every other field keeps its value.
pub open spec fn rewritten_value(name: Seq<char>, value: Seq<char>) -> Seq<char> {
    if name == "ColorSpaceData"@ {
        "GRAY"@
    } else if name == "ColorSpace"@ {
        "1"@
    } else {
        value
    }
}

/// Produces the field set written to the destination: empty when metadata is
/// stripped; with the color space rewritten to grayscale when the pixel
/// transform reduced the raster to one channel; otherwise the source fields
/// unchanged. Names and order of first appearance are always preserved.
pub fn rewrite_exif_fields(fields: &Vec<ExifField>, noexif: bool, gray_converted: bool) -> (r: Vec<
    ExifField,
>)
    ensures
        noexif ==> r@.len() == 0,
        !noexif ==> {
            &&& r@.len() == fields@.len()
            &&& forall|i: int|
                0 <= i < fields@.len() ==> (#[trigger] r@[i]).name@ == fields@[i].name@
                    && r@[i].value@ == (if gray_converted {
                    rewritten_value(fields@[i].name@, fields@[i].value@)
                } else {
                    fields@[i].value@
                })
        },
{
    let mut r: Vec<ExifField> = Vec::new();
    if noexif {
        return r;
    }
    let n = fields.len();
    let mut i: usize = 0;
    while i < n
        invariant
            n == fields@.len(),
            i <= n,
            r@.len() == i,
            forall|j: int|
                0 <= j < i ==> (#[trigger] r@[j]).name@ == fields@[j].name@ && r@[j].value@ == (
                if gray_converted {
                    rewritten_value(fields@[j].name@, fields@[j].value@)
                } else {
                    fields@[j].value@
                }),
        decreases n - i,
    {
        let f = &fields[i];
        let value: String = if gray_converted {
            let csd: String = "ColorSpaceData".to_owned();
            let cs: String = "ColorSpace".to_owned();
            if f.name == csd {
                "GRAY".to_owned()
            } else if f.name == cs {
                "1".to_owned()
            } else {
                f.value.clone()
            }
        } else {
            f.value.clone()
        };
        r.push(ExifField { name: f.name.clone(), value });
        i = i + 1;
    }
    r
}

/// Index of the first field with the given name, or -1 when none has it.
pub open spec fn first_index_with_name(s: Seq<ExifField>, name: Seq<char>) -> int
    decreases s.len(),
{
    if s.len() == 0 {
        -1
    } else if s[0].name@ == name {
        0
    } else {
        let r = first_index_with_name(s.drop_first(), name);
        if r < 0 {
            -1
        } else {
            r + 1
        }
    }
}

/// What `first_index_with_name` returns: an in-range index of the name with
/// no earlier occurrence, or -1 with no occurrence at all.
pub proof fn lemma_first_index_with_name(s: Seq<ExifField>, name: Seq<char>)
    ensures
        -1 <= first_index_with_name(s, name) < s.len(),
        first_index_with_name(s, name) >= 0 ==> s[first_index_with_name(s, name)].name@ == name,
        forall|j: int| 0 <= j < first_index_with_name(s, name) ==> s[j].name@ != name,
        first_index_with_name(s, name) == -1 ==> forall|j: int|
            0 <= j < s.len() ==> s[j].name@ != name,
    decreases s.len(),
{
    if s.len() > 0 && s[0].name@ != name {
        lemma_first_index_with_name(s.drop_first(), name);
        assert forall|j: int| 0 < j < s.len() implies s.drop_first()[j - 1] == s[j] by {}
    }
}

/// The characterization above pins `first_index_with_name` down.
pub proof fn lemma_first_index_unique(s: Seq<ExifField>, name: Seq<char>, i: int)
    requires
        i == -1 || (0 <= i < s.len() && s[i].name@ == name),
        i == -1 ==> forall|j: int| 0 <= j < s.len() ==> s[j].name@ != name,
        forall|j: int| 0 <= j < i ==> s[j].name@ != name,
    ensures
        first_index_with_name(s, name) == i,
{
    lemma_first_index_with_name(s, name);
    let fi = first_index_with_name(s, name);
    if i == -1 {
        if fi >= 0 {
            assert(s[fi].name@ == name);
        }
    } else if fi == -1 {
        assert(s[i].name@ != name);
    } else if fi < i {
        assert(s[fi].name@ != name);
    } else if fi > i {
        assert(s[i].name@ != name);
    }
}

/// Finds the first field with the given name.
pub fn find_field(fields: &Vec<ExifField>, name: &str) -> (r: Option<usize>)
    ensures
        match r {
            Some(i) => i < fields@.len() && i == first_index_with_name(fields@, name@),
            None => first_index_with_name(fields@, name@) == -1,
        },
{
    let name_owned: String = name.to_owned();
    let n = fields.len();
    let mut i: usize = 0;
    while i < n
        invariant
            n == fields@.len(),
            i <= n,
            name_owned@ == name@,
            forall|j: int| 0 <= j < i ==> fields@[j].name@ != name@,
        decreases n - i,
    {
        if fields[i].name == name_owned {
            proof {
                lemma_first_index_unique(fields@, name@, i as int);
            }
            return Some(i);
        }
        i = i + 1;
    }
    proof {
        lemma_first_index_unique(fields@, name@, -1);
    }
    None
}

/// Index of the field the year is read from: the first field named by the
/// highest-priority date tag that occurs at all, or -1 when none does.
pub open spec fn year_source_index(fields: Seq<ExifField>) -> int {
    if first_index_with_name(fields, "DateTimeOriginal"@) >= 0 {
        first_index_with_name(fields, "DateTimeOriginal"@)
    } else if first_index_with_name(fields, "DateTimeDigitized"@) >= 0 {
        first_index_with_name(fields, "DateTimeDigitized"@)
    } else if first_index_with_name(fields, "DateTime"@) >= 0 {
        first_index_with_name(fields, "DateTime"@)
    } else if first_index_with_name(fields, "CreateDate"@) >= 0 {
        first_index_with_name(fields, "CreateDate"@)
    } else if first_index_with_name(fields, "SubSecCreateDate"@) >= 0 {
        first_index_with_name(fields, "SubSecCreateDate"@)
    } else if first_index_with_name(fields, "GPSDateTime"@) >= 0 {
        first_index_with_name(fields, "GPSDateTime"@)
    } else {
        -1
    }
}

/// The year taken from a field set: the first four characters of the chosen
/// date field's value; none when no date tag occurs, or when the chosen
/// value is shorter than a year.
pub open spec fn year_of_fields(fields: Seq<ExifField>) -> Option<Seq<char>> {
    let i = year_source_index(fields);
    if i < 0 {
        None
    } else if fields[i].value@.len() >= 4 {
        Some(fields[i].value@.subrange(0, 4))
    } else {
        None
    }
}

/// Extracts the year for the copyright tag from the date fields of an
/// image's metadata, trying the date tags in their priority order.
pub fn extract_image_year(fields: &Vec<ExifField>) -> (r: Option<String>)
    ensures
        match r {
            Some(y) => year_of_fields(fields@) matches Some(v) && v == y@,
            None => year_of_fields(fields@) is None,
        },
{
    let found: Option<usize> = if let Some(i) = find_field(fields, "DateTimeOriginal") {
        Some(i)
    } else if let Some(i) = find_field(fields, "DateTimeDigitized") {
        Some(i)
    } else if let Some(i) = find_field(fields, "DateTime") {
        Some(i)
    } else if let Some(i) = find_field(fields, "CreateDate") {
        Some(i)
    } else if let Some(i) = find_field(fields, "SubSecCreateDate") {
        Some(i)
    } else if let Some(i) = find_field(fields, "GPSDateTime") {
        Some(i)
    } else {
        None
    };
    match found {
        Some(i) => {
            assert(i == year_source_index(fields@));
            let v: &String = &fields[i].value;
            if v.as_str().unicode_len() >= 4 {
                Some(v.as_str().substring_char(0, 4).to_owned())
            } else {
                None
            }
        },
        None => None,
    }
}

/// The value of every date tag set by the date action: the date with its
/// dashes replaced by colons, followed by a fixed noon time.
pub open spec fn exif_datetime_value(date: Seq<char>) -> Seq<char> {
    date.map_values(
        |c: char|
            if c == '-' {
                ':'
            } else {
                c
            },
    ) + " 12:00:00"@
}

/// Replaces every dash with a colon.
fn dashes_to_colons(s: &str) -> (r: String)
    ensures
        r@ == s@.map_values(
            |c: char|
                if c == '-' {
                    ':'
                } else {
                    c
                },
        ),
{
    let n = s.unicode_len();
    let mut r = String::new();
    let mut i: usize = 0;
    while i < n
        invariant
            n == s@.len(),
            i <= n,
            r@ == s@.subrange(0, i as int).map_values(
                |c: char|
                    if c == '-' {
                        ':'
                    } else {
                        c
                    },
            ),
        decreases n - i,
    {
        let c = s.get_char(i);
        if c == '-' {
            r.append(":");
        } else {
            r.append(s.substring_char(i, i + 1));
        }
        proof {
            reveal_strlit(":");
            let f = |c: char|
                if c == '-' {
                    ':'
                } else {
                    c
                };
            assert(s@.subrange(0, i + 1).map_values(f) =~= s@.subrange(0, i as int).map_values(f)
                + seq![f(s@[i as int])]);
        }
        i = i + 1;
    }
    proof {
        assert(s@.subrange(0, n as int) =~= s@);
    }
    r
}

/// Builds the field list written by the date action: the seven standard
/// date tags, each set to the formatted date, followed by the given extra
/// fields in their order.
pub fn set_exif_date(date: &str, copy_tags: Vec<ExifField>) -> (r: Vec<ExifField>)
    requires
        date@.len() > 0,
    ensures
        r@.len() == 7 + copy_tags@.len(),
        r@[0].name@ == "DateTimeOriginal"@,
        r@[1].name@ == "DateTimeDigitized"@,
        r@[2].name@ == "DateTime"@,
        r@[3].name@ == "CreateDate"@,
        r@[4].name@ == "ModifyDate"@,
        r@[5].name@ == "SubSecCreateDate"@,
        r@[6].name@ == "GPSDateTime"@,
        forall|i: int| 0 <= i < 7 ==> (#[trigger] r@[i]).value@ == exif_datetime_value(date@),
        forall|j: int|
            0 <= j < copy_tags@.len() ==> (#[trigger] r@[7 + j]).name@ == copy_tags@[j].name@
                && r@[7 + j].value@ == copy_tags@[j].value@,
{
    let value: String = dashes_to_colons(date).concat(" 12:00:00");
    let mut r: Vec<ExifField> = Vec::new();
    r.push(ExifField { name: "DateTimeOriginal".to_owned(), value: value.clone() });
    r.push(ExifField { name: "DateTimeDigitized".to_owned(), value: value.clone() });
    r.push(ExifField { name: "DateTime".to_owned(), value: value.clone() });
    r.push(ExifField { name: "CreateDate".to_owned(), value: value.clone() });
    r.push(ExifField { name: "ModifyDate".to_owned(), value: value.clone() });
    r.push(ExifField { name: "SubSecCreateDate".to_owned(), value: value.clone() });
    r.push(ExifField { name: "GPSDateTime".to_owned(), value: value.clone() });
    let n = copy_tags.len();
    let mut j: usize = 0;
    while j < n
        invariant
            n == copy_tags@.len(),
            j <= n,
            r@.len() == 7 + j,
            r@[0].name@ == "DateTimeOriginal"@,
            r@[1].name@ == "DateTimeDigitized"@,
            r@[2].name@ == "DateTime"@,
            r@[3].name@ == "CreateDate"@,
            r@[4].name@ == "ModifyDate"@,
            r@[5].name@ == "SubSecCreateDate"@,
            r@[6].name@ == "GPSDateTime"@,
            forall|i: int| 0 <= i < 7 ==> (#[trigger] r@[i]).value@ == exif_datetime_value(date@),
            forall|k: int|
                0 <= k < j ==> (#[trigger] r@[7 + k]).name@ == copy_tags@[k].name@ && r@[7
                    + k].value@ == copy_tags@[k].value@,
        decreases n - j,
    {
        let t = &copy_tags[j];
        r.push(ExifField { name: t.name.clone(), value: t.value.clone() });
        j = j + 1;
    }
    r
}

/// Builds the two fields written by the artist action: the artist, and a
/// copyright line of the form `?? <year> <artist>`, where the year is the
/// first four characters of the given date when one was given, else the
/// fallback year the caller extracted from the image.
pub fn set_artist_name(artist: &str, date: &str, fallback_year: &str) -> (r: Vec<ExifField>)
    requires
        artist@.len() > 0,
        date@.len() == 0 || date@.len() >= 4,
    ensures
        r@.len() == 2,
        r@[0].name@ == "Artist"@,
        r@[0].value@ == artist@,
        r@[1].name@ == "Copyright"@,
        r@[1].value@ == "?? "@ + (if date@.len() > 0 {
            date@.subrange(0, 4)
        } else {
            fallback_year@
        }) + " "@ + artist@,
{
    let year: &str = if date.unicode_len() > 0 {
        date.substring_char(0, 4)
    } else {
        fallback_year
    };
    let mut copyright = String::new();
    copyright.append("?? ");
    copyright.append(year);
    copyright.append(" ");
    copyright.append(artist);
    let mut r: Vec<ExifField> = Vec::new();
    r.push(ExifField { name: "Artist".to_owned(), value: artist.to_owned() });
    r.push(ExifField { name: "Copyright".to_owned(), value: copyright });
    r
}

} // verus!
