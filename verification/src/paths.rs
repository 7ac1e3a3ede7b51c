//! Destination-path policy: derive a destination file name from the source
//! path and the options, and decide when the operation must be skipped
//! because source and destination coincide without an overwrite request.
//!
//! Paths are modeled as plain character sequences: the directory part is
//! everything before the last `/`, the file name everything after it; the
//! extension is the file name's final dotted suffix, which does not count
//! when the dot starts the name.

use vstd::prelude::*;

use crate::options::ConfigOptions;

verus! {

/// Index of the last occurrence of `c` in `s`, or -1 when `c` does not
/// occur.
pub open spec fn last_index_of(s: Seq<char>, c: char) -> int
    decreases s.len(),
{
    if s.len() == 0 {
        -1
    } else if s[s.len() - 1] == c {
        s.len() - 1
    } else {
        last_index_of(s.drop_last(), c)
    }
}

/// What `last_index_of` returns: an in-range index of `c` with nothing equal
/// to `c` after it, or -1 with no occurrence at all.
pub proof fn lemma_last_index_of(s: Seq<char>, c: char)
    ensures
        -1 <= last_index_of(s, c) < s.len(),
        last_index_of(s, c) >= 0 ==> s[last_index_of(s, c)] == c,
        forall|j: int| last_index_of(s, c) < j < s.len() ==> s[j] != c,
    decreases s.len(),
{
    if s.len() > 0 && s[s.len() - 1] != c {
        lemma_last_index_of(s.drop_last(), c);
        assert forall|j: int| last_index_of(s, c) < j < s.len() implies s[j] != c by {
            if j < s.len() - 1 {
                assert(s.drop_last()[j] == s[j]);
            }
        }
    }
}

/// The characterization above pins `last_index_of` down: any index with the
/// same properties is it.
pub proof fn lemma_last_index_of_unique(s: Seq<char>, c: char, i: int)
    requires
        i == -1 || (0 <= i < s.len() && s[i] == c),
        forall|j: int| i < j < s.len() ==> s[j] != c,
    ensures
        last_index_of(s, c) == i,
{
    lemma_last_index_of(s, c);
    let li = last_index_of(s, c);
    if li < i {
        assert(s[i] == c);
    } else if li > i {
        assert(s[li] == c);
    }
}

/// The directory part: everything before the last `/`, empty when there is
/// no `/`.
pub open spec fn dir_of(p: Seq<char>) -> Seq<char> {
    let i = last_index_of(p, '/');
    if i < 0 {
        Seq::empty()
    } else {
        p.subrange(0, i)
    }
}

/// The file-name part: everything after the last `/`, the whole path when
/// there is no `/`.
pub open spec fn file_name_of(p: Seq<char>) -> Seq<char> {
    p.subrange(last_index_of(p, '/') + 1, p.len() as int)
}

/// The stem of a file name: everything before the final dot, unless the dot
/// is absent or starts the name, where the stem is the whole name.
pub open spec fn stem_of_name(f: Seq<char>) -> Seq<char> {
    let d = last_index_of(f, '.');
    if d <= 0 {
        f
    } else {
        f.subrange(0, d)
    }
}

/// Whether a file name carries an extension: a final dot that does not
/// start the name.
pub open spec fn has_ext(f: Seq<char>) -> bool {
    last_index_of(f, '.') > 0
}

/// The extension of a file name: everything after the final dot, empty when
/// there is none.
pub open spec fn ext_of_name(f: Seq<char>) -> Seq<char> {
    let d = last_index_of(f, '.');
    if d <= 0 {
        Seq::empty()
    } else {
        f.subrange(d + 1, f.len() as int)
    }
}

/// The HEIC container extension, compared without regard to letter case.
pub open spec fn is_heic_ext(e: Seq<char>) -> bool {
    &&& e.len() == 4
    &&& (e[0] == 'h' || e[0] == 'H')
    &&& (e[1] == 'e' || e[1] == 'E')
    &&& (e[2] == 'i' || e[2] == 'I')
    &&& (e[3] == 'c' || e[3] == 'C')
}

/// The destination path: directory (with `/` when non-empty), stem, `_` and
/// the suffix when one was given, a dot, and the output extension — `jpg`
/// for a HEIC source, because no HEIC container is ever written, else the
/// source extension unchanged.
pub open spec fn dest_name_spec(src: Seq<char>, suffix: Seq<char>) -> Seq<char> {
    let dir = dir_of(src);
    let name = file_name_of(src);
    let stem = stem_of_name(name);
    let ext = ext_of_name(name);
    let out_ext: Seq<char> = if is_heic_ext(ext) {
        seq!['j', 'p', 'g']
    } else {
        ext
    };
    (if dir.len() > 0 {
        dir + seq!['/']
    } else {
        Seq::empty()
    }) + stem + (if suffix.len() > 0 {
        seq!['_'] + suffix
    } else {
        Seq::empty()
    }) + seq!['.'] + out_ext
}

/// Index of the last occurrence of `ch` in `s`, scanning left to right.
fn last_char_index(s: &str, ch: char) -> (r: Option<usize>)
    ensures
        match r {
            Some(i) => i == last_index_of(s@, ch) && i < s@.len(),
            None => last_index_of(s@, ch) == -1,
        },
{
    let n = s.unicode_len();
    let mut found: bool = false;
    let mut idx: usize = 0;
    let mut p: usize = 0;
    while p < n
        invariant
            n == s@.len(),
            p <= n,
            !found ==> forall|j: int| 0 <= j < p ==> s@[j] != ch,
            found ==> idx < p && s@[idx as int] == ch && forall|j: int|
                idx < j < p ==> s@[j] != ch,
        decreases n - p,
    {
        let c = s.get_char(p);
        if c == ch {
            found = true;
            idx = p;
        }
        p = p + 1;
    }
    if found {
        proof {
            lemma_last_index_of_unique(s@, ch, idx as int);
        }
        Some(idx)
    } else {
        proof {
            lemma_last_index_of_unique(s@, ch, -1);
        }
        None
    }
}

/// Whether the extension names the HEIC container, in any letter case.
fn ext_is_heic(e: &str) -> (r: bool)
    ensures
        r == is_heic_ext(e@),
{
    let n = e.unicode_len();
    if n != 4 {
        return false;
    }
    let c0 = e.get_char(0);
    let c1 = e.get_char(1);
    let c2 = e.get_char(2);
    let c3 = e.get_char(3);
    (c0 == 'h' || c0 == 'H') && (c1 == 'e' || c1 == 'E') && (c2 == 'i' || c2 == 'I') && (c3 == 'c'
        || c3 == 'C')
}

/// The file-name part of a path, after the last `/`.
fn file_name_part(p: &str) -> (r: &str)
    ensures
        r@ == file_name_of(p@),
{
    let n = p.unicode_len();
    match last_char_index(p, '/') {
        Some(i) => p.substring_char(i + 1, n),
        None => p.substring_char(0, n),
    }
}

/// The directory part of a path, before the last `/`; empty without one.
fn dir_part(p: &str) -> (r: &str)
    ensures
        r@ == dir_of(p@),
{
    match last_char_index(p, '/') {
        Some(i) => p.substring_char(0, i),
        None => p.substring_char(0, 0),
    }
}

/// The extension of a file path's final component; `None` when the final
/// component has no dotted suffix.
pub fn get_filename_extension(filename: &str) -> (r: Option<String>)
    ensures
        match r {
            Some(e) => has_ext(file_name_of(filename@)) && e@ == ext_of_name(
                file_name_of(filename@),
            ),
            None => !has_ext(file_name_of(filename@)),
        },
{
    let name = file_name_part(filename);
    let n = name.unicode_len();
    match last_char_index(name, '.') {
        Some(d) => {
            if d == 0 {
                None
            } else {
                Some(name.substring_char(d + 1, n).to_owned())
            }
        },
        None => None,
    }
}

/// Derives the destination path and the source path's parts: destination,
/// stem, directory and extension. Answers `None` — the skip signal — exactly
/// when the destination coincides with the source and no overwrite was
/// requested; nothing on disk is touched either way.
pub fn get_dest_name(src_file: &str, opts: &ConfigOptions) -> (r: Option<
    (String, String, String, String),
>)
    ensures
        match r {
            None => dest_name_spec(src_file@, opts.suffix@) == src_file@ && !opts.overwrite,
            Some(t) => {
                &&& !(dest_name_spec(src_file@, opts.suffix@) == src_file@ && !opts.overwrite)
                &&& t.0@ == dest_name_spec(src_file@, opts.suffix@)
                &&& t.1@ == stem_of_name(file_name_of(src_file@))
                &&& t.2@ == dir_of(src_file@)
                &&& t.3@ == ext_of_name(file_name_of(src_file@))
            },
        },
{
    let dir = dir_part(src_file);
    let name = file_name_part(src_file);
    let n = name.unicode_len();
    let d = last_char_index(name, '.');
    let stem: &str = match d {
        Some(i) => {
            if i == 0 {
                name
            } else {
                name.substring_char(0, i)
            }
        },
        None => name,
    };
    let ext: String = match d {
        Some(i) => {
            if i == 0 {
                String::new()
            } else {
                name.substring_char(i + 1, n).to_owned()
            }
        },
        None => String::new(),
    };
    let mut dst = String::new();
    if dir.unicode_len() > 0 {
        dst.append(dir);
        dst.append("/");
    }
    dst.append(stem);
    if opts.suffix.unicode_len() > 0 {
        dst.append("_");
        dst.append(opts.suffix.as_str());
    }
    dst.append(".");
    if ext_is_heic(ext.as_str()) {
        dst.append("jpg");
    } else {
        dst.append(ext.as_str());
    }
    proof {
        reveal_strlit("/");
        reveal_strlit("_");
        reveal_strlit(".");
        reveal_strlit("jpg");
        assert(dst@ =~= dest_name_spec(src_file@, opts.suffix@));
    }
    let src_owned = src_file.to_owned();
    if dst == src_owned && !opts.overwrite {
        return None;
    }
    Some((dst, stem.to_owned(), dir.to_owned(), ext))
}

/// The path a JPEG file is renamed to: the same directory and stem with the
/// extension replaced by `jpg`. The directory part is always followed by
/// `/`, also when it is empty.
pub fn rename_jpeg_file(src_file: &str) -> (r: String)
    ensures
        r@ == dir_of(src_file@) + seq!['/'] + stem_of_name(file_name_of(src_file@)) + seq![
            '.',
            'j',
            'p',
            'g',
        ],
{
    let dir = dir_part(src_file);
    let name = file_name_part(src_file);
    let d = last_char_index(name, '.');
    let stem: &str = match d {
        Some(i) => {
            if i == 0 {
                name
            } else {
                name.substring_char(0, i)
            }
        },
        None => name,
    };
    let mut dst = String::new();
    dst.append(dir);
    dst.append("/");
    dst.append(stem);
    dst.append(".jpg");
    proof {
        reveal_strlit("/");
        reveal_strlit(".jpg");
        assert(dst@ =~= dir_of(src_file@) + seq!['/'] + stem_of_name(file_name_of(src_file@))
            + seq!['.', 'j', 'p', 'g']);
    }
    dst
}

} // verus!
