//! The configuration record that drives one file's processing.

use vstd::prelude::*;

verus! {

/// Options for a single run, built once by the caller (e.g. from a command
/// line) and passed by reference into every operation. Booleans are real
/// booleans; no global state is consulted anywhere in this crate.
pub struct ConfigOptions {
    /// Which top-level action was requested (e.g. `"process"`).
    pub action: String,
    /// The source file or directory the caller was given.
    pub src_file: String,
    /// Convert a color raster to grayscale.
    pub grayscale: bool,
    /// Apply a per-channel linear contrast stretch.
    pub autocontrast: bool,
    /// Verbose logging (only meaningful to callers; never read here).
    pub verbose: bool,
    /// Suffix appended to the destination file's base name.
    pub suffix: String,
    /// Allow the destination to coincide with the source.
    pub overwrite: bool,
    /// Force grayscale conversion of a genuinely colored image.
    pub force: bool,
    /// A configuration error was detected while building the options.
    pub error: bool,
    /// Invert every tonal value.
    pub invert: bool,
    /// Mirror the image horizontally.
    pub fliph: bool,
    /// Mirror the image vertically.
    pub flipv: bool,
    /// Strip all metadata instead of copying it to the destination.
    pub noexif: bool,
}

impl ConfigOptions {
    /// Options with everything switched off; a convenient base for callers
    /// and tests that enable one transform at a time.
    pub fn all_off() -> (r: ConfigOptions)
        ensures
            r.action@ == Seq::<char>::empty(),
            r.src_file@ == Seq::<char>::empty(),
            r.suffix@ == Seq::<char>::empty(),
            !r.grayscale && !r.autocontrast && !r.verbose && !r.overwrite && !r.force
                && !r.error && !r.invert && !r.fliph && !r.flipv && !r.noexif,
    {
        ConfigOptions {
            action: String::new(),
            src_file: String::new(),
            grayscale: false,
            autocontrast: false,
            verbose: false,
            suffix: String::new(),
            overwrite: false,
            force: false,
            error: false,
            invert: false,
            fliph: false,
            flipv: false,
            noexif: false,
        }
    }
}

} // verus!
