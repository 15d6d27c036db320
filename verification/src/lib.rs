//! Classification of image file formats from filename extensions.
//!
//! The classifier maps an extension string, or a path from which the
//! extension is extracted, to one tag of a closed set of supported image
//! encodings, or to a typed error that keeps the distinction between a
//! missing extension and an unrecognized one.

use vstd::prelude::*;
use vstd::std_specs::cmp::PartialEqSpec;

mod text;

use crate::text::last_index_of;
use crate::text::last_index_of_char;
use crate::text::str_eq;

verus! {

/// The supported still-image encodings.
#[derive(Debug, Clone, Copy, PartialEq, Eq, Structural)]
pub enum ImageFormat {
    /// JPEG image format.
    Jpeg,
    /// PNG image format.
    Png,
    /// JPEG XL image format.
    JpegXl,
    /// WebP image format.
    WebP,
    /// AVIF image format.
    Avif,
}

/// The extension table: which format tag, if any, an extension string
/// denotes. Matching is case-sensitive and exact.
pub open spec fn ext_format(ext: Seq<char>) -> Option<ImageFormat> {
    if ext == "jpg"@ || ext == "jpeg"@ {
        Some(ImageFormat::Jpeg)
    } else if ext == "png"@ {
        Some(ImageFormat::Png)
    } else if ext == "jxl"@ {
        Some(ImageFormat::JpegXl)
    } else if ext == "webp"@ {
        Some(ImageFormat::WebP)
    } else if ext == "avif"@ {
        Some(ImageFormat::Avif)
    } else {
        None
    }
}

impl ImageFormat {
    /// Classifies a file extension.
    ///
    /// Returns the format tag that the table gives for `ext`, and
    /// `ImageFormatError::Unknown` carrying `ext` verbatim when the table
    /// has no entry for it. Text input never fails with
    /// `ImageFormatError::Missing`.
    pub fn from_ext(ext: &str) -> (r: Result<Self, ImageFormatError>)
        ensures
            ext_classification(ext@, r),
    {
        if str_eq(ext, "jpg") || str_eq(ext, "jpeg") {
            Ok(ImageFormat::Jpeg)
        } else if str_eq(ext, "png") {
            Ok(ImageFormat::Png)
        } else if str_eq(ext, "jxl") {
            Ok(ImageFormat::JpegXl)
        } else if str_eq(ext, "webp") {
            Ok(ImageFormat::WebP)
        } else if str_eq(ext, "avif") {
            Ok(ImageFormat::Avif)
        } else {
            Err(ImageFormatError::Unknown(ext.to_owned()))
        }
    }

    /// Classifies a file path by its extension.
    ///
    /// The extension is the text strictly after the last `.` of the final
    /// path component, where the final component is the text after the last
    /// `/`. A path with no dot in its final component, a hidden
    /// file whose name starts with its only dot, and a path ending in a dot
    /// all count as having no extension and fail with
    /// `ImageFormatError::Missing`; otherwise the extension is classified
    /// exactly as `from_ext` does.
    pub fn from_path(path: &str) -> (r: Result<Self, ImageFormatError>)
        ensures
            path_classification(path@, r),
    {
        let n: usize = path.unicode_len();
        let start: usize = match last_index_of(path, '/') {
            Some(i) => i + 1,
            None => 0,
        };
        let name = path.substring_char(start, n);
        proof {
            if last_index_of_char(path@, '/') is None {
                assert(path@.subrange(0, n as int) =~= path@);
            }
            assert(name@ == final_component(path@));
        }
        let m: usize = name.unicode_len();
        match last_index_of(name, '.') {
            None => Err(ImageFormatError::Missing),
            Some(i) => {
                if i == 0 || i + 1 == m {
                    Err(ImageFormatError::Missing)
                } else {
                    let ext = name.substring_char(i + 1, m);
                    ImageFormat::from_ext(ext)
                }
            },
        }
    }
}

/// Why a classification call failed.
#[derive(Debug)]
pub enum ImageFormatError {
    /// No extension could be determined from the input.
    Missing,
    /// An extension was present but matches no entry of the table; the
    /// unrecognized text is kept verbatim for diagnostics.
    Unknown(String),
}

impl PartialEq for ImageFormatError {
    fn eq(&self, other: &Self) -> (r: bool) {
        match self {
            ImageFormatError::Missing => match other {
                ImageFormatError::Missing => true,
                ImageFormatError::Unknown(_) => false,
            },
            ImageFormatError::Unknown(a) => match other {
                ImageFormatError::Missing => false,
                ImageFormatError::Unknown(b) => a.eq(b),
            },
        }
    }
}

impl vstd::std_specs::cmp::PartialEqSpecImpl for ImageFormatError {
    open spec fn obeys_eq_spec() -> bool {
        true
    }

    open spec fn eq_spec(&self, other: &Self) -> bool {
        match self {
            ImageFormatError::Missing => other is Missing,
            ImageFormatError::Unknown(a) => other matches ImageFormatError::Unknown(b) && a@ == b@,
        }
    }
}

/// What `ImageFormat::from_ext` promises of its result `r` for the
/// extension `ext`: the table's tag on a hit, and otherwise an `Unknown`
/// error carrying the extension verbatim.
pub open spec fn ext_classification(ext: Seq<char>, r: Result<ImageFormat, ImageFormatError>) -> bool {
    match r {
        Ok(f) => ext_format(ext) == Some(f),
        Err(e) => ext_format(ext) is None && (e matches ImageFormatError::Unknown(u) && u@ == ext),
    }
}

/// The final component of a path: the text after the last `/`, or the whole
/// path when it holds no `/`.
pub open spec fn final_component(path: Seq<char>) -> Seq<char> {
    match last_index_of_char(path, '/') {
        Some(i) => path.subrange(i + 1, path.len() as int),
        None => path,
    }
}

/// The extension of a path: the text strictly after the last `.` of the
/// final path component. A component with no dot, one whose only dot leads a
/// hidden-file name, and one ending in a dot have no extension.
pub open spec fn path_extension(path: Seq<char>) -> Option<Seq<char>> {
    let name = final_component(path);
    match last_index_of_char(name, '.') {
        Some(i) => if i == 0 || i == name.len() - 1 {
            None
        } else {
            Some(name.subrange(i + 1, name.len() as int))
        },
        None => None,
    }
}

/// What `ImageFormat::from_path` promises of its result `r` for the path
/// `path`: `Missing` when the path has no extension, and otherwise exactly
/// what `from_ext` promises for the extracted extension.
pub open spec fn path_classification(path: Seq<char>, r: Result<ImageFormat, ImageFormatError>) -> bool {
    match path_extension(path) {
        Some(ext) => ext_classification(ext, r),
        None => r matches Err(ImageFormatError::Missing),
    }
}

/// Classification by extension is a pure function of its input: any two
/// results that `from_ext` may return for the same extension agree, up to
/// the identity of the string allocation carried by an `Unknown` error.
pub proof fn lemma_from_ext_deterministic(
    ext: Seq<char>,
    r1: Result<ImageFormat, ImageFormatError>,
    r2: Result<ImageFormat, ImageFormatError>,
)
    requires
        ext_classification(ext, r1),
        ext_classification(ext, r2),
    ensures
        r1 is Ok <==> r2 is Ok,
        r1 is Ok ==> r1 == r2,
        r1 matches Err(e1) ==> (r2 matches Err(e2) && e1.eq_spec(&e2)),
{
}

/// Classification by path is a pure function of its input: any two results
/// that `from_path` may return for the same path agree, up to the identity
/// of the string allocation carried by an `Unknown` error.
pub proof fn lemma_from_path_deterministic(
    path: Seq<char>,
    r1: Result<ImageFormat, ImageFormatError>,
    r2: Result<ImageFormat, ImageFormatError>,
)
    requires
        path_classification(path, r1),
        path_classification(path, r2),
    ensures
        r1 is Ok <==> r2 is Ok,
        r1 is Ok ==> r1 == r2,
        r1 matches Err(e1) ==> (r2 matches Err(e2) && e1.eq_spec(&e2)),
{
}

/// The table is total and non-degenerate: every format tag is reachable,
/// that is, for each tag some extension string classifies to it.
pub proof fn lemma_every_format_reachable(f: ImageFormat)
    ensures
        exists|ext: Seq<char>| #[trigger] ext_format(ext) == Some(f),
{
    reveal_strlit("jpg");
    reveal_strlit("jpeg");
    reveal_strlit("png");
    reveal_strlit("jxl");
    reveal_strlit("webp");
    reveal_strlit("avif");
    assert("jpg"@[0] == 'j' && "jpg"@[1] == 'p');
    assert("jpeg"@[0] == 'j');
    assert("png"@[0] == 'p');
    assert("jxl"@[0] == 'j' && "jxl"@[1] == 'x');
    assert("webp"@[0] == 'w');
    assert("avif"@[0] == 'a');
    match f {
        ImageFormat::Jpeg => {
            assert(ext_format("jpg"@) == Some(ImageFormat::Jpeg));
        },
        ImageFormat::Png => {
            assert(ext_format("png"@) == Some(ImageFormat::Png));
        },
        ImageFormat::JpegXl => {
            assert(ext_format("jxl"@) == Some(ImageFormat::JpegXl));
        },
        ImageFormat::WebP => {
            assert(ext_format("webp"@) == Some(ImageFormat::WebP));
        },
        ImageFormat::Avif => {
            assert(ext_format("avif"@) == Some(ImageFormat::Avif));
        },
    }
}

} // verus!
