//! Names derived from an input path.

use vstd::prelude::*;

verus! {

/// What `str::to_lowercase` returns for a text.
pub uninterp spec fn lower_of(s: Seq<char>) -> Seq<char>;

/// What `Path::file_stem` gives for a path, as text (empty where the path
/// has no file name).
pub uninterp spec fn stem_of(s: Seq<char>) -> Seq<char>;

/// Relies on `str::to_lowercase`: the result depends on the text alone.
#[verifier::external_body]
fn lowercase(s: &str) -> (r: String)
    ensures
        r@ == lower_of(s@),
{
    s.to_lowercase()
}

/// Relies on `std::path::Path::file_stem`: the file name without its last
/// extension, read lossily as text; empty where there is none.
#[verifier::external_body]
fn file_stem(path: &str) -> (r: String)
    ensures
        r@ == stem_of(path@),
{
    std::path::Path::new(path).file_stem().unwrap_or_default().to_string_lossy().to_string()
}

pub open spec fn pdf_suffix() -> Seq<char> {
    seq!['.', 'p', 'd', 'f']
}

pub open spec fn result_suffix() -> Seq<char> {
    "_ocr_result.txt"@
}

/// Whether `s` ends with `suffix`.
pub open spec fn ends_with(s: Seq<char>, suffix: Seq<char>) -> bool {
    s.len() >= suffix.len() && s.subrange(s.len() - suffix.len(), s.len() as int) == suffix
}

/// Whether an already lower-cased path names a PDF document.
pub fn has_pdf_suffix(lowered: &str) -> (r: bool)
    ensures
        r == ends_with(lowered@, pdf_suffix()),
{
    let n = lowered.unicode_len();
    if n < 4 {
        return false;
    }
    let r = lowered.get_char(n - 4) == '.' && lowered.get_char(n - 3) == 'p' && lowered.get_char(
        n - 2,
    ) == 'd' && lowered.get_char(n - 1) == 'f';
    assert(r == (lowered@.subrange(n - 4, n as int) =~= pdf_suffix()));
    r
}

/// Whether a path names a PDF document, whatever the case of its extension.
pub fn is_pdf_path(path: &str) -> (r: bool)
    ensures
        r == ends_with(lower_of(path@), pdf_suffix()),
{
    let lowered = lowercase(path);
    has_pdf_suffix(lowered.as_str())
}

/// The name of the file that holds the result for a document with base
/// name `stem`.
pub fn result_name_for_stem(stem: &str) -> (r: String)
    ensures
        r@ == stem@ + result_suffix(),
{
    String::from_str(stem).concat("_ocr_result.txt")
}

/// The name of the file that holds the result for the document at `path`:
/// its base name with the result suffix.
pub fn result_file_name(path: &str) -> (r: String)
    ensures
        r@ == stem_of(path@) + result_suffix(),
{
    let stem = file_stem(path);
    result_name_for_stem(stem.as_str())
}

} // verus!
