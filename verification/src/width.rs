//! Display widths of text in terminal columns, as the `unicode-width` crate
//! measures them, and word wrapping to a width, as `textwrap` does it.
use vstd::prelude::*;

verus! {

/// The column width `unicode_width::UnicodeWidthChar::width` gives a character
/// (`None` for control characters).
pub uninterp spec fn char_width_named(c: char) -> Option<usize>;

/// The column width `unicode_width::UnicodeWidthStr::width` gives a text.
pub uninterp spec fn str_width_named(s: Seq<char>) -> usize;

/// A character that `unicode-width` counts as one column wherever it stands:
/// printable ASCII, or a box-drawing character (U+2500 to U+257F).
pub open spec fn narrow_char(c: char) -> bool {
    (0x20 <= (c as u32) && (c as u32) < 0x7F) || (0x2500 <= (c as u32) && (c as u32) < 0x2580)
}

/// The width of a character, counting control characters as zero.
pub open spec fn char_columns(c: char) -> nat {
    match char_width_named(c) {
        Some(w) => w as nat,
        None => 0,
    }
}

/// Calls `UnicodeWidthChar::width` of `unicode-width`. The contract claims that
/// the result is a function of the character alone, that printable ASCII and
/// box-drawing characters are one column wide and that ASCII and C1 control
/// characters have no width (`None`), as the crate's `single_char_width` and
/// its width tables show; the widths of other characters come from those
/// tables and are not stated.
#[verifier::external_body]
pub(crate) fn char_width(c: char) -> (r: Option<usize>)
    ensures
        r == char_width_named(c),
        narrow_char(c) ==> r == Some(1usize),
        (c as u32) < 0x20 || (0x7F <= (c as u32) && (c as u32) < 0xA0) ==> r is None,
{
    unicode_width::UnicodeWidthChar::width(c)
}

/// Calls `UnicodeWidthStr::width` of `unicode-width`. The contract claims that
/// the result is a function of the text alone and that a text made only of
/// printable ASCII and box-drawing characters is as wide as it is long (the
/// crate's `str_width` counts each such character as one column and no
/// ligature rule starts from one); the crate's other rules (emoji and script
/// ligatures, line breaks) are not stated.
#[verifier::external_body]
pub(crate) fn text_width(s: &str) -> (r: usize)
    ensures
        r == str_width_named(s@),
        (forall|i: int| 0 <= i < s@.len() ==> narrow_char(#[trigger] s@[i])) ==> r == s@.len(),
{
    unicode_width::UnicodeWidthStr::width(s)
}

/// The lines `textwrap::wrap` gives for a text at a width of `width`
/// columns, every line after the first indented by one space, words that do
/// not fit on a line broken, lines filled first-fit.
pub uninterp spec fn wrapped_lines(text: Seq<char>, width: usize) -> Seq<Seq<char>>;

/// The texts of a sequence of strings.
pub open spec fn string_views(s: Seq<String>) -> Seq<Seq<char>> {
    s.map_values(|x: String| x@)
}

/// Calls `textwrap::wrap` with `Options::new(width)`, a subsequent indent of
/// one space and the first-fit algorithm, and owns the lines it gives. The
/// contract claims only that the lines are a function of the text and the
/// width; where textwrap breaks lines is not stated. A width of at least one
/// column is required, as the card always wraps to one column or more.
#[verifier::external_body]
pub(crate) fn wrap_text(text: &str, width: usize) -> (r: Vec<String>)
    requires
        width >= 1,
    ensures
        string_views(r@) == wrapped_lines(text@, width),
{
    let options = textwrap::Options::new(width)
        .subsequent_indent(" ")
        .wrap_algorithm(textwrap::WrapAlgorithm::FirstFit);
    textwrap::wrap(text, options).into_iter().map(|line| line.into_owned()).collect()
}

} // verus!
