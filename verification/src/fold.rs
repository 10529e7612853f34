//! Folding a label to the form under which the catalog knows a name:
//! without the white space around it and in lower case. The field of an
//! event comes rendered for debugging, so there the double quotes around the
//! text and the white space inside them are taken off first.
//!
//! White space and lower case are those of the standard library, which is
//! called for both. What it takes for white space is written out here. Lower
//! case is written out for text of ASCII; of other text the result has a
//! name only.

use vstd::prelude::*;
use vstd::string::StrSliceExecFns;
use vstd::utf8::is_ascii_chars;

verus! {

/// Whether `c` is white space: one of the characters that Unicode gives the
/// property `White_Space`.
pub open spec fn is_white_space(c: char) -> bool {
    ||| ('\u{9}' <= c && c <= '\u{d}')
    ||| c == ' '
    ||| c == '\u{85}'
    ||| c == '\u{a0}'
    ||| c == '\u{1680}'
    ||| ('\u{2000}' <= c && c <= '\u{200a}')
    ||| c == '\u{2028}'
    ||| c == '\u{2029}'
    ||| c == '\u{202f}'
    ||| c == '\u{205f}'
    ||| c == '\u{3000}'
}

/// The lower case of a character of ASCII; any other character is left as
/// it is.
pub open spec fn lower(c: char) -> char {
    if 'A' <= c && c <= 'Z' {
        (c as int + 32) as char
    } else {
        c
    }
}

/// A text without the white space in front of it.
pub open spec fn skip_spaces(text: Seq<char>) -> Seq<char>
    decreases text.len(),
{
    if text.len() > 0 && is_white_space(text[0]) {
        skip_spaces(text.drop_first())
    } else {
        text
    }
}

/// A text without the white space at its end.
pub open spec fn drop_spaces(text: Seq<char>) -> Seq<char>
    decreases text.len(),
{
    if text.len() > 0 && is_white_space(text.last()) {
        drop_spaces(text.drop_last())
    } else {
        text
    }
}

/// A text without the white space around it.
pub open spec fn trimmed(text: Seq<char>) -> Seq<char> {
    drop_spaces(skip_spaces(text))
}

/// A text without the pair of double quotes around it, if it has one.
pub open spec fn unquoted(text: Seq<char>) -> Seq<char> {
    if text.len() >= 2 && text[0] == '"' && text.last() == '"' {
        text.subrange(1, text.len() - 1)
    } else {
        text
    }
}

/// A text with each capital letter of ASCII in lower case.
pub open spec fn ascii_lowered(text: Seq<char>) -> Seq<char> {
    text.map_values(|c: char| lower(c))
}

// What `str::to_lowercase` makes of a text that is not all ASCII: the
// standard library's tables of Unicode decide.
pub uninterp spec fn lowercased(text: Seq<char>) -> Seq<char>;

/// A text in lower case.
pub open spec fn lowercase(text: Seq<char>) -> Seq<char> {
    if is_ascii_chars(text) {
        ascii_lowered(text)
    } else {
        lowercased(text)
    }
}

/// The name that a label rendered for debugging stands for: the label
/// without the white space around it, without the pair of double quotes
/// around it, if it has one, and without the white space inside them.
pub open spec fn unrendered(label: Seq<char>) -> Seq<char> {
    trimmed(unquoted(trimmed(label)))
}

/// The form under which the catalog looks up the category of an event whose
/// field is rendered as `label`: the name that the label stands for, in
/// lower case.
pub open spec fn category_key(label: Seq<char>) -> Seq<char> {
    lowercase(unrendered(label))
}

/// Calls `str::trim` of the standard library, which removes leading and
/// trailing white space as the Unicode property `White_Space` defines it.
/// The contract writes that property out: the characters from the tabulator
/// to the carriage return, the blank, U+0085, U+00A0, U+1680, U+2000 to
/// U+200A, U+2028, U+2029, U+202F, U+205F and U+3000.
#[verifier::external_body]
pub(crate) fn trim(text: &str) -> (inner: &str)
    ensures
        inner@ == trimmed(text@),
{
    text.trim()
}

/// Calls `str::to_lowercase` of the standard library, which gives the text
/// in lower case as Unicode defines it. The contract says what that is for
/// text of ASCII, where only the letters `A` to `Z` have another lower case,
/// `a` to `z`; for other text it gives the result its name and says no more
/// of it.
#[verifier::external_body]
pub(crate) fn to_lowercase(text: &str) -> (lower: String)
    ensures
        lower@ == (if is_ascii_chars(text@) {
            ascii_lowered(text@)
        } else {
            lowercased(text@)
        }),
{
    text.to_lowercase()
}

/// The text without the pair of double quotes around it, if it has one.
pub fn unquote(text: &str) -> (inner: &str)
    ensures
        inner@ == unquoted(text@),
{
    let n = text.unicode_len();
    if n >= 2 && text.get_char(0) == '"' && text.get_char(n - 1) == '"' {
        text.substring_char(1, n - 1)
    } else {
        text
    }
}

/// The form under which the catalog looks up the category of an event whose
/// field is rendered as `label`.
pub fn fold(label: &str) -> (key: String)
    ensures
        key@ == category_key(label@),
{
    to_lowercase(trim(unquote(trim(label))))
}

/// Whether a text does not begin with white space.
pub open spec fn clean_front(text: Seq<char>) -> bool {
    text.len() == 0 || !is_white_space(text[0])
}

/// Whether a text does not end with white space.
pub open spec fn clean_back(text: Seq<char>) -> bool {
    text.len() == 0 || !is_white_space(text.last())
}

/// What is left when the white space in front of a text is skipped does not
/// begin with white space, and is of ASCII where the text is.
pub proof fn lemma_skip_spaces(text: Seq<char>)
    ensures
        clean_front(skip_spaces(text)),
        is_ascii_chars(text) ==> is_ascii_chars(skip_spaces(text)),
    decreases text.len(),
{
    if text.len() > 0 && is_white_space(text[0]) {
        let rest = text.drop_first();
        lemma_skip_spaces(rest);
        if is_ascii_chars(text) {
            assert forall|i: int| 0 <= i < rest.len() implies '\0' <= #[trigger] rest[i]
                <= '\u{7f}' by {
                assert(rest[i] == text[i + 1]);
            }
        }
    }
}

/// What is left when the white space at the end of a text is dropped does
/// not end with white space, begins as the text does, and is of ASCII where
/// the text is.
pub proof fn lemma_drop_spaces(text: Seq<char>)
    ensures
        clean_back(drop_spaces(text)),
        clean_front(text) ==> clean_front(drop_spaces(text)),
        is_ascii_chars(text) ==> is_ascii_chars(drop_spaces(text)),
    decreases text.len(),
{
    if text.len() > 0 && is_white_space(text.last()) {
        let front = text.drop_last();
        lemma_drop_spaces(front);
        if clean_front(text) {
            assert(text.len() > 1);
            assert(front[0] == text[0]);
        }
        if is_ascii_chars(text) {
            assert forall|i: int| 0 <= i < front.len() implies '\0' <= #[trigger] front[i]
                <= '\u{7f}' by {
                assert(front[i] == text[i]);
            }
        }
    }
}

/// A trimmed text neither begins nor ends with white space, trimming it
/// again changes nothing, and it is of ASCII where the text is.
pub proof fn lemma_trimmed(text: Seq<char>)
    ensures
        clean_front(trimmed(text)),
        clean_back(trimmed(text)),
        trimmed(trimmed(text)) == trimmed(text),
        is_ascii_chars(text) ==> is_ascii_chars(trimmed(text)),
{
    lemma_skip_spaces(text);
    lemma_drop_spaces(skip_spaces(text));
    lemma_clean_is_trimmed(trimmed(text));
}

/// Trimming changes nothing in a text that neither begins nor ends with
/// white space.
pub proof fn lemma_clean_is_trimmed(text: Seq<char>)
    requires
        clean_front(text),
        clean_back(text),
    ensures
        trimmed(text) == text,
{
}

/// Lower case changes no white space and makes none.
pub proof fn lemma_lower_keeps_space(c: char)
    ensures
        is_white_space(lower(c)) == is_white_space(c),
        (lower(c) == '"') == (c == '"'),
        lower(lower(c)) == lower(c),
        '\0' <= c <= '\u{7f}' ==> '\0' <= lower(c) <= '\u{7f}',
{
}

/// Putting a text in lower case and skipping the white space in front of it
/// can be done in either order.
pub proof fn lemma_skip_lowered(text: Seq<char>)
    ensures
        skip_spaces(ascii_lowered(text)) == ascii_lowered(skip_spaces(text)),
    decreases text.len(),
{
    if text.len() > 0 {
        lemma_lower_keeps_space(text[0]);
        assert(ascii_lowered(text)[0] == lower(text[0]));
        if is_white_space(text[0]) {
            lemma_skip_lowered(text.drop_first());
            assert(ascii_lowered(text).drop_first() =~= ascii_lowered(text.drop_first()));
        }
    }
}

/// Putting a text in lower case and dropping the white space at its end can
/// be done in either order.
pub proof fn lemma_drop_lowered(text: Seq<char>)
    ensures
        drop_spaces(ascii_lowered(text)) == ascii_lowered(drop_spaces(text)),
    decreases text.len(),
{
    if text.len() > 0 {
        lemma_lower_keeps_space(text.last());
        assert(ascii_lowered(text).last() == lower(text.last()));
        if is_white_space(text.last()) {
            lemma_drop_lowered(text.drop_last());
            assert(ascii_lowered(text).drop_last() =~= ascii_lowered(text.drop_last()));
        }
    }
}

/// Lower case of ASCII goes through trimming and through taking the quotes
/// off, does nothing the second time, and keeps a text of ASCII one.
pub proof fn lemma_lowered(text: Seq<char>)
    ensures
        trimmed(ascii_lowered(text)) == ascii_lowered(trimmed(text)),
        unquoted(ascii_lowered(text)) == ascii_lowered(unquoted(text)),
        ascii_lowered(ascii_lowered(text)) == ascii_lowered(text),
        is_ascii_chars(text) ==> is_ascii_chars(ascii_lowered(text)),
{
    lemma_skip_lowered(text);
    lemma_drop_lowered(skip_spaces(text));
    let low = ascii_lowered(text);
    if text.len() >= 2 {
        lemma_lower_keeps_space(text[0]);
        lemma_lower_keeps_space(text.last());
        assert(low[0] == lower(text[0]));
        assert(low.last() == lower(text.last()));
        assert(low.subrange(1, low.len() - 1) =~= ascii_lowered(
            text.subrange(1, text.len() - 1),
        ));
    }
    assert(ascii_lowered(low) =~= low) by {
        assert forall|i: int| 0 <= i < low.len() implies ascii_lowered(low)[i] == low[i] by {
            lemma_lower_keeps_space(text[i]);
        }
    }
    if is_ascii_chars(text) {
        assert forall|i: int| 0 <= i < low.len() implies '\0' <= #[trigger] low[i]
            <= '\u{7f}' by {
            lemma_lower_keeps_space(text[i]);
        }
    }
}

/// A text of ASCII without its quotes is of ASCII.
pub proof fn lemma_unquoted_ascii(text: Seq<char>)
    requires
        is_ascii_chars(text),
    ensures
        is_ascii_chars(unquoted(text)),
{
    let inner = unquoted(text);
    assert forall|i: int| 0 <= i < inner.len() implies '\0' <= #[trigger] inner[i]
        <= '\u{7f}' by {
        if inner != text {
            assert(inner[i] == text[i + 1]);
        }
    }
}

/// A text of ASCII that neither begins nor ends with white space and holds
/// no capital letter is left as it is by trimming and lower case, and is its
/// own key where it does not begin with a double quote.
pub proof fn lemma_folded_is_stable(text: Seq<char>)
    requires
        is_ascii_chars(text),
        clean_front(text),
        clean_back(text),
        forall|j: int| 0 <= j < text.len() ==> !('A' <= #[trigger] text[j] && text[j] <= 'Z'),
    ensures
        lowercase(trimmed(text)) == text,
        text.len() > 0 && text[0] != '"' ==> category_key(text) == text,
{
    lemma_clean_is_trimmed(text);
    assert(ascii_lowered(text) =~= text);
}

/// Trimming and lower case do nothing the second time, where the trimmed
/// text is of ASCII.
pub proof fn lemma_folded_twice(text: Seq<char>)
    requires
        is_ascii_chars(trimmed(text)),
    ensures
        lowercase(trimmed(lowercase(trimmed(text)))) == lowercase(trimmed(text)),
{
    let outer = trimmed(text);
    lemma_trimmed(text);
    lemma_lowered(outer);
}

/// Folding a label and folding what trimming and lower case make of it come
/// to the same, where the trimmed label is of ASCII.
pub proof fn lemma_fold_of_folded(label: Seq<char>)
    requires
        is_ascii_chars(trimmed(label)),
    ensures
        category_key(lowercase(trimmed(label))) == category_key(label),
{
    let outer = trimmed(label);
    let inner = trimmed(unquoted(outer));
    let low = ascii_lowered(outer);
    lemma_trimmed(label);
    lemma_unquoted_ascii(outer);
    lemma_trimmed(unquoted(outer));
    assert(category_key(label) == ascii_lowered(inner));
    // The label in lower case is trimmed already, and folding it meets lower
    // case at every step.
    lemma_lowered(outer);
    assert(trimmed(low) == low);
    lemma_lowered(unquoted(outer));
    assert(trimmed(unquoted(low)) == ascii_lowered(inner));
    lemma_lowered(inner);
}

} // verus!
