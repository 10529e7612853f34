//! Text in the operating system's wide representation: UTF-16 code units
//! that a terminator ends.

use vstd::prelude::*;

verus! {

/// The one or two UTF-16 code units of a character.
pub open spec fn utf16_of_char(c: char) -> Seq<u16> {
    let v = c as int;
    if v < 0x10000 {
        seq![v as u16]
    } else {
        seq![(0xD800 + (v - 0x10000) / 0x400) as u16, (0xDC00 + (v - 0x10000) % 0x400) as u16]
    }
}

/// The UTF-16 encoding of a text.
pub open spec fn utf16_units(text: Seq<char>) -> Seq<u16>
    decreases text.len(),
{
    if text.len() == 0 {
        Seq::empty()
    } else {
        utf16_units(text.drop_last()) + utf16_of_char(text.last())
    }
}

/// The position of the first terminator among `units`, or their number where
/// none of them is one.
pub open spec fn first_nul(units: Seq<u16>) -> int
    decreases units.len(),
{
    if units.len() == 0 || units[0] == 0 {
        0
    } else {
        1 + first_nul(units.drop_first())
    }
}

/// What encoding `text` for the operating system gives: its UTF-16 code
/// units without the terminator that ends them, or the position of a
/// terminator that stands before the end. A terminator in the last place is
/// taken for the end of the text.
pub open spec fn wide_encoding(text: Seq<char>) -> Result<Seq<u16>, int> {
    let units = utf16_units(text);
    let at = first_nul(units);
    if at >= units.len() {
        Ok(units)
    } else if at == units.len() - 1 {
        Ok(units.drop_last())
    } else {
        Err(at)
    }
}

/// The first terminator is a terminator, and none stands before it.
pub proof fn lemma_first_nul(units: Seq<u16>)
    ensures
        0 <= first_nul(units) <= units.len(),
        first_nul(units) < units.len() ==> units[first_nul(units)] == 0,
        forall|i: int| 0 <= i < first_nul(units) ==> #[trigger] units[i] != 0,
    decreases units.len(),
{
    if units.len() > 0 && units[0] != 0 {
        let rest = units.drop_first();
        lemma_first_nul(rest);
        assert forall|i: int| 0 <= i < first_nul(units) implies #[trigger] units[i] != 0 by {
            if i > 0 {
                assert(units[i] == rest[i - 1]);
            }
        }
    }
}

/// Text that was encoded for the operating system holds no terminator, so
/// that the operating system reads all of it. Text that was refused holds a
/// terminator at the position that is reported, before its last place.
pub proof fn lemma_wide_encoding(text: Seq<char>)
    ensures
        match wide_encoding(text) {
            Ok(units) => forall|i: int| 0 <= i < units.len() ==> #[trigger] units[i] != 0,
            Err(at) => 0 <= at < utf16_units(text).len() - 1 && utf16_units(text)[at] == 0,
        },
{
    lemma_first_nul(utf16_units(text));
}

/// Calls `widestring::U16CString::from_str` and hands out the code units of
/// the string it made, without their terminator, or the position that its
/// error reports. The contract says of that function what its source shows:
/// the text is encoded as UTF-16, the first zero unit is looked for, and only
/// one in the last place is accepted.
#[verifier::external_body]
pub(crate) fn to_wide(text: &str) -> (wide: Result<Vec<u16>, usize>)
    ensures
        match wide {
            Ok(units) => wide_encoding(text@) == Ok::<Seq<u16>, int>(units@),
            Err(at) => wide_encoding(text@) == Err::<Seq<u16>, int>(at as int),
        },
{
    match widestring::U16CString::from_str(text) {
        Ok(string) => Ok(string.into_vec()),
        Err(error) => Err(error.nul_position()),
    }
}

} // verus!
