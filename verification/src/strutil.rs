use vstd::prelude::*;

verus! {

/// The character sequence that std's full Unicode lowercase mapping produces
/// for a given character sequence.
pub uninterp spec fn lower_chars(s: Seq<char>) -> Seq<char>;

/// The character sequence that std's full Unicode uppercase mapping produces
/// for a given character sequence.
pub uninterp spec fn upper_chars(s: Seq<char>) -> Seq<char>;

/// Whether std classifies a character as whitespace.
pub uninterp spec fn is_space(c: char) -> bool;

/// Relies on String::push: appends exactly the given character at the end.
pub assume_specification [ String::push ] (s: &mut String, c: char)
    ensures
        final(s)@ == old(s)@.push(c),
;

/// Relies on char::is_whitespace: the `White_Space` property of one
/// character, a function of the character alone.
pub assume_specification [ char::is_whitespace ] (c: char) -> (r: bool)
    ensures
        r == is_space(c),
;

/// Relies on str::to_lowercase: the Unicode lowercase mapping, a function of
/// the characters alone; an empty string stays empty.
pub assume_specification [ str::to_lowercase ] (s: &str) -> (r: String)
    ensures
        r@ == lower_chars(s@),
        s@.len() == 0 ==> r@.len() == 0,
;

/// Relies on str::to_uppercase: the Unicode uppercase mapping, a function of
/// the characters alone; an empty string stays empty.
pub assume_specification [ str::to_uppercase ] (s: &str) -> (r: String)
    ensures
        r@ == upper_chars(s@),
        s@.len() == 0 ==> r@.len() == 0,
;

} // verus!
