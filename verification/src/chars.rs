//! The Unicode character classes that the tokenizer relies on.
//!
//! The standard library decides them from the Unicode character database.
//! Nothing here is proved: each class is given a name, and the standard
//! functions are taken to compute the classes of these names.

use vstd::prelude::*;

verus! {

/// Whether `c` has the Unicode property `White_Space`: the result of
/// `char::is_whitespace`.
pub uninterp spec fn is_whitespace_char(c: char) -> bool;

/// Whether `c` has the Unicode property `Alphabetic`: the result of
/// `char::is_alphabetic`.
pub uninterp spec fn is_alphabetic_char(c: char) -> bool;

/// Whether `c` has one of the Unicode general categories for numbers, `Nd`,
/// `Nl` or `No`: the result of `char::is_numeric`.
pub uninterp spec fn is_numeric_char(c: char) -> bool;

/// `char::is_whitespace` of the standard library. Assumed: it depends on the
/// character alone, and its result is what `is_whitespace_char` names.
pub assume_specification[ char::is_whitespace ](c: char) -> (b: bool)
    ensures
        b == is_whitespace_char(c),
;

/// `char::is_alphabetic` of the standard library. Assumed: it depends on the
/// character alone, and its result is what `is_alphabetic_char` names.
pub assume_specification[ char::is_alphabetic ](c: char) -> (b: bool)
    ensures
        b == is_alphabetic_char(c),
;

/// `char::is_alphanumeric` of the standard library. Assumed, as it is
/// documented: it holds of the characters of which `char::is_alphabetic` or
/// `char::is_numeric` holds, and of no others.
pub assume_specification[ char::is_alphanumeric ](c: char) -> (b: bool)
    ensures
        b == (is_alphabetic_char(c) || is_numeric_char(c)),
;

} // verus!
