//! What this crate takes on trust about the text functions of std that it
//! calls. Nothing here is proved.

use vstd::prelude::*;

verus! {

/// Whether Unicode classes `c` as a letter or a number: what
/// `char::is_alphanumeric` of std returns for `c`. Nothing is said here about
/// which characters those are.
pub uninterp spec fn unicode_alphanumeric(c: char) -> bool;

/// `char::is_alphanumeric` of std: the result depends on the character alone.
pub assume_specification[ char::is_alphanumeric ](c: char) -> (r: bool)
    ensures
        r == unicode_alphanumeric(c),
;

/// `String::push` of std: the string afterwards is the string before with `c`
/// appended.
pub assume_specification[ std::string::String::push ](s: &mut std::string::String, c: char)
    ensures
        final(s)@ == old(s)@.push(c),
;

} // verus!
