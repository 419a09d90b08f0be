//! Text constants as bytes.

use vstd::prelude::*;
use vstd::string::is_ascii;
use vstd::string::is_ascii_spec_bytes;

verus! {

/// The bytes of an ASCII text: one byte per character, the character's code.
pub open spec fn ascii_codes(text: Seq<char>) -> Seq<u8> {
    Seq::new(text.len(), |i: int| text[i] as u8)
}

/// Appends the bytes of an ASCII text to `out`.
pub(crate) fn push_text(out: &mut Vec<u8>, text: &str)
    requires
        is_ascii(text),
    ensures
        final(out)@ == old(out)@ + ascii_codes(text@),
{
    broadcast use is_ascii_spec_bytes;

    out.extend_from_slice(text.as_bytes());
}

} // verus!
