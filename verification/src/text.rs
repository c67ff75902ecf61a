//! Strings and their bytes: what the library takes the standard string
//! type to do where the verifier's own library is silent, and how texts
//! reach a byte sink.

use vstd::prelude::*;
use vstd::utf8::*;

verus! {

/// `String::push`: the string grows by the given character at its end.
pub assume_specification[ String::push ](s: &mut String, ch: char)
    ensures
        final(s)@ == old(s)@.push(ch),
;

/// `String::with_capacity`: a new string that is empty, whatever room was
/// asked for. A capacity beyond `isize::MAX` makes it panic and is ruled
/// out.
pub assume_specification[ String::with_capacity ](capacity: usize) -> (text: String)
    requires
        capacity <= isize::MAX,
    ensures
        text@ == Seq::<char>::empty(),
;

/// The UTF-8 encoding of a text made of two parts is the encoding of the
/// first followed by the encoding of the second.
pub proof fn lemma_encode_concat(a: Seq<char>, b: Seq<char>)
    ensures
        encode_utf8(a + b) == encode_utf8(a) + encode_utf8(b),
    decreases a.len(),
{
    if a.len() == 0 {
        assert(a + b =~= b);
    } else {
        lemma_encode_concat(a.drop_first(), b);
        assert((a + b).drop_first() =~= a.drop_first() + b);
        assert((a + b)[0] == a[0]);
    }
}

/// Appends the UTF-8 bytes of a text to a byte sink.
pub fn push_text(output: &mut Vec<u8>, text: &str)
    ensures
        final(output)@ == old(output)@ + encode_utf8(text@),
{
    output.extend_from_slice(text.as_bytes());
    assert(output@ =~= old(output)@ + encode_utf8(text@));
}

} // verus!
