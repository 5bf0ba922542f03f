//! Comparing text.
use crate::encoding::same_bytes;
use vstd::prelude::*;
use vstd::utf8;

verus! {

/// Text is determined by its bytes.
pub proof fn lemma_text_of_bytes(a: Seq<char>, b: Seq<char>)
    requires
        utf8::encode_utf8(a) == utf8::encode_utf8(b),
    ensures
        a == b,
{
    utf8::encode_utf8_decode_utf8(a);
    utf8::encode_utf8_decode_utf8(b);
}

/// Whether two pieces of text are the same.
pub fn same_text(a: &str, b: &str) -> (same: bool)
    ensures
        same == (a@ == b@),
{
    let same = same_bytes(a.as_bytes(), b.as_bytes());
    proof {
        if same {
            lemma_text_of_bytes(a@, b@);
        }
    }
    same
}

} // verus!
