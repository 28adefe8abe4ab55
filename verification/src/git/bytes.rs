//! Output of `git` as text.

use vstd::prelude::*;
use vstd::utf8::{
    decode_utf8, encode_scalar, encode_utf8, encode_utf8_decode_utf8, encode_utf8_valid_utf8,
    has_width_1_encoding, last_continuation_byte, leading_byte_width_1, leading_byte_width_2,
    leading_byte_width_3, leading_byte_width_4, second_last_continuation_byte,
    third_last_continuation_byte, valid_utf8,
};

verus! {

/// The text that `String::from_utf8_lossy` makes of some bytes.
pub uninterp spec fn lossy_text(bytes: Seq<u8>) -> Seq<char>;

/// `String::from_utf8_lossy`, as an owned text: the text is a function of the bytes, and where
/// they are UTF-8 it is the one they encode. What stands for bytes that are not UTF-8
/// (replacement characters) is left to [`lossy_text`].
#[verifier::external_body]
pub(crate) fn lossy(b: &[u8]) -> (r: String)
    ensures
        r@ == lossy_text(b@),
        valid_utf8(b@) ==> r@ == decode_utf8(b@),
{
    String::from_utf8_lossy(b).into_owned()
}

/// The text of some bytes: the one they encode, where they are UTF-8.
pub open spec fn output_text(bytes: Seq<u8>) -> Seq<char> {
    if valid_utf8(bytes) {
        decode_utf8(bytes)
    } else {
        lossy_text(bytes)
    }
}

/// Bytes that encode a text are read as that text.
pub proof fn encoded_text_reads_back(text: Seq<char>)
    ensures
        output_text(encode_utf8(text)) == text,
{
    encode_utf8_valid_utf8(text);
    encode_utf8_decode_utf8(text);
}

proof fn no_byte_is_zero(v: u32)
    by (bit_vector)
    requires
        0 < v <= 0x10ffff,
    ensures
        has_width_1_encoding(v) ==> leading_byte_width_1(v) != 0,
        leading_byte_width_2(v) != 0,
        leading_byte_width_3(v) != 0,
        leading_byte_width_4(v) != 0,
        last_continuation_byte(v) != 0,
        second_last_continuation_byte(v) != 0,
        third_last_continuation_byte(v) != 0,
{
}

proof fn a_character_is_no_zero(c: char)
    requires
        c != '\0',
    ensures
        0 < c as u32 <= 0x10ffff,
{
}

/// A zero byte stands for the character NUL alone.
pub proof fn only_nul_is_zero(text: Seq<char>)
    requires
        !text.contains('\0'),
    ensures
        !encode_utf8(text).contains(0u8),
    decreases text.len(),
{
    if text.len() > 0 {
        let rest = text.drop_first();
        if rest.contains('\0') {
            let j = choose|j: int| 0 <= j < rest.len() && rest[j] == '\0';
            assert(text[j + 1] == '\0');
        }
        only_nul_is_zero(rest);
        assert(text.contains(text[0]));
        let v = text[0] as u32;
        a_character_is_no_zero(text[0]);
        no_byte_is_zero(v);
        let first = encode_scalar(v);
        let all = encode_utf8(text);
        assert(all == first + encode_utf8(rest));
        if all.contains(0u8) {
            let j = choose|j: int| 0 <= j < all.len() && all[j] == 0u8;
            if j >= first.len() {
                assert(encode_utf8(rest)[j - first.len()] == 0u8);
            }
        }
    }
}

} // verus!
