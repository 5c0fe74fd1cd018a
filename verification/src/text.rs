//! Fixed-width text fields: permissive UTF-8 decoding and removal of trailing padding.

use vstd::prelude::*;
use vstd::string::StrSliceExecFns;
use vstd::utf8::{
    decode_utf8, encode_utf8, encode_utf8_decode_utf8, encode_utf8_valid_utf8, valid_utf8,
};

use crate::error::DecodeError;
use crate::stream::ByteStream;

verus! {

/// The text that `String::from_utf8_lossy` returns for bytes that are not valid UTF-8. The
/// standard library puts U+FFFD in place of each malformed part; where, is not stated here.
pub uninterp spec fn replaced_text(bytes: Seq<u8>) -> Seq<char>;

/// The text a byte string stands for when it is decoded permissively.
pub open spec fn lossy_text(bytes: Seq<u8>) -> Seq<char> {
    if valid_utf8(bytes) {
        decode_utf8(bytes)
    } else {
        replaced_text(bytes)
    }
}

/// The characters that pad a fixed-width field: NUL and space.
pub open spec fn is_padding(c: char) -> bool {
    c == '\0' || c == ' '
}

/// `text` without the padding characters at its end.
pub open spec fn without_padding(text: Seq<char>) -> Seq<char>
    decreases text.len(),
{
    if text.len() > 0 && is_padding(text.last()) {
        without_padding(text.drop_last())
    } else {
        text
    }
}

/// The content of a padded text field that holds `bytes`.
pub open spec fn field_text(bytes: Seq<u8>) -> Seq<char> {
    without_padding(lossy_text(bytes))
}

/// Calls `String::from_utf8_lossy` and takes ownership of what it returns. The standard
/// library documents that valid UTF-8 is converted to the string it encodes; of any other
/// input the contract says only that the result depends on the bytes alone.
#[verifier::external_body]
pub(crate) fn utf8_lossy(bytes: &[u8]) -> (text: String)
    ensures
        valid_utf8(bytes@) ==> text@ == decode_utf8(bytes@),
        !valid_utf8(bytes@) ==> text@ == replaced_text(bytes@),
{
    String::from_utf8_lossy(bytes).into_owned()
}

/// Removes the padding at the end of `text`.
pub fn trim_padding(text: &str) -> (trimmed: String)
    ensures
        trimmed@ == without_padding(text@),
{
    let mut end: usize = text.unicode_len();
    let mut at_padding = true;
    assert(text@.take(end as int) == text@);
    while at_padding && end > 0
        invariant
            end <= text@.len(),
            without_padding(text@) == without_padding(text@.take(end as int)),
            !at_padding ==> end > 0 && !is_padding(text@[end - 1]),
        decreases end, at_padding as int,
    {
        let c = text.get_char(end - 1);
        if c == '\0' || c == ' ' {
            assert(text@.take(end as int).drop_last() == text@.take(end - 1));
            end = end - 1;
        } else {
            at_padding = false;
        }
    }
    text.substring_char(0, end).to_owned()
}

/// Decodes the bytes of a padded text field: permissive decoding, then trimming.
pub fn decode_field(bytes: &[u8]) -> (text: String)
    ensures
        text@ == field_text(bytes@),
{
    let padded = utf8_lossy(bytes);
    trim_padding(padded.as_str())
}

/// Reads a text field of `length` bytes and strips its padding.
pub fn read_string(length: usize, stream: &mut ByteStream) -> (result: Result<String, DecodeError>)
    ensures
        match result {
            Ok(text) => {
                &&& length <= old(stream).remaining().len()
                &&& text@ == field_text(old(stream).remaining().take(length as int))
                &&& final(stream).remaining() == old(stream).remaining().skip(length as int)
            },
            Err(error) => {
                &&& error == DecodeError::TruncatedInput
                &&& length > old(stream).remaining().len()
                &&& *final(stream) == *old(stream)
            },
        },
{
    let bytes = stream.read_bytes(length)?;
    Ok(decode_field(bytes))
}

/// Trimming keeps a prefix of the text, that prefix does not end in padding, and
/// everything after it is padding.
pub proof fn lemma_without_padding(text: Seq<char>)
    ensures
        without_padding(text).len() <= text.len(),
        without_padding(text) == text.take(without_padding(text).len() as int),
        without_padding(text).len() > 0 ==> !is_padding(without_padding(text).last()),
        forall|i: int| without_padding(text).len() <= i < text.len() ==> is_padding(text[i]),
    decreases text.len(),
{
    if text.len() > 0 && is_padding(text.last()) {
        lemma_without_padding(text.drop_last());
        let kept = without_padding(text).len() as int;
        assert(text.drop_last().take(kept) == text.take(kept));
        assert forall|i: int| kept <= i < text.len() implies is_padding(text[i]) by {
            if i < text.len() - 1 {
                assert(text.drop_last()[i] == text[i]);
            }
        }
    } else {
        assert(text.take(text.len() as int) == text);
    }
}

/// Text that fills a field of `width` bytes exactly and does not end in padding is read
/// back as it was written, whatever follows the field.
pub proof fn lemma_field_round_trip(text: Seq<char>, width: nat, rest: Seq<u8>)
    requires
        encode_utf8(text).len() == width,
        text.len() > 0 ==> !is_padding(text.last()),
    ensures
        field_text((encode_utf8(text) + rest).take(width as int)) == text,
{
    encode_utf8_valid_utf8(text);
    encode_utf8_decode_utf8(text);
    assert((encode_utf8(text) + rest).take(width as int) == encode_utf8(text));
}

} // verus!
