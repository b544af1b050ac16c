//! Conversions between text and stored bytes.

use vstd::prelude::*;
use vstd::std_specs::iter::IteratorSpec;
use vstd::string::{StrSliceExecFns, StringSliceAdditionalSpecFns};
use vstd::utf8::{decode_utf8, encode_utf8, valid_utf8};

verus! {

/// Each character cut down to its low eight bits.
pub open spec fn bytes_of_chars(text: Seq<char>) -> Seq<u8> {
    text.map_values(|c: char| c as u8)
}

/// Each byte read as the character with that code point.
pub open spec fn chars_of_bytes(bytes: Seq<u8>) -> Seq<char> {
    bytes.map_values(|b: u8| b as char)
}

/// The bytes kept for a piece of text: one per character.
pub fn string_to_bytes(text: &String) -> (bytes: Vec<u8>)
    ensures
        bytes@ == bytes_of_chars(text@),
{
    broadcast use vstd::string::group_string_axioms;

    let mut bytes: Vec<u8> = Vec::new();
    let chars = text.as_str().chars();
    for ch in it: chars
        invariant
            it.seq() == text@,
            bytes@ == bytes_of_chars(text@.take(it.index() as int)),
    {
        let byte = ch as u8;
        bytes.push(byte);
        assert(bytes@ =~= bytes_of_chars(text@.take(it.index() + 1)));
    }
    assert(text@.take(text@.len() as int) =~= text@);
    bytes
}

/// Appends one character to `text`. The body is `String::push` of the
/// standard library, whose documented effect is all this contract states.
#[verifier::external_body]
fn push_char(text: &mut String, ch: char)
    ensures
        final(text)@ == old(text)@.push(ch),
{
    text.push(ch);
}

/// The text that shows stored bytes: one character per byte.
pub fn bytes_to_string(bytes: &Vec<u8>) -> (text: String)
    ensures
        text@ == chars_of_bytes(bytes@),
{
    let mut text = String::new();
    let mut i: usize = 0;
    while i < bytes.len()
        invariant
            i <= bytes.len(),
            text@ == chars_of_bytes(bytes@.take(i as int)),
        decreases bytes.len() - i,
    {
        let ch = bytes[i] as char;
        push_char(&mut text, ch);
        assert(text@ =~= chars_of_bytes(bytes@.take(i + 1)));
        i += 1;
    }
    assert(bytes@.take(i as int) =~= bytes@);
    text
}

/// A copy of `items`.
pub fn copy_of<T: Copy>(items: &Vec<T>) -> (copy: Vec<T>)
    ensures
        copy@ == items@,
{
    let mut copy: Vec<T> = Vec::new();
    let mut i: usize = 0;
    while i < items.len()
        invariant
            i <= items.len(),
            copy@ == items@.take(i as int),
        decreases items.len() - i,
    {
        copy.push(items[i]);
        assert(copy@ =~= items@.take(i + 1));
        i += 1;
    }
    assert(items@.take(i as int) =~= items@);
    copy
}

/// The encoding of a text has at least one byte for each character.
pub proof fn lemma_encoding_is_no_shorter(text: Seq<char>)
    ensures
        encode_utf8(text).len() >= text.len(),
    decreases text.len(),
{
    if text.len() > 0 {
        lemma_encoding_is_no_shorter(text.drop_first());
    }
}

/// The number of characters in `text`.
pub fn char_count(text: &String) -> (count: usize)
    ensures
        count == text@.len(),
{
    text.as_str().unicode_len()
}

/// The first 32 bytes of the encoding of `text`, which has 32 characters.
pub(crate) fn leading_bytes(text: &String) -> (bytes: [u8; 32])
    requires
        text@.len() == 32,
    ensures
        bytes@ == encode_utf8(text@).take(32),
{
    proof {
        lemma_encoding_is_no_shorter(text@);
    }
    let encoded = text.as_str().as_bytes();
    let mut bytes: [u8; 32] = [0u8;32];
    let mut i: usize = 0;
    while i < 32
        invariant
            i <= 32,
            encoded@ == encode_utf8(text@),
            encoded@.len() >= 32,
            forall|j: int| 0 <= j < i ==> bytes@[j] == encoded@[j],
        decreases 32 - i,
    {
        bytes[i] = encoded[i];
        i += 1;
    }
    assert(bytes@ =~= encode_utf8(text@).take(32));
    bytes
}

/// The text that `bytes` encode, where they are well-formed UTF-8, and
/// `None` where they are not. The body is `String::from_utf8` of the
/// standard library; the contract states what its documentation says: it
/// succeeds exactly on valid UTF-8, and the string then holds the
/// characters that the bytes encode.
#[verifier::external_body]
fn text_of_utf8(bytes: Vec<u8>) -> (text: Option<String>)
    ensures
        text is Some <==> valid_utf8(bytes@),
        text is Some ==> text->0@ == decode_utf8(bytes@),
{
    match String::from_utf8(bytes) {
        Ok(text) => Some(text),
        Err(_) => None,
    }
}

/// The text that a stored hash encodes, or `None` where it is no text.
pub fn hash_text(hash: &[u8; 32]) -> (text: Option<String>)
    ensures
        text is Some <==> valid_utf8(hash@),
        text is Some ==> text->0@ == decode_utf8(hash@),
{
    let mut bytes: Vec<u8> = Vec::new();
    let mut i: usize = 0;
    while i < 32
        invariant
            i <= 32,
            bytes@ == hash@.take(i as int),
        decreases 32 - i,
    {
        bytes.push(hash[i]);
        assert(bytes@ =~= hash@.take(i + 1));
        i += 1;
    }
    assert(hash@.take(32) =~= hash@);
    text_of_utf8(bytes)
}

} // verus!
