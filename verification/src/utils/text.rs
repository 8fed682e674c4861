//! Building text: appending characters, ASCII bytes and lower-cased text to a `String`.

use vstd::prelude::*;

verus! {

/// What `str::to_lowercase` returns for this text (Unicode lower-case mapping).
pub uninterp spec fn lowercase(text: Seq<char>) -> Seq<char>;

/// Calls `String::push`.
/// Trusted: the character is appended at the end and nothing else changes.
#[verifier::external_body]
pub(crate) fn push_char(s: &mut String, c: char)
    ensures
        final(s)@ == old(s)@.push(c),
{
    s.push(c);
}

/// Calls `str::to_lowercase`.
/// Trusted: the result is the lower-case mapping named above; the mapping itself
/// (Unicode's tables) is left unsaid.
#[verifier::external_body]
pub(crate) fn to_lowercase(text: &str) -> (r: String)
    ensures
        r@ == lowercase(text@),
{
    text.to_lowercase()
}

/// The characters of ASCII (or Latin-1) bytes.
pub open spec fn ascii_text(b: Seq<u8>) -> Seq<char> {
    b.map_values(|x: u8| x as char)
}

/// Appends the characters of `bytes`, one per byte, to `s`.
pub fn push_ascii(s: &mut String, bytes: &[u8])
    ensures
        final(s)@ == old(s)@ + ascii_text(bytes@),
{
    let len = bytes.len();
    let mut i: usize = 0;
    while i < len
        invariant
            len == bytes@.len(),
            i <= len,
            s@ == old(s)@ + ascii_text(bytes@.take(i as int)),
        decreases len - i,
    {
        let c = bytes[i] as char;
        push_char(s, c);
        assert(ascii_text(bytes@.take(i + 1)) =~= ascii_text(bytes@.take(i as int)).push(c));
        i = i + 1;
    }
    assert(bytes@.take(len as int) =~= bytes@);
}

/// A copy of an optional text.
pub fn copy_optional_text(text: &Option<String>) -> (r: Option<String>)
    ensures
        r == *text,
{
    match text {
        Some(t) => Some(t.clone()),
        None => None,
    }
}

} // verus!
