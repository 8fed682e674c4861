//! Pages of nodes, with opaque cursors that carry a `u32`.

use crate::utils::decimal::{
    lemma_natural_digits_short, lemma_u32_text_roundtrip, natural_digits, parse_u32_spec,
    parse_u32_text, push_natural,
};
use crate::utils::url_safe::{
    decode_url_safe, encode_url_safe, url_safe_no_pad_decode, url_safe_no_pad_encode,
};
use vstd::prelude::*;

verus! {

/// A page of nodes.
pub struct Page<A> {
    pub nodes: Vec<A>,
    pub page_info: PageInfo,
}

/// Whether more pages follow, and where the next one starts.
pub struct PageInfo {
    pub has_next_page: bool,
    pub end_cursor: Option<Cursor>,
}

/// An opaque cursor: the URL-safe, unpadded base64 text of a decimal `u32`.
pub struct Cursor(pub String);

impl View for Cursor {
    type V = Seq<char>;

    open spec fn view(&self) -> Seq<char> {
        self.0@
    }
}

impl Cursor {
    /// The text of the cursor that carries `value`.
    pub open spec fn text_of(value: u32) -> Seq<char> {
        url_safe_no_pad_encode(natural_digits(value as nat))
    }

    /// The value a cursor with this text carries, if any: its base64 decoding read as
    /// a decimal `u32`.
    pub open spec fn value_of(text: Seq<char>) -> Option<u32> {
        match url_safe_no_pad_decode(text) {
            Some(bytes) => parse_u32_spec(bytes),
            None => None,
        }
    }

    /// Reads the `u32` this cursor carries. A cursor made by `from_u32(v)` gives `Some(v)`.
    pub fn try_into_u32(self) -> (r: Option<u32>)
        ensures
            r == Cursor::value_of(self@),
            url_safe_no_pad_decode(self@) is None ==> r is None,
            url_safe_no_pad_decode(self@) matches Some(b) ==> r == parse_u32_spec(b),
            forall|v: u32| #[trigger] Cursor::text_of(v) == self@ ==> r == Some(v),
    {
        let decoded = decode_url_safe(self.0.as_str());
        assert forall|v: u32| #[trigger] Cursor::text_of(v) == self@ implies decoded is Some
            && decoded->0@ == natural_digits(v as nat) by {
            lemma_natural_digits_short(v as u64);
            assert(url_safe_no_pad_encode(natural_digits(v as nat)) == self@);
        }
        assert forall|v: u32| #[trigger] Cursor::text_of(v) == self@ implies parse_u32_spec(
            natural_digits(v as nat),
        ) == Some(v) by {
            lemma_u32_text_roundtrip(v);
        }
        match decoded {
            Some(bytes) => parse_u32_text(bytes.as_slice()),
            None => None,
        }
    }

    /// The cursor that carries `value`.
    pub fn from_u32(value: u32) -> (r: Cursor)
        ensures
            r@ == Cursor::text_of(value),
    {
        let mut digits: Vec<u8> = Vec::new();
        push_natural(&mut digits, value as u64);
        assert(digits@ =~= natural_digits(value as nat));
        proof {
            lemma_natural_digits_short(value as u64);
        }
        Cursor(encode_url_safe(digits.as_slice()))
    }
}

} // verus!
