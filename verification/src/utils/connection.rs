//! Relay-style connections of nodes, with opaque cursors that carry an `i64`.

use crate::utils::decimal::{
    integer_digits, integer_text, lemma_i64_text_roundtrip, lemma_integer_digits_short,
    parse_i64_spec, parse_i64_text,
};
use crate::utils::url_safe::{
    decode_url_safe, encode_url_safe, url_safe_no_pad_decode, url_safe_no_pad_encode,
};
use vstd::prelude::*;

verus! {

/// A page of edges with the information needed to ask for the next one.
pub struct Connection<A> {
    pub edges: Vec<Edge<A>>,
    pub page_info: PageInfo,
}

/// A node together with the cursor that points just past it.
pub struct Edge<A> {
    pub node: A,
    pub cursor: Cursor,
}

/// Where a page stands among all pages.
pub struct PageInfo {
    pub has_next_page: bool,
    pub has_previous_page: bool,
    pub start_cursor: Option<Cursor>,
    pub end_cursor: Option<Cursor>,
}

/// An opaque cursor: the URL-safe, unpadded base64 text of a decimal `i64`.
pub struct Cursor(pub String);

impl View for Cursor {
    type V = Seq<char>;

    open spec fn view(&self) -> Seq<char> {
        self.0@
    }
}

impl Cursor {
    /// The text of the cursor that carries `value`.
    pub open spec fn text_of(value: i64) -> Seq<char> {
        url_safe_no_pad_encode(integer_digits(value as int))
    }

    /// The value a cursor with this text carries, if any: its base64 decoding read as
    /// a decimal `i64`.
    pub open spec fn value_of(text: Seq<char>) -> Option<i64> {
        match url_safe_no_pad_decode(text) {
            Some(bytes) => parse_i64_spec(bytes),
            None => None,
        }
    }

    /// Reads the `i64` this cursor carries. A cursor made by `from_i64(v)` gives `Some(v)`.
    pub fn try_into_i64(self) -> (r: Option<i64>)
        ensures
            r == Cursor::value_of(self@),
            url_safe_no_pad_decode(self@) is None ==> r is None,
            url_safe_no_pad_decode(self@) matches Some(b) ==> r == parse_i64_spec(b),
            forall|v: i64| #[trigger] Cursor::text_of(v) == self@ ==> r == Some(v),
    {
        let decoded = decode_url_safe(self.0.as_str());
        assert forall|v: i64| #[trigger] Cursor::text_of(v) == self@ implies decoded matches Some(
            b,
        ) && b@ == integer_digits(v as int) by {
            lemma_integer_digits_short(v);
            assert(url_safe_no_pad_encode(integer_digits(v as int)) == self@);
        }
        assert forall|v: i64| #[trigger] Cursor::text_of(v) == self@ implies parse_i64_spec(
            integer_digits(v as int),
        ) == Some(v) by {
            lemma_i64_text_roundtrip(v);
        }
        match decoded {
            Some(bytes) => parse_i64_text(bytes.as_slice()),
            None => None,
        }
    }

    /// The cursor that carries `value`.
    pub fn from_i64(value: i64) -> (r: Cursor)
        ensures
            r@ == Cursor::text_of(value),
    {
        let digits = integer_text(value);
        proof {
            lemma_integer_digits_short(value);
        }
        Cursor(encode_url_safe(digits.as_slice()))
    }
}

} // verus!
