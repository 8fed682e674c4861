//! Games in the store, and how a listing of them is filtered.

use crate::utils::filter::StringFilter;
use crate::utils::text::{lowercase, to_lowercase};
use vstd::prelude::*;

verus! {

/// Which games a listing keeps.
#[derive(Debug, Clone)]
pub struct GameFilter {
    pub name: Option<StringFilter>,
}

impl GameFilter {
    /// The SQL `LIKE` pattern of a piece of text: the text in lower case, between `%` signs.
    pub open spec fn like_pattern(contains: Seq<char>) -> Seq<char> {
        "%"@ + lowercase(contains) + "%"@
    }

    /// The text that the filter asks game names to contain, if it asks for any.
    pub open spec fn wanted_text(filter: Option<GameFilter>) -> Option<Seq<char>> {
        match filter {
            Some(f) => match f.name {
                Some(n) => match n.contains {
                    Some(c) => Some(c@),
                    None => None,
                },
                None => None,
            },
            None => None,
        }
    }

    /// The pattern of a text matches names that contain it anywhere: it is the lower-cased
    /// text with one `%` before it and one after it, and nothing else.
    pub proof fn law_like_pattern(contains: Seq<char>)
        ensures
            GameFilter::like_pattern(contains).len() == lowercase(contains).len() + 2,
            GameFilter::like_pattern(contains)[0] == '%',
            GameFilter::like_pattern(contains).last() == '%',
            GameFilter::like_pattern(contains).subrange(1, lowercase(contains).len() as int + 1)
                == lowercase(contains),
    {
        reveal_strlit("%");
        let p = GameFilter::like_pattern(contains);
        assert(p.subrange(1, lowercase(contains).len() as int + 1) =~= lowercase(contains));
    }

    /// The `LIKE` pattern that a listing filtered by `filter` matches game names against:
    /// `None` (every name) unless the filter asks for names that contain some text.
    pub fn name_pattern(filter: Option<GameFilter>) -> (r: Option<String>)
        ensures
            match GameFilter::wanted_text(filter) {
                Some(c) => r is Some && r->0@ == GameFilter::like_pattern(c),
                None => r is None,
            },
            filter matches Some(f) ==> (f.name matches Some(n) ==> (n.contains matches Some(c) ==> (
            r is Some && r->0@ == "%"@ + lowercase(c@) + "%"@))),
            r is Some ==> (filter matches Some(f) && f.name matches Some(n) && n.contains is Some),
    {
        match filter {
            Some(f) => match f.name {
                Some(n) => match n.contains {
                    Some(c) => {
                        let lower = to_lowercase(c.as_str());
                        let mut pattern = String::new();
                        pattern.append("%");
                        pattern.append(lower.as_str());
                        pattern.append("%");
                        assert(pattern@ =~= GameFilter::like_pattern(c@));
                        assert(pattern@ =~= "%"@ + lowercase(c@) + "%"@);
                        Some(pattern)
                    },
                    None => None,
                },
                None => None,
            },
            None => None,
        }
    }
}

} // verus!
