//! Fuzzy symbol search: whether a short query string is a valid
//! abbreviation of a longer identifier. A query matches when it is a
//! case-insensitive prefix of the candidate, or when its camel-case parts
//! occur in the candidate, in order, each found at or after the position
//! where the previous part was found.

use vstd::prelude::*;

use crate::text::lower_of;
use crate::text::to_lowercase;
use crate::text::is_upper_char;
use crate::text::char_is_uppercase;
use crate::text::is_prefix_of;
use crate::text::str_starts_with;
use crate::text::find_from;
use crate::text::find_str_from;
use crate::text::lemma_find_from;
use crate::text::is_match_at;

verus! {

/// First position at or after `i` where a new camel-case part of `q`
/// begins: the next uppercase character, or the end of `q`.
pub open spec fn next_part_end(q: Seq<char>, i: int) -> int
    decreases q.len() - i when 0 <= i <= q.len()
{
    if i >= q.len() {
        i
    } else if is_upper_char(q[i]) {
        i
    } else {
        next_part_end(q, i + 1)
    }
}

pub proof fn lemma_next_part_end(q: Seq<char>, i: int)
    requires
        0 <= i <= q.len(),
    ensures
        i <= next_part_end(q, i) <= q.len(),
    decreases q.len() - i,
{
    if i < q.len() && !is_upper_char(q[i]) {
        lemma_next_part_end(q, i + 1);
    }
}

/// The camel-case rule, from the middle of a scan: the parts of `q` from
/// `qi` on must each be found in `x`, in order, the first at or after
/// `cursor`, each next at or after the position of the previous find.
pub open spec fn camel_match_from(x: Seq<char>, q: Seq<char>, qi: int, cursor: int) -> bool
    decreases q.len() - qi when 0 <= qi <= q.len()
    via camel_match_from_decreases
{
    if qi >= q.len() {
        true
    } else {
        let end = next_part_end(q, qi + 1);
        match find_from(x, q.subrange(qi, end), cursor) {
            None => false,
            Some(p) => camel_match_from(x, q, end, p),
        }
    }
}

#[via_fn]
proof fn camel_match_from_decreases(x: Seq<char>, q: Seq<char>, qi: int, cursor: int) {
    if 0 <= qi < q.len() {
        lemma_next_part_end(q, qi + 1);
    }
}

/// Whether `query` is an abbreviation of `value`: a case-insensitive
/// prefix, or an in-order camel-case-part match.
pub open spec fn abbrev_matches(value: Seq<char>, query: Seq<char>) -> bool {
    is_prefix_of(lower_of(query), lower_of(value)) || camel_match_from(value, query, 0, 0)
}

/// Tests whether `query` abbreviates `value`: either `value` starts with
/// `query` ignoring case, or every camel-case part of `query` occurs in
/// `value` in order, scanning left to right with a cursor that never moves
/// backward.
pub fn match_abbrev(value: &str, query: &str) -> (r: bool)
    ensures
        r == abbrev_matches(value@, query@),
{
    let value_lower = to_lowercase(value);
    let query_lower = to_lowercase(query);
    if str_starts_with(value_lower.as_str(), query_lower.as_str()) {
        return true;
    }

    let q_len = query.unicode_len();
    let x_len = value.unicode_len();
    let mut qi: usize = 0;
    let mut cursor: usize = 0;
    while qi < q_len
        invariant
            0 <= qi <= q_len,
            q_len == query@.len(),
            x_len == value@.len(),
            cursor <= x_len,
            !is_prefix_of(lower_of(query@), lower_of(value@)),
            camel_match_from(value@, query@, 0, 0)
                == camel_match_from(value@, query@, qi as int, cursor as int),
        decreases q_len - qi,
    {
        let mut j: usize = qi + 1;
        while j < q_len && !char_is_uppercase(query.get_char(j))
            invariant
                qi + 1 <= j <= q_len,
                q_len == query@.len(),
                next_part_end(query@, qi + 1) == next_part_end(query@, j as int),
            decreases q_len - j,
        {
            j = j + 1;
        }
        assert(next_part_end(query@, qi as int + 1) == j);
        let part = query.substring_char(qi, j);
        match find_str_from(value, part, cursor) {
            None => {
                assert(!camel_match_from(value@, query@, qi as int, cursor as int));
                return false;
            },
            Some(p) => {
                cursor = p;
                qi = j;
            },
        }
    }
    assert(camel_match_from(value@, query@, qi as int, cursor as int));
    true
}

// ---------------------------------------------------------------------------
// Laws of the matcher.
// ---------------------------------------------------------------------------

proof fn lemma_camel_prefix(x: Seq<char>, q: Seq<char>, qi: int, cursor: int)
    requires
        q.len() <= x.len(),
        q == x.subrange(0, q.len() as int),
        0 <= cursor <= qi <= q.len(),
    ensures
        camel_match_from(x, q, qi, cursor),
    decreases q.len() - qi,
{
    if qi < q.len() {
        lemma_next_part_end(q, qi + 1);
        let end = next_part_end(q, qi + 1);
        let part = q.subrange(qi, end);
        assert(forall|k: int| 0 <= k < q.len() ==> q[k] == x[k]);
        assert(x.subrange(qi, end) =~= part);
        assert(is_match_at(x, part, qi));
        lemma_find_from(x, part, cursor);
        match find_from(x, part, cursor) {
            None => {
                assert(!is_match_at(x, part, qi));
            },
            Some(p) => {
                assert(p <= qi);
                lemma_camel_prefix(x, q, end, p);
            },
        }
    }
}

/// Any non-empty literal prefix of a candidate is accepted as an
/// abbreviation of it: the camel-case parts of the prefix occur in the
/// candidate at their own offsets, in order.
pub proof fn lemma_matches_prefix(x: Seq<char>, n: int)
    requires
        1 <= n <= x.len(),
    ensures
        abbrev_matches(x, x.subrange(0, n)),
{
    let q = x.subrange(0, n);
    assert(q.len() == n);
    assert(q =~= x.subrange(0, q.len() as int));
    lemma_camel_prefix(x, q, 0, 0);
}

} // verus!
