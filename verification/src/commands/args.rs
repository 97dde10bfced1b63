//! Argument tokenization shared by the commands: a request line is split on
//! whitespace runs, with leading and trailing whitespace trimmed, and a
//! double-quoted run (embedded spaces included) taken as one token with its
//! quotes stripped.

use vstd::prelude::*;

use crate::text::is_space_char;
use crate::text::char_is_whitespace;
use crate::text::trim_spec;
use crate::text::trim;
use crate::text::find_char_from;
use crate::text::find_char;

verus! {

/// End of the token starting at `i` of `t`, scanning with the quote state
/// `quoted`: the first unquoted whitespace at or after `i`, or the end of
/// the text.
pub open spec fn token_end(t: Seq<char>, i: int, quoted: bool) -> int
    decreases t.len() - i when 0 <= i <= t.len()
{
    if i >= t.len() {
        i
    } else if is_space_char(t[i]) && !quoted {
        i
    } else if t[i] == '"' {
        token_end(t, i + 1, !quoted)
    } else {
        token_end(t, i + 1, quoted)
    }
}

pub proof fn lemma_token_end_bounds(t: Seq<char>, i: int, quoted: bool)
    requires
        0 <= i <= t.len(),
    ensures
        i <= token_end(t, i, quoted) <= t.len(),
    decreases t.len() - i,
{
    if i < t.len() && !(is_space_char(t[i]) && !quoted) {
        if t[i] == '"' {
            lemma_token_end_bounds(t, i + 1, !quoted);
        } else {
            lemma_token_end_bounds(t, i + 1, quoted);
        }
    }
}

/// Whether the run `t[i..e]` contains a double quote.
pub open spec fn has_quote(t: Seq<char>, i: int, e: int) -> bool {
    exists|k: int| i <= k < e && #[trigger] t[k] == '"'
}

/// The text of the token spanning `t[i..e]`: the run itself, or, when the
/// run contains a quote, the run with its first and last characters
/// stripped.
pub open spec fn token_text(t: Seq<char>, i: int, e: int) -> Seq<char> {
    if has_quote(t, i, e) {
        let a = i + 1;
        let b = if e - 1 >= a {
            e - 1
        } else {
            a
        };
        t.subrange(a, b)
    } else {
        t.subrange(i, e)
    }
}

/// The tokens of the trimmed text `t`, from index `i` on.
pub open spec fn split_from(t: Seq<char>, i: int) -> Seq<Seq<char>>
    decreases t.len() - i when 0 <= i <= t.len()
    via split_from_decreases
{
    if i >= t.len() {
        Seq::empty()
    } else if is_space_char(t[i]) {
        split_from(t, i + 1)
    } else {
        let e = token_end(t, i, false);
        seq![token_text(t, i, e)] + split_from(t, e)
    }
}

#[via_fn]
proof fn split_from_decreases(t: Seq<char>, i: int) {
    if 0 <= i < t.len() && !is_space_char(t[i]) {
        if t[i] == '"' {
            lemma_token_end_bounds(t, i + 1, true);
        } else {
            lemma_token_end_bounds(t, i + 1, false);
        }
    }
}

/// The tokens of a request line: whitespace-separated runs of the trimmed
/// text, a quoted run taken whole and stripped of its quotes.
pub open spec fn split_args_spec(s: Seq<char>) -> Seq<Seq<char>> {
    split_from(trim_spec(s), 0)
}

/// Splits a request line into its tokens.
pub fn split_args(v: &str) -> (r: Vec<String>)
    ensures
        r.deep_view() == split_args_spec(v@),
{
    let trimmed = trim(v);
    let ghost t = trimmed@;
    let t_len = trimmed.unicode_len();
    let mut out: Vec<String> = Vec::new();
    assert(out.deep_view() =~= Seq::<Seq<char>>::empty());
    let mut i: usize = 0;
    while i < t_len
        invariant
            0 <= i <= t_len,
            t_len == t.len(),
            trimmed@ == t,
            split_from(t, 0) == out.deep_view() + split_from(t, i as int),
        decreases t_len - i,
    {
        let ghost out0 = out.deep_view();
        if char_is_whitespace(trimmed.get_char(i)) {
            i = i + 1;
            assert(split_from(t, 0) =~~= out.deep_view() + split_from(t, i as int));
        } else {
            let start = i;
            let mut j: usize = i;
            let mut quoted = false;
            let mut seen_quote = false;
            while j < t_len && (quoted || !char_is_whitespace(trimmed.get_char(j)))
                invariant
                    start <= j <= t_len,
                    t_len == t.len(),
                    trimmed@ == t,
                    token_end(t, start as int, false) == token_end(t, j as int, quoted),
                    seen_quote <==> has_quote(t, start as int, j as int),
                decreases t_len - j,
            {
                if trimmed.get_char(j) == '"' {
                    quoted = !quoted;
                    seen_quote = true;
                }
                j = j + 1;
                proof {
                    if seen_quote && !has_quote(t, start as int, j - 1) {
                        assert(t[j - 1] == '"');
                    }
                }
            }
            assert(token_end(t, start as int, false) == j);
            let token: &str = if seen_quote {
                assert(j > start);
                let a = start + 1;
                let b = if j - 1 >= a {
                    j - 1
                } else {
                    a
                };
                trimmed.substring_char(a, b)
            } else {
                trimmed.substring_char(start, j)
            };
            assert(token@ == token_text(t, start as int, j as int));
            out.push(String::from_str(token));
            proof {
                assert(out.deep_view() =~= out0.push(token@));
                assert(split_from(t, start as int)
                    =~= seq![token_text(t, start as int, j as int)]
                        + split_from(t, j as int));
                assert(split_from(t, 0) =~~= out.deep_view() + split_from(t, j as int));
            }
            i = j;
        }
    }
    assert(split_from(t, i as int) =~= Seq::<Seq<char>>::empty());
    assert(out.deep_view() =~~= split_from(t, 0));
    out
}

/// The argument of a one-argument command: the text between the first space
/// of the request and the next space or the end, trimmed.
pub open spec fn arg_token(req: Seq<char>) -> Seq<char> {
    match find_char_from(req, ' ', 0) {
        None => Seq::empty(),
        Some(sp) => {
            let start = sp + 1;
            let end = match find_char_from(req, ' ', start) {
                None => req.len() as int,
                Some(e) => e,
            };
            trim_spec(req.subrange(start, end))
        },
    }
}

/// Extracts the single argument that follows the command word.
pub fn arg_after_command<'a>(command: &'a str) -> (r: &'a str)
    ensures
        r@ == arg_token(command@),
{
    let len = command.unicode_len();
    match find_char(command, ' ', 0) {
        None => {
            let r = command.substring_char(0, 0);
            assert(r@ =~= arg_token(command@));
            r
        },
        Some(sp) => {
            let start = sp + 1;
            let end = match find_char(command, ' ', start) {
                None => len,
                Some(e) => e,
            };
            let raw = command.substring_char(start, end);
            trim(raw)
        },
    }
}

/// The reply to a command whose required argument is missing.
pub open spec fn invalid_argument_text() -> Seq<char> {
    "Invalid argument"@
}

/// The reply sent when a command's required argument is missing.
pub fn invalid_argument_reply() -> (r: String)
    ensures
        r@ == invalid_argument_text(),
{
    String::from_str("Invalid argument")
}

} // verus!
