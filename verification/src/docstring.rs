//! Triple-quoted literals: the check that every one is closed, the body
//! between the delimiters, and the body's normal form.

use crate::error::ParserError;
use crate::grammar::{agrees, find_quotes, next_quotes, Keyword};
use crate::position::{line_of, offset_to_line_col};
use crate::text::{
    chars_of, copy_range, push_range, run_end, skip_run, string_of, trim_bounds, trim_hi,
    trim_lo, trimmed, CharClass,
};
use vstd::prelude::*;

verus! {

/// The offset of the first opening delimiter, at or after `i`, that no
/// later delimiter closes. Delimiters pair up from left to right: one
/// opens, the next one closes, and the search goes on after it.
pub open spec fn first_unterminated(s: Seq<char>, i: int) -> Option<int>
    decreases s.len() - i,
{
    match next_quotes(s, i, s.len() as int) {
        Some(a) => match next_quotes(s, a + 3, s.len() as int) {
            Some(b) => if i < b + 3 <= s.len() {
                first_unterminated(s, b + 3)
            } else {
                None
            },
            None => Some(a),
        },
        None => None,
    }
}

/// The line of the first literal that is never closed, if there is one.
pub open spec fn unterminated_line(s: Seq<char>) -> Option<int> {
    match first_unterminated(s, 0) {
        Some(a) => Some(line_of(s, a)),
        None => None,
    }
}

/// Whether no triple-quote delimiter stands at or after `i`.
pub open spec fn no_quotes_from(s: Seq<char>, i: int) -> bool {
    forall|k: int| i <= k ==> !#[trigger] Keyword::Quotes.at(s, k, s.len() as int)
}

/// Where no delimiter stands, the search for one finds none.
pub proof fn lemma_no_quotes_none_found(s: Seq<char>, i: int)
    requires
        0 <= i,
        no_quotes_from(s, i),
    ensures
        next_quotes(s, i, s.len() as int) is None,
    decreases s.len() - i,
{
    if i + 3 <= s.len() {
        assert(!Keyword::Quotes.at(s, i, s.len() as int));
        lemma_no_quotes_none_found(s, i + 1);
    }
}

/// A text without any triple-quote delimiter has no unterminated literal.
pub proof fn lemma_no_quotes_all_terminated(s: Seq<char>)
    requires
        no_quotes_from(s, 0),
    ensures
        unterminated_line(s) is None,
{
    lemma_no_quotes_none_found(s, 0);
}

/// Checks that every triple-quoted literal of `content` is closed, and
/// reports the line of the first one that is not.
pub fn validate_docstrings(content: &Vec<char>) -> (r: Result<(), ParserError>)
    ensures
        match r {
            Ok(_) => unterminated_line(content@) is None,
            Err(ParserError::UnterminatedDocstring(line)) => unterminated_line(content@)
                == Some(line as int),
            Err(_) => false,
        },
{
    let mut index: usize = 0;
    loop
        invariant
            index <= content.len(),
            first_unterminated(content@, 0) == first_unterminated(content@, index as int),
        decreases content.len() - index,
    {
        match find_quotes(content, index, content.len()) {
            Some(start) => {
                match find_quotes(content, start + 3, content.len()) {
                    Some(close) => {
                        index = close + 3;
                    },
                    None => {
                        let (line, _) = offset_to_line_col(content, start);
                        return Err(ParserError::UnterminatedDocstring(line));
                    },
                }
            },
            None => {
                return Ok(());
            },
        }
    }
}

/// The last offset in `lo..hi` where a triple-quote delimiter stands whole.
pub open spec fn last_quotes(s: Seq<char>, lo: int, hi: int) -> Option<int>
    decreases hi - lo,
{
    if lo < 0 || lo + 3 > hi || hi > s.len() {
        None
    } else if Keyword::Quotes.at(s, hi - 3, hi) {
        Some(hi - 3)
    } else {
        last_quotes(s, lo, hi - 1)
    }
}

/// The bounds of the body of the literal in `s[lo..hi]`: what stands
/// between the first delimiter and the last one after it. A range without
/// two delimiters has an empty body.
pub open spec fn body_bounds(s: Seq<char>, lo: int, hi: int) -> (int, int) {
    match next_quotes(s, lo, hi) {
        Some(a) => match last_quotes(s, a + 3, hi) {
            Some(b) => (a + 3, b),
            None => (lo, lo),
        },
        None => (lo, lo),
    }
}

/// Looks backward from `hi` for a triple-quote delimiter that starts at or
/// after `lo`.
pub fn find_last_quotes(s: &Vec<char>, lo: usize, hi: usize) -> (r: Option<usize>)
    requires
        lo <= hi <= s.len(),
    ensures
        agrees(r, last_quotes(s@, lo as int, hi as int)),
        r matches Some(n) ==> lo <= n && n + 3 <= hi,
{
    let mut k: usize = hi;
    while k - lo >= 3
        invariant
            lo <= k <= hi <= s.len(),
            last_quotes(s@, lo as int, hi as int) == last_quotes(s@, lo as int, k as int),
        decreases k - lo,
    {
        if Keyword::Quotes.is_at(s, k - 3, k) {
            return Some(k - 3);
        }
        k -= 1;
    }
    None
}

/// Finds the body of the literal in `s[lo..hi]`.
pub fn extract_docstring_literal(s: &Vec<char>, lo: usize, hi: usize) -> (r: (usize, usize))
    requires
        lo <= hi <= s.len(),
    ensures
        (r.0 as int, r.1 as int) == body_bounds(s@, lo as int, hi as int),
        lo <= r.0 <= r.1 <= hi,
{
    if let Some(a) = find_quotes(s, lo, hi) {
        if let Some(b) = find_last_quotes(s, a + 3, hi) {
            return (a + 3, b);
        }
    }
    (lo, lo)
}

/// The lines of `s[lo..hi]`, each without the white space around it,
/// joined by line feeds again.
pub open spec fn trimmed_lines(s: Seq<char>, lo: int, hi: int) -> Seq<char>
    decreases hi - lo,
{
    let e = run_end(s, lo, hi, CharClass::NotLineFeed);
    if lo <= e < hi {
        trimmed(s, lo, e) + seq!['\n'] + trimmed_lines(s, e + 1, hi)
    } else {
        trimmed(s, lo, hi)
    }
}

/// The normal form of the body `s[lo..hi]`: every line without the white
/// space around it, and the whole without the white space and the empty
/// lines around it. The indentation that the lines share goes with the
/// rest of it.
pub open spec fn normalized(s: Seq<char>, lo: int, hi: int) -> Seq<char> {
    let joined = trimmed_lines(s, lo, hi);
    trimmed(joined, 0, joined.len() as int)
}

/// Brings the body `s[lo..hi]` of a literal into its normal form.
pub fn normalize_range(s: &Vec<char>, lo: usize, hi: usize) -> (out: Vec<char>)
    requires
        lo <= hi <= s.len(),
    ensures
        out@ == normalized(s@, lo as int, hi as int),
{
    let mut joined: Vec<char> = Vec::new();
    let mut k: usize = lo;
    loop
        invariant_except_break
            joined@ + trimmed_lines(s@, k as int, hi as int) == trimmed_lines(
                s@,
                lo as int,
                hi as int,
            ),
        invariant
            lo <= k <= hi <= s.len(),
        ensures
            joined@ == trimmed_lines(s@, lo as int, hi as int),
        decreases hi - k,
    {
        let e = skip_run(s, k, hi, CharClass::NotLineFeed);
        let ghost before = joined@;
        if e < hi {
            let (a, b) = trim_bounds(s, k, e);
            push_range(&mut joined, s, a, b);
            joined.push('\n');
            proof {
                let line = trimmed(s@, k as int, e as int);
                let rest = trimmed_lines(s@, e as int + 1, hi as int);
                assert(joined@ + rest =~= before + (line + seq!['\n'] + rest));
            }
            k = e + 1;
        } else {
            let (a, b) = trim_bounds(s, k, hi);
            push_range(&mut joined, s, a, b);
            break ;
        }
    }
    let (a, b) = trim_bounds(&joined, 0, joined.len());
    copy_range(&joined, a, b)
}

/// Brings the body of a docstring into its normal form: each line loses
/// the white space around it, the body the empty lines around it.
pub fn normalize_docstring(raw: &str) -> (out: String)
    ensures
        out@ == normalized(raw@, 0, raw@.len() as int),
{
    let chars = chars_of(raw);
    let body = normalize_range(&chars, 0, chars.len());
    string_of(&body)
}

/// A run over a range whose characters all belong to the class covers it.
pub proof fn lemma_run_covers(s: Seq<char>, i: int, hi: int, cls: CharClass)
    requires
        0 <= i <= hi <= s.len(),
        forall|k: int| i <= k < hi ==> cls.has(#[trigger] s[k]),
    ensures
        run_end(s, i, hi, cls) == hi,
    decreases hi - i,
{
    if i < hi {
        lemma_run_covers(s, i + 1, hi, cls);
    }
}

/// A body of one line, with no white space before or after it, is its own
/// normal form.
pub proof fn lemma_normalized_fixed(s: Seq<char>)
    requires
        forall|k: int| 0 <= k < s.len() ==> s[k] != '\n',
        trim_lo(s, 0, s.len() as int) == 0,
        trim_hi(s, 0, s.len() as int) == s.len(),
    ensures
        normalized(s, 0, s.len() as int) == s,
{
    lemma_run_covers(s, 0, s.len() as int, CharClass::NotLineFeed);
    assert(trimmed(s, 0, s.len() as int) =~= s);
}

} // verus!
