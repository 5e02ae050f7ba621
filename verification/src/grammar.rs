//! The grammar: four productions over characters, and the scan that applies
//! them to a whole text.
//!
//! Offsets count characters. Every production is a function from a text and
//! a start offset to the offset where its match ends, if it matches there.

use crate::parser::GrammarRule;
use crate::position::{at_line_start, is_line_start};
use crate::text::{lemma_run_end_bounds, run_end, skip_run, CharClass};
use vstd::prelude::*;

verus! {

/// The fixed words of the grammar.
#[derive(Clone, Copy, Debug, PartialEq, Eq)]
pub enum Keyword {
    /// `def`
    Def,
    /// `async`
    Async,
    /// `class`
    Class,
    /// `import`
    Import,
    /// `from`
    ImportFrom,
    /// The triple-quote delimiter.
    Quotes,
}

impl Keyword {
    /// The number of characters of the word.
    pub open spec fn width(self) -> int {
        match self {
            Keyword::Def => 3,
            Keyword::Async => 5,
            Keyword::Class => 5,
            Keyword::Import => 6,
            Keyword::ImportFrom => 4,
            Keyword::Quotes => 3,
        }
    }

    /// Whether the word stands at offset `i` of `s` and ends at or before `hi`.
    pub open spec fn at(self, s: Seq<char>, i: int, hi: int) -> bool {
        &&& 0 <= i
        &&& i + self.width() <= hi <= s.len()
        &&& match self {
            Keyword::Def => s[i] == 'd' && s[i + 1] == 'e' && s[i + 2] == 'f',
            Keyword::Async => s[i] == 'a' && s[i + 1] == 's' && s[i + 2] == 'y' && s[i + 3] == 'n'
                && s[i + 4] == 'c',
            Keyword::Class => s[i] == 'c' && s[i + 1] == 'l' && s[i + 2] == 'a' && s[i + 3] == 's'
                && s[i + 4] == 's',
            Keyword::Import => s[i] == 'i' && s[i + 1] == 'm' && s[i + 2] == 'p' && s[i + 3]
                == 'o' && s[i + 4] == 'r' && s[i + 5] == 't',
            Keyword::ImportFrom => s[i] == 'f' && s[i + 1] == 'r' && s[i + 2] == 'o' && s[i + 3] == 'm',
            Keyword::Quotes => s[i] == '"' && s[i + 1] == '"' && s[i + 2] == '"',
        }
    }

    /// Whether the word stands at `i`, followed by a space or a tab below `hi`.
    pub open spec fn at_spaced(self, s: Seq<char>, i: int, hi: int) -> bool {
        self.at(s, i, hi) && i + self.width() < hi && CharClass::Blank.has(s[i + self.width()])
    }

    /// Whether the word stands at `i`, followed by a space below `hi`.
    pub open spec fn at_with_space(self, s: Seq<char>, i: int, hi: int) -> bool {
        self.at(s, i, hi) && i + self.width() < hi && s[i + self.width()] == ' '
    }

    /// The number of characters of the word.
    pub fn len(self) -> (n: usize)
        ensures
            n == self.width(),
    {
        match self {
            Keyword::Def => 3,
            Keyword::Async => 5,
            Keyword::Class => 5,
            Keyword::Import => 6,
            Keyword::ImportFrom => 4,
            Keyword::Quotes => 3,
        }
    }

    /// Tests whether the word stands at offset `i` of `s`, below `hi`.
    pub fn is_at(self, s: &Vec<char>, i: usize, hi: usize) -> (r: bool)
        requires
            i <= hi <= s.len(),
        ensures
            r == self.at(s@, i as int, hi as int),
    {
        let n = self.len();
        if hi - i < n {
            return false;
        }
        match self {
            Keyword::Def => s[i] == 'd' && s[i + 1] == 'e' && s[i + 2] == 'f',
            Keyword::Async => s[i] == 'a' && s[i + 1] == 's' && s[i + 2] == 'y' && s[i + 3] == 'n'
                && s[i + 4] == 'c',
            Keyword::Class => s[i] == 'c' && s[i + 1] == 'l' && s[i + 2] == 'a' && s[i + 3] == 's'
                && s[i + 4] == 's',
            Keyword::Import => s[i] == 'i' && s[i + 1] == 'm' && s[i + 2] == 'p' && s[i + 3]
                == 'o' && s[i + 4] == 'r' && s[i + 5] == 't',
            Keyword::ImportFrom => s[i] == 'f' && s[i + 1] == 'r' && s[i + 2] == 'o' && s[i + 3] == 'm',
            Keyword::Quotes => s[i] == '"' && s[i + 1] == '"' && s[i + 2] == '"',
        }
    }

    /// Tests whether the word stands at `i`, followed by a space or a tab.
    pub fn is_at_spaced(self, s: &Vec<char>, i: usize, hi: usize) -> (r: bool)
        requires
            i <= hi <= s.len(),
        ensures
            r == self.at_spaced(s@, i as int, hi as int),
    {
        let n = self.len();
        self.is_at(s, i, hi) && i + n < hi && CharClass::Blank.contains(s[i + n])
    }

    /// Tests whether the word stands at `i`, followed by a space.
    pub fn is_at_with_space(self, s: &Vec<char>, i: usize, hi: usize) -> (r: bool)
        requires
            i <= hi <= s.len(),
        ensures
            r == self.at_with_space(s@, i as int, hi as int),
    {
        let n = self.len();
        self.is_at(s, i, hi) && i + n < hi && s[i + n] == ' '
    }
}

/// The end of the spaces and tabs that start at `i`.
pub open spec fn blanks_end(s: Seq<char>, i: int) -> int {
    run_end(s, i, s.len() as int, CharClass::Blank)
}

/// The offset after the line terminator that stands at `i`; `i` itself
/// where none stands there. A carriage return and a line feed in a row are
/// one terminator.
pub open spec fn newline_end(s: Seq<char>, i: int) -> int {
    if 0 <= i && i + 1 < s.len() && s[i] == '\r' && s[i + 1] == '\n' {
        i + 2
    } else if 0 <= i < s.len() && (s[i] == '\n' || s[i] == '\r') {
        i + 1
    } else {
        i
    }
}

/// A decorator line at `i`: indentation, `@`, the rest of the line and its
/// terminator. Gives the offset after the terminator.
pub open spec fn decorator_line(s: Seq<char>, i: int) -> Option<int> {
    let a = blanks_end(s, i);
    if 0 <= a < s.len() && s[a] == '@' {
        let e = run_end(s, a, s.len() as int, CharClass::LineBody);
        if e < s.len() {
            Some(newline_end(s, e))
        } else {
            None
        }
    } else {
        None
    }
}

/// The end of the decorator lines that start at `i`.
pub open spec fn decorators_end(s: Seq<char>, i: int) -> int
    decreases s.len() - i,
{
    match decorator_line(s, i) {
        Some(n) => if i < n <= s.len() {
            decorators_end(s, n)
        } else {
            i
        },
        None => i,
    }
}

/// The offset after the parenthesis that closes `depth` open ones, looking
/// from `i` on.
pub open spec fn paren_close(s: Seq<char>, i: int, depth: int) -> Option<int>
    decreases s.len() - i,
{
    if i < 0 || i >= s.len() {
        None
    } else if s[i] == '(' {
        paren_close(s, i + 1, depth + 1)
    } else if s[i] == ')' {
        if depth <= 1 {
            Some(i + 1)
        } else {
            paren_close(s, i + 1, depth - 1)
        }
    } else {
        paren_close(s, i + 1, depth)
    }
}

/// The tail of a function's declaration from `i`: a balanced parameter
/// list, then the rest of the line up to and including the first colon.
pub open spec fn function_tail(s: Seq<char>, i: int) -> Option<int> {
    let f = blanks_end(s, i);
    if 0 <= f < s.len() && s[f] == '(' {
        match paren_close(s, f + 1, 1) {
            Some(g) => {
                let h = run_end(s, g, s.len() as int, CharClass::BeforeColon);
                if 0 <= h < s.len() && s[h] == ':' {
                    Some(h + 1)
                } else {
                    None
                }
            },
            None => None,
        }
    } else {
        None
    }
}

/// The tail of a class's declaration from `i`: a balanced list of bases,
/// if there is one, then the colon.
pub open spec fn class_tail(s: Seq<char>, i: int) -> Option<int> {
    let f = blanks_end(s, i);
    let bases = if 0 <= f < s.len() && s[f] == '(' {
        paren_close(s, f + 1, 1)
    } else {
        Some(f)
    };
    match bases {
        Some(g) => {
            let h = blanks_end(s, g);
            if 0 <= h < s.len() && s[h] == ':' {
                Some(h + 1)
            } else {
                None
            }
        },
        None => None,
    }
}

/// A name of one or more identifier characters after the blanks at `i`,
/// which follow a keyword. Gives the offset after the name.
pub open spec fn declared_name(s: Seq<char>, i: int) -> Option<int> {
    let d = blanks_end(s, i);
    let e = run_end(s, d, s.len() as int, CharClass::Ident);
    if e > d {
        Some(e)
    } else {
        None
    }
}

/// A function definition at `i`: decorator lines, indentation, an optional
/// `async`, `def`, a name and the declaration's tail.
pub open spec fn match_function(s: Seq<char>, i: int) -> Option<int> {
    let b = blanks_end(s, decorators_end(s, i));
    let c = if Keyword::Async.at_spaced(s, b, s.len() as int) {
        blanks_end(s, b + 5)
    } else {
        b
    };
    if Keyword::Def.at_spaced(s, c, s.len() as int) {
        match declared_name(s, c + 3) {
            Some(e) => function_tail(s, e),
            None => None,
        }
    } else {
        None
    }
}

/// A class definition at `i`: decorator lines, indentation, `class`, a name
/// and the declaration's tail.
pub open spec fn match_class(s: Seq<char>, i: int) -> Option<int> {
    let b = blanks_end(s, decorators_end(s, i));
    if Keyword::Class.at_spaced(s, b, s.len() as int) {
        match declared_name(s, b + 5) {
            Some(e) => class_tail(s, e),
            None => None,
        }
    } else {
        None
    }
}

/// The first offset at or after `i`, below `hi`, where a triple-quote
/// delimiter stands.
pub open spec fn next_quotes(s: Seq<char>, i: int, hi: int) -> Option<int>
    decreases hi - i,
{
    if i < 0 || i + 3 > hi || hi > s.len() {
        None
    } else if Keyword::Quotes.at(s, i, hi) {
        Some(i)
    } else {
        next_quotes(s, i + 1, hi)
    }
}

/// A triple-quoted literal at `i`: indentation, the opening delimiter, and
/// everything up to and including the nearest closing delimiter.
pub open spec fn match_docstring(s: Seq<char>, i: int) -> Option<int> {
    let b = blanks_end(s, i);
    if Keyword::Quotes.at(s, b, s.len() as int) {
        match next_quotes(s, b + 3, s.len() as int) {
            Some(c) => Some(c + 3),
            None => None,
        }
    } else {
        None
    }
}

/// What follows `import` and its blanks at `i`: at least one character, up
/// to the end of the line, and the line's terminator if there is one.
pub open spec fn import_rest(s: Seq<char>, i: int) -> Option<int> {
    let d = blanks_end(s, i);
    let e = run_end(s, d, s.len() as int, CharClass::LineBody);
    if e > d {
        Some(newline_end(s, e))
    } else {
        None
    }
}

/// An import statement at `i`: indentation, then `import` and names, or
/// `from`, a module path, `import` and names.
pub open spec fn match_import(s: Seq<char>, i: int) -> Option<int> {
    let b = blanks_end(s, i);
    if Keyword::Import.at_spaced(s, b, s.len() as int) {
        import_rest(s, b + 6)
    } else if Keyword::ImportFrom.at_spaced(s, b, s.len() as int) {
        let d = blanks_end(s, b + 4);
        let e = run_end(s, d, s.len() as int, CharClass::Word);
        let f = blanks_end(s, e);
        if d < e < f && Keyword::Import.at_spaced(s, f, s.len() as int) {
            import_rest(s, f + 6)
        } else {
            None
        }
    } else {
        None
    }
}

/// One match of a production: the rule and the offsets of its span.
#[derive(Clone, Copy, Debug, PartialEq, Eq)]
pub struct RuleMatch {
    pub rule: GrammarRule,
    pub start: usize,
    pub end: usize,
}

/// The production that matches at `i`, tried in the order docstring,
/// function, class, import, with the end of its match.
pub open spec fn match_at(s: Seq<char>, i: int) -> Option<(GrammarRule, int)> {
    if let Some(e) = match_docstring(s, i) {
        Some((GrammarRule::Docstring, e))
    } else if let Some(e) = match_function(s, i) {
        Some((GrammarRule::FunctionDef, e))
    } else if let Some(e) = match_class(s, i) {
        Some((GrammarRule::ClassDef, e))
    } else if let Some(e) = match_import(s, i) {
        Some((GrammarRule::Import, e))
    } else {
        None
    }
}

/// Whether a match of `rule` that starts at `i` is reported. An import
/// counts only where it starts a line; its text is passed over either way.
pub open spec fn reported(s: Seq<char>, rule: GrammarRule, i: int) -> bool {
    rule != GrammarRule::Import || at_line_start(s, i)
}

/// The matches of the text from `i` on, in order. Where a production
/// matches, the scan goes on after the match; elsewhere it passes over one
/// character.
pub open spec fn matches_from(s: Seq<char>, i: int) -> Seq<RuleMatch>
    decreases s.len() - i,
{
    if i < 0 || i >= s.len() {
        Seq::empty()
    } else {
        match match_at(s, i) {
            Some((rule, e)) => if i < e <= s.len() {
                let rest = matches_from(s, e);
                if reported(s, rule, i) {
                    seq![RuleMatch { rule, start: i as usize, end: e as usize }] + rest
                } else {
                    rest
                }
            } else {
                matches_from(s, i + 1)
            },
            None => matches_from(s, i + 1),
        }
    }
}

/// All matches of a text.
pub open spec fn matches_of(s: Seq<char>) -> Seq<RuleMatch> {
    matches_from(s, 0)
}

/// Whether the offset that a scanner found is the one that the grammar gives.
pub open spec fn agrees(found: Option<usize>, given: Option<int>) -> bool {
    match found {
        Some(e) => given == Some(e as int),
        None => given is None,
    }
}

/// The offset after the line terminator at `i`, or `i` where none stands.
pub fn skip_newline(s: &Vec<char>, i: usize) -> (j: usize)
    requires
        i <= s.len(),
    ensures
        j == newline_end(s@, i as int),
        i <= j <= s.len(),
{
    if i < s.len() && s[i] == '\r' && s.len() - i > 1 && s[i + 1] == '\n' {
        i + 2
    } else if i < s.len() && (s[i] == '\n' || s[i] == '\r') {
        i + 1
    } else {
        i
    }
}

/// Scans one decorator line at `i`.
pub fn scan_decorator_line(s: &Vec<char>, i: usize) -> (r: Option<usize>)
    requires
        i <= s.len(),
    ensures
        agrees(r, decorator_line(s@, i as int)),
        r matches Some(n) ==> i < n <= s.len(),
{
    let a = skip_run(s, i, s.len(), CharClass::Blank);
    if a < s.len() && s[a] == '@' {
        let e = skip_run(s, a, s.len(), CharClass::LineBody);
        assert(e > a) by {
            assert(CharClass::LineBody.has(s@[a as int]));
            lemma_run_end_bounds(s@, a + 1, s.len() as int, CharClass::LineBody);
        }
        if e < s.len() {
            Some(skip_newline(s, e))
        } else {
            None
        }
    } else {
        None
    }
}

/// Passes over the decorator lines that start at `i`.
pub fn skip_decorators(s: &Vec<char>, i: usize) -> (j: usize)
    requires
        i <= s.len(),
    ensures
        j == decorators_end(s@, i as int),
        i <= j <= s.len(),
{
    let mut j: usize = i;
    loop
        invariant
            i <= j <= s.len(),
            decorators_end(s@, i as int) == decorators_end(s@, j as int),
        ensures
            j == decorators_end(s@, i as int),
        decreases s.len() - j,
    {
        match scan_decorator_line(s, j) {
            Some(n) => {
                j = n;
            },
            None => {
                break ;
            },
        }
    }
    j
}

/// Looks from `i` on for the parenthesis that closes `depth` open ones.
pub fn scan_paren_close(s: &Vec<char>, i: usize, depth: usize) -> (r: Option<usize>)
    requires
        1 <= depth <= i <= s.len(),
    ensures
        agrees(r, paren_close(s@, i as int, depth as int)),
        r matches Some(n) ==> i < n <= s.len(),
{
    let mut k: usize = i;
    let mut open: usize = depth;
    while k < s.len()
        invariant
            i <= k <= s.len(),
            1 <= open <= k,
            paren_close(s@, i as int, depth as int) == paren_close(s@, k as int, open as int),
        decreases s.len() - k,
    {
        let c = s[k];
        if c == '(' {
            open += 1;
        } else if c == ')' {
            if open <= 1 {
                return Some(k + 1);
            }
            open -= 1;
        }
        k += 1;
    }
    None
}

/// Scans the tail of a function's declaration from `i`.
pub fn scan_function_tail(s: &Vec<char>, i: usize) -> (r: Option<usize>)
    requires
        i <= s.len(),
    ensures
        agrees(r, function_tail(s@, i as int)),
        r matches Some(n) ==> i < n <= s.len(),
{
    let f = skip_run(s, i, s.len(), CharClass::Blank);
    if f < s.len() && s[f] == '(' {
        match scan_paren_close(s, f + 1, 1) {
            Some(g) => {
                let h = skip_run(s, g, s.len(), CharClass::BeforeColon);
                if h < s.len() && s[h] == ':' {
                    Some(h + 1)
                } else {
                    None
                }
            },
            None => None,
        }
    } else {
        None
    }
}

/// Scans the tail of a class's declaration from `i`.
pub fn scan_class_tail(s: &Vec<char>, i: usize) -> (r: Option<usize>)
    requires
        i <= s.len(),
    ensures
        agrees(r, class_tail(s@, i as int)),
        r matches Some(n) ==> i < n <= s.len(),
{
    let f = skip_run(s, i, s.len(), CharClass::Blank);
    let bases = if f < s.len() && s[f] == '(' {
        scan_paren_close(s, f + 1, 1)
    } else {
        Some(f)
    };
    match bases {
        Some(g) => {
            let h = skip_run(s, g, s.len(), CharClass::Blank);
            if h < s.len() && s[h] == ':' {
                Some(h + 1)
            } else {
                None
            }
        },
        None => None,
    }
}

/// Scans the blanks at `i` and the name after them.
pub fn scan_declared_name(s: &Vec<char>, i: usize) -> (r: Option<usize>)
    requires
        i <= s.len(),
    ensures
        agrees(r, declared_name(s@, i as int)),
        r matches Some(n) ==> i < n <= s.len(),
{
    let d = skip_run(s, i, s.len(), CharClass::Blank);
    let e = skip_run(s, d, s.len(), CharClass::Ident);
    if e > d {
        Some(e)
    } else {
        None
    }
}

/// Scans a function definition at `i`.
pub fn scan_function(s: &Vec<char>, i: usize) -> (r: Option<usize>)
    requires
        i <= s.len(),
    ensures
        agrees(r, match_function(s@, i as int)),
        r matches Some(n) ==> i < n <= s.len(),
{
    let a = skip_decorators(s, i);
    let b = skip_run(s, a, s.len(), CharClass::Blank);
    let c = if Keyword::Async.is_at_spaced(s, b, s.len()) {
        skip_run(s, b + 5, s.len(), CharClass::Blank)
    } else {
        b
    };
    if Keyword::Def.is_at_spaced(s, c, s.len()) {
        match scan_declared_name(s, c + 3) {
            Some(e) => scan_function_tail(s, e),
            None => None,
        }
    } else {
        None
    }
}

/// Scans a class definition at `i`.
pub fn scan_class(s: &Vec<char>, i: usize) -> (r: Option<usize>)
    requires
        i <= s.len(),
    ensures
        agrees(r, match_class(s@, i as int)),
        r matches Some(n) ==> i < n <= s.len(),
{
    let a = skip_decorators(s, i);
    let b = skip_run(s, a, s.len(), CharClass::Blank);
    if Keyword::Class.is_at_spaced(s, b, s.len()) {
        match scan_declared_name(s, b + 5) {
            Some(e) => scan_class_tail(s, e),
            None => None,
        }
    } else {
        None
    }
}

/// Looks from `i` on, below `hi`, for a triple-quote delimiter.
pub fn find_quotes(s: &Vec<char>, i: usize, hi: usize) -> (r: Option<usize>)
    requires
        i <= hi <= s.len(),
    ensures
        agrees(r, next_quotes(s@, i as int, hi as int)),
        r matches Some(n) ==> i <= n && n + 3 <= hi,
{
    let mut k: usize = i;
    while hi - k >= 3
        invariant
            i <= k <= hi <= s.len(),
            next_quotes(s@, i as int, hi as int) == next_quotes(s@, k as int, hi as int),
        decreases hi - k,
    {
        if Keyword::Quotes.is_at(s, k, hi) {
            return Some(k);
        }
        k += 1;
    }
    None
}

/// Scans a triple-quoted literal at `i`.
pub fn scan_docstring(s: &Vec<char>, i: usize) -> (r: Option<usize>)
    requires
        i <= s.len(),
    ensures
        agrees(r, match_docstring(s@, i as int)),
        r matches Some(n) ==> i < n <= s.len(),
{
    let b = skip_run(s, i, s.len(), CharClass::Blank);
    if Keyword::Quotes.is_at(s, b, s.len()) {
        match find_quotes(s, b + 3, s.len()) {
            Some(c) => Some(c + 3),
            None => None,
        }
    } else {
        None
    }
}

/// Scans what follows `import` in a statement.
pub fn scan_import_rest(s: &Vec<char>, i: usize) -> (r: Option<usize>)
    requires
        i <= s.len(),
    ensures
        agrees(r, import_rest(s@, i as int)),
        r matches Some(n) ==> i < n <= s.len(),
{
    let d = skip_run(s, i, s.len(), CharClass::Blank);
    let e = skip_run(s, d, s.len(), CharClass::LineBody);
    if e > d {
        Some(skip_newline(s, e))
    } else {
        None
    }
}

/// Scans an import statement at `i`.
pub fn scan_import(s: &Vec<char>, i: usize) -> (r: Option<usize>)
    requires
        i <= s.len(),
    ensures
        agrees(r, match_import(s@, i as int)),
        r matches Some(n) ==> i < n <= s.len(),
{
    let b = skip_run(s, i, s.len(), CharClass::Blank);
    if Keyword::Import.is_at_spaced(s, b, s.len()) {
        scan_import_rest(s, b + 6)
    } else if Keyword::ImportFrom.is_at_spaced(s, b, s.len()) {
        let d = skip_run(s, b + 4, s.len(), CharClass::Blank);
        let e = skip_run(s, d, s.len(), CharClass::Word);
        let f = skip_run(s, e, s.len(), CharClass::Blank);
        if d < e && e < f && Keyword::Import.is_at_spaced(s, f, s.len()) {
            scan_import_rest(s, f + 6)
        } else {
            None
        }
    } else {
        None
    }
}

/// Tries the four productions at `i`, in the grammar's order.
pub fn scan_at(s: &Vec<char>, i: usize) -> (r: Option<(GrammarRule, usize)>)
    requires
        i <= s.len(),
    ensures
        match r {
            Some((rule, e)) => match_at(s@, i as int) == Some((rule, e as int)) && i < e
                <= s.len(),
            None => match_at(s@, i as int) is None,
        },
{
    if let Some(e) = scan_docstring(s, i) {
        Some((GrammarRule::Docstring, e))
    } else if let Some(e) = scan_function(s, i) {
        Some((GrammarRule::FunctionDef, e))
    } else if let Some(e) = scan_class(s, i) {
        Some((GrammarRule::ClassDef, e))
    } else if let Some(e) = scan_import(s, i) {
        Some((GrammarRule::Import, e))
    } else {
        None
    }
}

/// Whether every match lies inside a text of `len` characters and is not
/// empty.
pub open spec fn spans_within(found: Seq<RuleMatch>, len: int) -> bool {
    forall|k: int| 0 <= k < found.len() ==> (#[trigger] found[k]).start < found[k].end <= len
}

/// Matches the grammar against the whole text.
pub fn find_matches(s: &Vec<char>) -> (found: Vec<RuleMatch>)
    ensures
        found@ == matches_of(s@),
        spans_within(found@, s.len() as int),
{
    let mut found: Vec<RuleMatch> = Vec::new();
    let mut i: usize = 0;
    while i < s.len()
        invariant
            i <= s.len(),
            found@ + matches_from(s@, i as int) == matches_of(s@),
            spans_within(found@, s.len() as int),
        decreases s.len() - i,
    {
        match scan_at(s, i) {
            Some((rule, e)) => {
                if rule != GrammarRule::Import || is_line_start(s, i) {
                    let m = RuleMatch { rule, start: i, end: e };
                    proof {
                        let rest = matches_from(s@, e as int);
                        assert(found@.push(m) + rest =~= found@ + (seq![m] + rest));
                    }
                    found.push(m);
                }
                i = e;
            },
            None => {
                i += 1;
            },
        }
    }
    proof {
        assert(found@ + Seq::<RuleMatch>::empty() =~= found@);
    }
    found
}

/// Every match of a text starts at or after the offset that the scan
/// began at, holds at least one character and ends inside the text.
pub proof fn lemma_matches_within(s: Seq<char>, i: int)
    requires
        0 <= i,
        s.len() <= usize::MAX,
    ensures
        forall|k: int|
            0 <= k < matches_from(s, i).len() ==> i <= (#[trigger] matches_from(s, i)[k]).start
                < matches_from(s, i)[k].end <= s.len(),
    decreases s.len() - i,
{
    if i < s.len() {
        match match_at(s, i) {
            Some((rule, e)) => {
                if i < e <= s.len() {
                    lemma_matches_within(s, e);
                } else {
                    lemma_matches_within(s, i + 1);
                }
            },
            None => {
                lemma_matches_within(s, i + 1);
            },
        }
    }
}

/// The matches of a text stand in the order of the text and do not
/// overlap: each starts where an earlier one ends, or later.
pub proof fn lemma_matches_in_order(s: Seq<char>, i: int)
    requires
        0 <= i,
        s.len() <= usize::MAX,
    ensures
        forall|a: int, b: int|
            0 <= a < b < matches_from(s, i).len() ==> (#[trigger] matches_from(s, i)[a]).end <= (
            #[trigger] matches_from(s, i)[b]).start,
    decreases s.len() - i,
{
    if i < s.len() {
        match match_at(s, i) {
            Some((rule, e)) => {
                if i < e <= s.len() {
                    lemma_matches_in_order(s, e);
                    lemma_matches_within(s, e);
                    let rest = matches_from(s, e);
                    let all = matches_from(s, i);
                    if reported(s, rule, i) {
                        assert(all =~= seq![RuleMatch { rule, start: i as usize, end: e as usize }]
                            + rest);
                        assert forall|a: int, b: int| 0 <= a < b < all.len() implies (
                        #[trigger] all[a]).end <= (#[trigger] all[b]).start by {
                            assert(all[b] == rest[b - 1]);
                            if a > 0 {
                                assert(all[a] == rest[a - 1]);
                            }
                        }
                    }
                } else {
                    lemma_matches_in_order(s, i + 1);
                }
            },
            None => {
                lemma_matches_in_order(s, i + 1);
            },
        }
    }
}

} // verus!
