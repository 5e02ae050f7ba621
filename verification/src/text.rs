//! Character classes, runs of characters, trimming and conversions between
//! strings and character vectors.

use vstd::prelude::*;

verus! {

/// Whether `c` carries the Unicode `White_Space` property.
pub open spec fn is_space(c: char) -> bool {
    let n = c as u32;
    (0x09 <= n <= 0x0D) || n == 0x20 || n == 0x85 || n == 0xA0 || n == 0x1680 || (0x2000 <= n
        <= 0x200A) || n == 0x2028 || n == 0x2029 || n == 0x202F || n == 0x205F || n == 0x3000
}

/// Whether `c` may stand in an identifier: an ASCII letter, a digit or `_`.
pub open spec fn is_ident(c: char) -> bool {
    ('a' <= c <= 'z') || ('A' <= c <= 'Z') || ('0' <= c <= '9') || c == '_'
}

/// The sets of characters that the scanners walk over.
#[derive(Clone, Copy, Debug, PartialEq, Eq)]
pub enum CharClass {
    /// Unicode white space.
    Space,
    /// A space or a tab: what separates tokens inside one line.
    Blank,
    /// A character of an identifier.
    Ident,
    /// The line feed alone.
    LineFeed,
    /// Anything but a line feed.
    NotLineFeed,
    /// Anything but a line feed or a carriage return.
    LineBody,
    /// Anything but a line terminator or a colon.
    BeforeColon,
    /// Anything but a blank or a line terminator.
    Word,
    /// Anything but an opening parenthesis.
    BeforeParen,
    /// What separates a class name from the rest of its declaration: an
    /// opening parenthesis, a colon or white space.
    ClassNameStop,
    /// Anything that may stand in a class name: all but the separators.
    ClassName,
    /// The double quote alone.
    Quote,
}

impl CharClass {
    /// Whether `c` belongs to the class.
    pub open spec fn has(self, c: char) -> bool {
        match self {
            CharClass::Space => is_space(c),
            CharClass::Blank => c == ' ' || c == '\t',
            CharClass::Ident => is_ident(c),
            CharClass::LineFeed => c == '\n',
            CharClass::NotLineFeed => c != '\n',
            CharClass::LineBody => c != '\n' && c != '\r',
            CharClass::BeforeColon => c != '\n' && c != '\r' && c != ':',
            CharClass::Word => c != ' ' && c != '\t' && c != '\n' && c != '\r',
            CharClass::BeforeParen => c != '(',
            CharClass::ClassNameStop => c == '(' || c == ':' || is_space(c),
            CharClass::ClassName => !(c == '(' || c == ':' || is_space(c)),
            CharClass::Quote => c == '"',
        }
    }

    /// Tests `c` for membership in the class.
    pub fn contains(self, c: char) -> (r: bool)
        ensures
            r == self.has(c),
    {
        match self {
            CharClass::Space => char_is_space(c),
            CharClass::Blank => c == ' ' || c == '\t',
            CharClass::Ident => ('a' <= c && c <= 'z') || ('A' <= c && c <= 'Z') || ('0' <= c
                && c <= '9') || c == '_',
            CharClass::LineFeed => c == '\n',
            CharClass::NotLineFeed => c != '\n',
            CharClass::LineBody => c != '\n' && c != '\r',
            CharClass::BeforeColon => c != '\n' && c != '\r' && c != ':',
            CharClass::Word => c != ' ' && c != '\t' && c != '\n' && c != '\r',
            CharClass::BeforeParen => c != '(',
            CharClass::ClassNameStop => c == '(' || c == ':' || char_is_space(c),
            CharClass::ClassName => !(c == '(' || c == ':' || char_is_space(c)),
            CharClass::Quote => c == '"',
        }
    }
}

/// Tests a character for the Unicode `White_Space` property.
pub fn char_is_space(c: char) -> (r: bool)
    ensures
        r == is_space(c),
{
    let n: u32 = c as u32;
    (0x09 <= n && n <= 0x0D) || n == 0x20 || n == 0x85 || n == 0xA0 || n == 0x1680 || (0x2000
        <= n && n <= 0x200A) || n == 0x2028 || n == 0x2029 || n == 0x202F || n == 0x205F || n
        == 0x3000
}

/// The end of the longest run of `cls` characters that starts at `i` and
/// stays below `hi`.
pub open spec fn run_end(s: Seq<char>, i: int, hi: int, cls: CharClass) -> int
    decreases hi - i,
{
    if 0 <= i < hi && i < s.len() && cls.has(s[i]) {
        run_end(s, i + 1, hi, cls)
    } else {
        i
    }
}

/// The start of the longest run of `cls` characters that ends at `i` and
/// does not reach below `lo`.
pub open spec fn run_start(s: Seq<char>, lo: int, i: int, cls: CharClass) -> int
    decreases i - lo,
{
    if lo < i <= s.len() && 0 < i && cls.has(s[i - 1]) {
        run_start(s, lo, i - 1, cls)
    } else {
        i
    }
}

/// Where the text of `s[lo..hi]` begins once leading white space is dropped.
pub open spec fn trim_lo(s: Seq<char>, lo: int, hi: int) -> int {
    run_end(s, lo, hi, CharClass::Space)
}

/// Where the text of `s[lo..hi]` ends once white space is dropped on both sides.
pub open spec fn trim_hi(s: Seq<char>, lo: int, hi: int) -> int {
    run_start(s, trim_lo(s, lo, hi), hi, CharClass::Space)
}

/// `s[lo..hi]` without leading and trailing white space.
pub open spec fn trimmed(s: Seq<char>, lo: int, hi: int) -> Seq<char> {
    s.subrange(trim_lo(s, lo, hi), trim_hi(s, lo, hi))
}

/// Whether `s[lo..hi]` holds white space only.
pub open spec fn is_blank(s: Seq<char>, lo: int, hi: int) -> bool {
    trim_lo(s, lo, hi) >= hi
}

/// A run never leaves the range it was started in.
pub proof fn lemma_run_end_bounds(s: Seq<char>, i: int, hi: int, cls: CharClass)
    requires
        0 <= i <= hi <= s.len(),
    ensures
        i <= run_end(s, i, hi, cls) <= hi,
    decreases hi - i,
{
    if i < hi && cls.has(s[i]) {
        lemma_run_end_bounds(s, i + 1, hi, cls);
    }
}

/// Walks forward from `i` over characters of `cls`, stopping at `hi`.
pub fn skip_run(s: &Vec<char>, i: usize, hi: usize, cls: CharClass) -> (j: usize)
    requires
        i <= hi <= s.len(),
    ensures
        j == run_end(s@, i as int, hi as int, cls),
        i <= j <= hi,
{
    let mut j: usize = i;
    while j < hi && cls.contains(s[j])
        invariant
            i <= j <= hi <= s.len(),
            run_end(s@, i as int, hi as int, cls) == run_end(s@, j as int, hi as int, cls),
        decreases hi - j,
    {
        j += 1;
    }
    j
}

/// Walks backward from `i` over characters of `cls`, stopping at `lo`.
pub fn skip_run_back(s: &Vec<char>, lo: usize, i: usize, cls: CharClass) -> (j: usize)
    requires
        lo <= i <= s.len(),
    ensures
        j == run_start(s@, lo as int, i as int, cls),
        lo <= j <= i,
{
    let mut j: usize = i;
    while j > lo && cls.contains(s[j - 1])
        invariant
            lo <= j <= i <= s.len(),
            run_start(s@, lo as int, i as int, cls) == run_start(s@, lo as int, j as int, cls),
        decreases j - lo,
    {
        j -= 1;
    }
    j
}

/// The bounds of `s[lo..hi]` without leading and trailing white space.
pub fn trim_bounds(s: &Vec<char>, lo: usize, hi: usize) -> (r: (usize, usize))
    requires
        lo <= hi <= s.len(),
    ensures
        r.0 == trim_lo(s@, lo as int, hi as int),
        r.1 == trim_hi(s@, lo as int, hi as int),
        lo <= r.0 <= r.1 <= hi,
{
    let a = skip_run(s, lo, hi, CharClass::Space);
    let b = skip_run_back(s, a, hi, CharClass::Space);
    (a, b)
}

/// Copies `s[lo..hi]` into a vector of its own.
pub fn copy_range(s: &Vec<char>, lo: usize, hi: usize) -> (v: Vec<char>)
    requires
        lo <= hi <= s.len(),
    ensures
        v@ == s@.subrange(lo as int, hi as int),
{
    let mut v: Vec<char> = Vec::new();
    let mut k: usize = lo;
    while k < hi
        invariant
            lo <= k <= hi <= s.len(),
            v@ == s@.subrange(lo as int, k as int),
        decreases hi - k,
    {
        v.push(s[k]);
        k += 1;
        assert(v@ =~= s@.subrange(lo as int, k as int));
    }
    v
}

/// Appends `s[lo..hi]` to `out`.
pub fn push_range(out: &mut Vec<char>, s: &Vec<char>, lo: usize, hi: usize)
    requires
        lo <= hi <= s.len(),
    ensures
        final(out)@ == old(out)@ + s@.subrange(lo as int, hi as int),
{
    let mut k: usize = lo;
    while k < hi
        invariant
            lo <= k <= hi <= s.len(),
            out@ == old(out)@ + s@.subrange(lo as int, k as int),
        decreases hi - k,
    {
        out.push(s[k]);
        k += 1;
        assert(out@ =~= old(out)@ + s@.subrange(lo as int, k as int));
    }
}

/// Copies the characters of a string into a vector.
pub fn chars_of(s: &str) -> (v: Vec<char>)
    ensures
        v@ == s@,
{
    let mut v: Vec<char> = Vec::new();
    let mut it = s.chars();
    for c in iter: it
        invariant
            v@ == iter.seq().take(iter.index@),
    {
        v.push(c);
    }
    v
}

/// The characters of `s[lo..hi]` as a string.
pub fn text_of(s: &Vec<char>, lo: usize, hi: usize) -> (out: String)
    requires
        lo <= hi <= s.len(),
    ensures
        out@ == s@.subrange(lo as int, hi as int),
{
    let part = copy_range(s, lo, hi);
    string_of(&part)
}

/// `String::from_iter` over the characters of `chars`: the string that
/// holds exactly these characters, in this order.
#[verifier::external_body]
pub(crate) fn string_of(chars: &Vec<char>) -> (s: String)
    ensures
        s@ == chars@,
{
    String::from_iter(chars.iter())
}

} // verus!
