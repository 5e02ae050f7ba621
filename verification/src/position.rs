//! Line and column of an offset into a text, and the way back.

use vstd::prelude::*;

verus! {

/// The 1-based line of offset `i`: one more than the line feeds before it.
pub open spec fn line_of(s: Seq<char>, i: int) -> int
    decreases i,
{
    if i <= 0 || i > s.len() {
        1
    } else if s[i - 1] == '\n' {
        line_of(s, i - 1) + 1
    } else {
        line_of(s, i - 1)
    }
}

/// The 1-based column of offset `i`: one more than the characters between
/// the last line feed before `i` and `i`.
pub open spec fn column_of(s: Seq<char>, i: int) -> int
    decreases i,
{
    if i <= 0 || i > s.len() {
        1
    } else if s[i - 1] == '\n' {
        1
    } else {
        column_of(s, i - 1) + 1
    }
}

/// An offset past the end of the text stands for the end of the text.
pub open spec fn clamp_offset(s: Seq<char>, offset: int) -> int {
    if offset > s.len() {
        s.len() as int
    } else {
        offset
    }
}

/// Whether `offset` is the first offset of the text or follows a line
/// terminator.
pub open spec fn at_line_start(s: Seq<char>, offset: int) -> bool {
    offset <= 0 || (offset <= s.len() && (s[offset - 1] == '\n' || s[offset - 1] == '\r'))
}

/// Walks the text from `pos`, which stands at `(l, c)`, one character at a
/// time until it stands at `(line, col)` or the text ends.
pub open spec fn seek(s: Seq<char>, pos: int, l: int, c: int, line: int, col: int) -> int
    decreases s.len() - pos,
{
    if pos < 0 || pos >= s.len() || (l == line && c == col) {
        pos
    } else if s[pos] == '\n' {
        seek(s, pos + 1, l + 1, 1, line, col)
    } else {
        seek(s, pos + 1, l, c + 1, line, col)
    }
}

/// The offset that a character-by-character walk from the start of the text
/// reaches first at `(line, col)`.
pub open spec fn offset_at(s: Seq<char>, line: int, col: int) -> int {
    seek(s, 0, 1, 1, line, col)
}

/// Lines and columns are at least 1 and at most one more than the offset.
pub proof fn lemma_position_bounds(s: Seq<char>, i: int)
    requires
        0 <= i <= s.len(),
    ensures
        1 <= line_of(s, i) <= i + 1,
        1 <= column_of(s, i) <= i + 1,
    decreases i,
{
    if i > 0 {
        lemma_position_bounds(s, i - 1);
    }
}

/// A later offset has a later position: a higher line, or the same line and
/// a higher column.
pub proof fn lemma_position_increases(s: Seq<char>, j: int, i: int)
    requires
        0 <= j < i <= s.len(),
    ensures
        line_of(s, j) < line_of(s, i) || (line_of(s, j) == line_of(s, i) && column_of(s, j)
            < column_of(s, i)),
    decreases i - j,
{
    lemma_position_bounds(s, i - 1);
    if j < i - 1 {
        lemma_position_increases(s, j, i - 1);
    }
}

proof fn lemma_seek_reaches(s: Seq<char>, j: int, i: int)
    requires
        0 <= j <= i <= s.len(),
    ensures
        seek(s, j, line_of(s, j), column_of(s, j), line_of(s, i), column_of(s, i)) == i,
    decreases i - j,
{
    if j < i {
        lemma_position_increases(s, j, i);
        lemma_seek_reaches(s, j + 1, i);
    }
}

/// The position of an offset, looked up again by walking the text one
/// character at a time, leads back to that offset.
pub proof fn lemma_position_round_trip(s: Seq<char>, i: int)
    requires
        0 <= i <= s.len(),
    ensures
        offset_at(s, line_of(s, i), column_of(s, i)) == i,
{
    lemma_seek_reaches(s, 0, i);
}

/// The 1-based line and column of `offset`, counted in characters. An
/// offset past the end gives the position of the end.
pub fn offset_to_line_col(source: &Vec<char>, offset: usize) -> (r: (usize, usize))
    requires
        offset < usize::MAX,
    ensures
        r.0 == line_of(source@, clamp_offset(source@, offset as int)),
        r.1 == column_of(source@, clamp_offset(source@, offset as int)),
{
    let stop: usize = if offset > source.len() {
        source.len()
    } else {
        offset
    };
    let mut line: usize = 1;
    let mut column: usize = 1;
    let mut k: usize = 0;
    while k < stop
        invariant
            k <= stop <= source.len(),
            stop < usize::MAX,
            line == line_of(source@, k as int),
            column == column_of(source@, k as int),
            line <= k + 1,
            column <= k + 1,
        decreases stop - k,
    {
        if source[k] == '\n' {
            line += 1;
            column = 1;
        } else {
            column += 1;
        }
        k += 1;
    }
    (line, column)
}

/// Whether `offset` starts a line of `source`.
pub fn is_line_start(source: &Vec<char>, offset: usize) -> (r: bool)
    requires
        offset <= source.len(),
    ensures
        r == at_line_start(source@, offset as int),
{
    if offset == 0 {
        return true;
    }
    let ch = source[offset - 1];
    ch == '\n' || ch == '\r'
}

} // verus!
