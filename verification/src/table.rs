//! The lines of the plain table of parse results.

use crate::generator::{decimal, push_decimal};
use crate::parser::{GrammarRule, ItemView, ParsedItem};
use crate::text::{chars_of, copy_range, string_of};
use vstd::prelude::*;
use vstd::string::StringExecFns;

verus! {

/// `s` cut to at most `max` characters: `s` itself where it is short
/// enough, else its first `max - 1` characters and an ellipsis.
pub open spec fn truncated(s: Seq<char>, max: int) -> Seq<char> {
    if s.len() <= max {
        s
    } else if max <= 1 {
        seq!['…']
    } else {
        s.take(max - 1).push('…')
    }
}

/// Cuts a text to at most `max` characters, the last of them an ellipsis
/// where something was cut. With `max` 0 a text that is not empty still
/// gives the ellipsis.
pub fn truncate(text: &str, max: usize) -> (out: String)
    ensures
        out@ == truncated(text@, max as int),
{
    let chars = chars_of(text);
    if chars.len() <= max {
        return text.to_owned();
    }
    let keep: usize = if max <= 1 {
        0
    } else {
        max - 1
    };
    let mut cut = copy_range(&chars, 0, keep);
    cut.push('…');
    proof {
        if max <= 1 {
            assert(cut@ =~= seq!['…']);
        } else {
            assert(cut@ =~= chars@.take(max - 1).push('…'));
        }
    }
    string_of(&cut)
}

/// `n` spaces.
pub open spec fn spaces(n: int) -> Seq<char> {
    Seq::new(
        if n > 0 {
            n as nat
        } else {
            0
        },
        |i: int| ' ',
    )
}

/// `s` with spaces after it up to `width` characters.
pub open spec fn padded_right(s: Seq<char>, width: int) -> Seq<char> {
    s + spaces(width - s.len())
}

/// `s` with spaces before it up to `width` characters.
pub open spec fn padded_left(s: Seq<char>, width: int) -> Seq<char> {
    spaces(width - s.len()) + s
}

/// Appends spaces to `out` until `have` characters have become `width`.
fn push_spaces(out: &mut Vec<char>, have: usize, width: usize)
    ensures
        final(out)@ == old(out)@ + spaces(width - have),
{
    let mut n: usize = have;
    assert(out@ =~= old(out)@ + spaces(0));
    while n < width
        invariant
            have <= n,
            n <= width || n == have,
            out@ == old(out)@ + spaces(n - have),
        decreases width - n,
    {
        out.push(' ');
        n += 1;
        assert(out@ =~= old(out)@ + spaces(n - have));
    }
    assert(out@ =~= old(out)@ + spaces(width - have));
}

/// What a row shows of an item: its signature, else its name, else its
/// docstring, else its text.
pub open spec fn summary_of(item: ItemView) -> Seq<char> {
    match item.signature {
        Some(s) => s,
        None => match item.name {
            Some(n) => n,
            None => match item.docstring {
                Some(d) => d,
                None => item.content,
            },
        },
    }
}

/// The module that a row shows: the item's module, else its source, else
/// a dash.
pub open spec fn shown_module(item: ItemView) -> Seq<char> {
    match item.module {
        Some(m) => m,
        None => match item.source {
            Some(s) => s,
            None => "-"@,
        },
    }
}

/// The name of a rule.
pub open spec fn label_of(rule: GrammarRule) -> Seq<char> {
    match rule {
        GrammarRule::FunctionDef => "FunctionDef"@,
        GrammarRule::Docstring => "Docstring"@,
        GrammarRule::ClassDef => "ClassDef"@,
        GrammarRule::Import => "Import"@,
    }
}

/// The row of an item: the rule, the module cut to 30 characters and
/// filled up to 30, the line filled up to 4 from the left, the column
/// filled up to 3, and the summary.
pub open spec fn row_of(item: ItemView) -> Seq<char> {
    label_of(item.rule) + " | "@ + padded_right(truncated(shown_module(item), 30), 30) + " | "@
        + padded_left(decimal(item.line as nat), 4) + ":"@ + padded_right(
        decimal(item.column as nat),
        3,
    ) + " | "@ + summary_of(item)
}

/// The title of the table.
pub fn table_title() -> (s: &'static str)
    ensures
        s@ == "--- P A R S E   R E S U L T S ---"@,
{
    "--- P A R S E   R E S U L T S ---"
}

/// The heading of the table's columns.
pub fn table_header() -> (s: &'static str)
    ensures
        s@ == "Rule         | Module                         | Line:Col | Summary"@,
{
    "Rule         | Module                         | Line:Col | Summary"
}

/// Writes the row of an item.
pub fn table_row(item: &ParsedItem) -> (row: String)
    ensures
        row@ == row_of(item@),
{
    let module: &str = match &item.module {
        Some(m) => m.as_str(),
        None => match &item.source {
            Some(s) => s.as_str(),
            None => "-",
        },
    };
    let summary: &str = match &item.signature {
        Some(s) => s.as_str(),
        None => match &item.name {
            Some(n) => n.as_str(),
            None => match &item.docstring {
                Some(d) => d.as_str(),
                None => item.content.as_str(),
            },
        },
    };
    let shown = chars_of(truncate(module, 30).as_str());
    let mut module_cell: Vec<char> = Vec::new();
    crate::text::push_range(&mut module_cell, &shown, 0, shown.len());
    push_spaces(&mut module_cell, shown.len(), 30);
    let mut line_digits: Vec<char> = Vec::new();
    push_decimal(&mut line_digits, item.line);
    let mut line_cell: Vec<char> = Vec::new();
    push_spaces(&mut line_cell, line_digits.len(), 4);
    crate::text::push_range(&mut line_cell, &line_digits, 0, line_digits.len());
    let mut column_cell: Vec<char> = Vec::new();
    push_decimal(&mut column_cell, item.column);
    let ghost column_digits = column_cell@;
    let column_width = column_cell.len();
    push_spaces(&mut column_cell, column_width, 3);
    proof {
        assert(shown@.subrange(0, shown.len() as int) =~= shown@);
        assert(module_cell@ =~= padded_right(truncated(shown_module(item@), 30), 30));
        assert(line_digits@ =~= decimal(item.line as nat));
        assert(line_digits@.subrange(0, line_digits.len() as int) =~= line_digits@);
        assert(line_cell@ =~= padded_left(decimal(item.line as nat), 4));
        assert(column_digits =~= decimal(item.column as nat));
        assert(column_cell@ =~= padded_right(decimal(item.column as nat), 3));
    }
    let mut row = item.rule.label().to_owned();
    row.append(" | ");
    row.append(string_of(&module_cell).as_str());
    row.append(" | ");
    row.append(string_of(&line_cell).as_str());
    row.append(":");
    row.append(string_of(&column_cell).as_str());
    row.append(" | ");
    row.append(summary);
    row
}

} // verus!
