//! The sections of a generated document: an overview, the tables of
//! functions and classes, and the table of docstring coverage.

use crate::parser::{item_views, ItemView, ParsedItem};
use crate::report::{
    aggregate_modules, aggregated, lemma_aggregated_partition, report_size, table_size,
    EntryView, ModuleReport, ModuleTable, ReportView, SymbolEntry,
};
use crate::text::string_of;
use vstd::prelude::*;
use vstd::string::StringExecFns;

verus! {

/// The sections, each as text ready to be put into a document.
#[derive(Debug, Clone)]
pub struct GeneratedSections {
    pub overview: String,
    pub api_table: String,
    pub docstring_coverage: String,
}

/// The decimal digit that stands for `d`.
pub open spec fn digit(d: nat) -> char {
    if d == 0 {
        '0'
    } else if d == 1 {
        '1'
    } else if d == 2 {
        '2'
    } else if d == 3 {
        '3'
    } else if d == 4 {
        '4'
    } else if d == 5 {
        '5'
    } else if d == 6 {
        '6'
    } else if d == 7 {
        '7'
    } else if d == 8 {
        '8'
    } else {
        '9'
    }
}

/// The decimal numeral of `n`, without leading zeros.
pub open spec fn decimal(n: nat) -> Seq<char>
    decreases n,
{
    if n < 10 {
        seq![digit(n)]
    } else {
        decimal(n / 10).push(digit(n % 10))
    }
}

/// Appends the decimal numeral of `n` to `out`.
pub fn push_decimal(out: &mut Vec<char>, n: usize)
    ensures
        final(out)@ == old(out)@ + decimal(n as nat),
    decreases n,
{
    if n >= 10 {
        push_decimal(out, n / 10);
    }
    let d: usize = n % 10;
    let c = if d == 0 {
        '0'
    } else if d == 1 {
        '1'
    } else if d == 2 {
        '2'
    } else if d == 3 {
        '3'
    } else if d == 4 {
        '4'
    } else if d == 5 {
        '5'
    } else if d == 6 {
        '6'
    } else if d == 7 {
        '7'
    } else if d == 8 {
        '8'
    } else {
        '9'
    };
    out.push(c);
    proof {
        if n >= 10 {
            assert(out@ =~= old(out)@ + decimal((n / 10) as nat).push(c));
        } else {
            assert(out@ =~= old(out)@ + seq![c]);
        }
    }
}

/// The decimal numeral of `n`.
pub fn decimal_text(n: usize) -> (s: String)
    ensures
        s@ == decimal(n as nat),
{
    let mut digits: Vec<char> = Vec::new();
    push_decimal(&mut digits, n);
    assert(digits@ =~= decimal(n as nat));
    string_of(&digits)
}

/// Where an entry was declared: its source and line, or its line alone.
pub open spec fn location_of(e: EntryView) -> Seq<char> {
    match e.source {
        Some(src) => src + ":"@ + decimal(e.line as nat),
        None => "line "@ + decimal(e.line as nat),
    }
}

/// Says where an entry was declared: `source:line`, or `line N` where the
/// source is not known.
pub fn entry_location(entry: &SymbolEntry) -> (s: String)
    ensures
        s@ == location_of(entry@),
{
    let line = decimal_text(entry.line);
    match &entry.source {
        Some(src) => {
            let mut out = src.clone();
            out.append(":");
            out.append(line.as_str());
            out
        },
        None => {
            let mut out = "line ".to_owned();
            out.append(line.as_str());
            out
        },
    }
}

/// The numbers that the overview adds up over the modules.
#[derive(Clone, Copy, Debug, PartialEq, Eq)]
pub enum Tally {
    Functions,
    Classes,
    Docstrings,
    Imports,
}

/// The number that a report contributes to a tally.
pub open spec fn tally_of(r: ReportView, which: Tally) -> nat {
    match which {
        Tally::Functions => r.functions.len(),
        Tally::Classes => r.classes.len(),
        Tally::Docstrings => r.docstrings,
        Tally::Imports => r.imports,
    }
}

/// The sum of a tally over the reports of a table.
pub open spec fn total(table: Seq<(Seq<char>, ReportView)>, which: Tally) -> nat
    decreases table.len(),
{
    if table.len() == 0 {
        0
    } else {
        total(table.drop_last(), which) + tally_of(table.last().1, which)
    }
}

/// A tally over the first modules of a table is at most the tally over
/// all of them, and that at most the number of items that the table
/// accounts for.
pub proof fn lemma_total_bounds(table: Seq<(Seq<char>, ReportView)>, which: Tally, i: int)
    requires
        0 <= i <= table.len(),
    ensures
        total(table.take(i), which) <= total(table, which) <= table_size(table),
    decreases table.len(),
{
    if table.len() == 0 {
        assert(table.take(i) =~= table);
    } else if i == table.len() {
        assert(table.take(i) =~= table);
        lemma_total_bounds(table.drop_last(), which, 0);
    } else {
        lemma_total_bounds(table.drop_last(), which, i);
        assert(table.drop_last().take(i) =~= table.take(i));
    }
}

/// Adds up a tally over the modules.
pub fn sum_tally(table: &ModuleTable, which: Tally) -> (sum: usize)
    requires
        total(table@, which) <= usize::MAX,
    ensures
        sum == total(table@, which),
{
    let mut sum: usize = 0;
    let mut i: usize = 0;
    assert(table@.take(0) =~= Seq::<(Seq<char>, ReportView)>::empty());
    while i < table.entries.len()
        invariant
            i <= table.entries.len(),
            total(table@, which) <= usize::MAX,
            sum == total(table@.take(i as int), which),
        decreases table.entries.len() - i,
    {
        let report = &table.entries[i].report;
        let part = match which {
            Tally::Functions => report.functions.len(),
            Tally::Classes => report.classes.len(),
            Tally::Docstrings => report.docstrings,
            Tally::Imports => report.imports,
        };
        proof {
            assert(table@.take(i as int + 1).drop_last() =~= table@.take(i as int));
            assert(table@.take(i as int + 1).last() == table@[i as int]);
            lemma_total_bounds(table@, which, i as int + 1);
        }
        sum += part;
        i += 1;
    }
    assert(table@.take(table.entries.len() as int) =~= table@);
    sum
}

/// The overview of a table: how many modules, functions, classes,
/// docstrings and imports it holds.
pub open spec fn overview_of(table: Seq<(Seq<char>, ReportView)>) -> Seq<char> {
    "## Overview\nDetected **"@ + decimal(table.len()) + "** module(s), **"@ + decimal(
        total(table, Tally::Functions),
    ) + "** function(s), **"@ + decimal(total(table, Tally::Classes)) + "** class(es), and **"@
        + decimal(total(table, Tally::Docstrings)) + "** docstring(s). The code references **"@
        + decimal(total(table, Tally::Imports)) + "** imports.\n\n"@
}

/// Writes the overview of a table.
pub fn render_overview(table: &ModuleTable) -> (s: String)
    requires
        table_size(table@) <= usize::MAX,
    ensures
        s@ == overview_of(table@),
{
    proof {
        lemma_total_bounds(table@, Tally::Functions, 0);
        lemma_total_bounds(table@, Tally::Classes, 0);
        lemma_total_bounds(table@, Tally::Docstrings, 0);
        lemma_total_bounds(table@, Tally::Imports, 0);
    }
    let mut out = "## Overview\nDetected **".to_owned();
    out.append(decimal_text(table.entries.len()).as_str());
    out.append("** module(s), **");
    out.append(decimal_text(sum_tally(table, Tally::Functions)).as_str());
    out.append("** function(s), **");
    out.append(decimal_text(sum_tally(table, Tally::Classes)).as_str());
    out.append("** class(es), and **");
    out.append(decimal_text(sum_tally(table, Tally::Docstrings)).as_str());
    out.append("** docstring(s). The code references **");
    out.append(decimal_text(sum_tally(table, Tally::Imports)).as_str());
    out.append("** imports.\n\n");
    out
}

/// The table row of one function or class.
pub open spec fn symbol_row(e: EntryView) -> Seq<char> {
    "| `"@ + e.name + "` | `"@ + e.signature + "` | `"@ + location_of(e) + "` |\n"@
}

/// The table rows of the entries, in their order.
pub open spec fn symbol_rows(es: Seq<EntryView>) -> Seq<char>
    decreases es.len(),
{
    if es.len() == 0 {
        Seq::empty()
    } else {
        symbol_rows(es.drop_last()) + symbol_row(es.last())
    }
}

/// The table of a module's functions or classes under the heading `head`;
/// nothing where there are none.
pub open spec fn symbol_table(head: Seq<char>, es: Seq<EntryView>) -> Seq<char> {
    if es.len() == 0 {
        Seq::empty()
    } else {
        head + "| --- | --- | --- |\n"@ + symbol_rows(es)
    }
}

/// The part of the reference that describes one module.
pub open spec fn module_section(name: Seq<char>, r: ReportView) -> Seq<char> {
    let head = "\n### Module `"@ + name + "`\n"@;
    if r.functions.len() == 0 && r.classes.len() == 0 {
        head + "_No functions or classes detected in this module._\n"@
    } else {
        let gap = if r.functions.len() > 0 && r.classes.len() > 0 {
            "\n"@
        } else {
            Seq::empty()
        };
        head + symbol_table("| Function | Signature | Location |\n"@, r.functions) + gap
            + symbol_table("| Class | Signature | Location |\n"@, r.classes)
    }
}

/// The parts of the reference for the modules of a table, in their order.
pub open spec fn module_sections(table: Seq<(Seq<char>, ReportView)>) -> Seq<char>
    decreases table.len(),
{
    if table.len() == 0 {
        Seq::empty()
    } else {
        module_sections(table.drop_last()) + module_section(table.last().0, table.last().1)
    }
}

/// The reference of a table: for each module the tables of its functions
/// and classes.
pub open spec fn api_tables_of(table: Seq<(Seq<char>, ReportView)>) -> Seq<char> {
    if table.len() == 0 {
        "## API Reference\n_No modules discovered._\n"@
    } else {
        "## API Reference\n"@ + module_sections(table)
    }
}

/// Writes the table row of one function or class.
fn render_symbol_row(entry: &SymbolEntry) -> (row: String)
    ensures
        row@ == symbol_row(entry@),
{
    let location = entry_location(entry);
    let mut row = "| `".to_owned();
    row.append(entry.name.as_str());
    row.append("` | `");
    row.append(entry.signature.as_str());
    row.append("` | `");
    row.append(location.as_str());
    row.append("` |\n");
    row
}

/// Appends the table of `entries` under the heading `head`.
fn push_symbol_table(out: &mut String, head: &str, entries: &Vec<SymbolEntry>)
    ensures
        final(out)@ == old(out)@ + symbol_table(head@, crate::report::entry_views(entries@)),
{
    let ghost views = crate::report::entry_views(entries@);
    if entries.len() == 0 {
        assert(out@ =~= old(out)@ + Seq::<char>::empty());
        return ;
    }
    out.append(head);
    out.append("| --- | --- | --- |\n");
    let ghost start = out@;
    let mut i: usize = 0;
    assert(views.take(0) =~= Seq::<EntryView>::empty());
    assert(out@ =~= start + symbol_rows(views.take(0)));
    while i < entries.len()
        invariant
            i <= entries.len(),
            views == crate::report::entry_views(entries@),
            out@ == start + symbol_rows(views.take(i as int)),
        decreases entries.len() - i,
    {
        let entry = &entries[i];
        let row = render_symbol_row(entry);
        out.append(row.as_str());
        proof {
            assert(views.take(i as int + 1).drop_last() =~= views.take(i as int));
            assert(views.take(i as int + 1).last() == entry@);
            assert(out@ =~= start + symbol_rows(views.take(i as int + 1)));
        }
        i += 1;
    }
    proof {
        assert(views.take(entries.len() as int) =~= views);
        assert(out@ =~= old(out)@ + (head@ + "| --- | --- | --- |\n"@ + symbol_rows(views)));
    }
}

/// Appends the part of the reference that describes one module.
fn push_module_section(out: &mut String, name: &str, report: &ModuleReport)
    ensures
        final(out)@ == old(out)@ + module_section(name@, report@),
{
    out.append("\n### Module `");
    out.append(name);
    out.append("`\n");
    let ghost head = "\n### Module `"@ + name@ + "`\n"@;
    assert(out@ =~= old(out)@ + head);
    if report.functions.len() == 0 && report.classes.len() == 0 {
        out.append("_No functions or classes detected in this module._\n");
        assert(out@ =~= old(out)@ + (head
            + "_No functions or classes detected in this module._\n"@));
        return ;
    }
    push_symbol_table(out, "| Function | Signature | Location |\n", &report.functions);
    let ghost functions = symbol_table(
        "| Function | Signature | Location |\n"@,
        report@.functions,
    );
    if report.functions.len() > 0 && report.classes.len() > 0 {
        out.append("\n");
    }
    let ghost gap = if report.functions.len() > 0 && report.classes.len() > 0 {
        "\n"@
    } else {
        Seq::empty()
    };
    assert(out@ =~= old(out)@ + head + functions + gap);
    push_symbol_table(out, "| Class | Signature | Location |\n", &report.classes);
    let ghost classes = symbol_table("| Class | Signature | Location |\n"@, report@.classes);
    assert(out@ =~= old(out)@ + (head + functions + gap + classes));
}

/// Writes the reference of a table.
pub fn render_api_tables(table: &ModuleTable) -> (s: String)
    ensures
        s@ == api_tables_of(table@),
{
    if table.entries.len() == 0 {
        return "## API Reference\n_No modules discovered._\n".to_owned();
    }
    let mut out = "## API Reference\n".to_owned();
    let ghost start = out@;
    let mut i: usize = 0;
    assert(table@.take(0) =~= Seq::<(Seq<char>, ReportView)>::empty());
    assert(out@ =~= start + module_sections(table@.take(0)));
    while i < table.entries.len()
        invariant
            i <= table.entries.len(),
            out@ == start + module_sections(table@.take(i as int)),
        decreases table.entries.len() - i,
    {
        let entry = &table.entries[i];
        let ghost before = out@;
        push_module_section(&mut out, entry.name.as_str(), &entry.report);
        proof {
            assert(table@.take(i as int + 1).drop_last() =~= table@.take(i as int));
            assert(table@.take(i as int + 1).last() == (entry.name@, entry.report@));
            assert(out@ =~= start + module_sections(table@.take(i as int + 1)));
        }
        i += 1;
    }
    assert(table@.take(table.entries.len() as int) =~= table@);
    out
}

/// What a report says of its coverage: of its functions and classes, how
/// many a docstring can stand for, and how many there are. A report
/// without functions and classes says nothing.
pub open spec fn coverage_share(r: ReportView) -> Option<(nat, nat)> {
    let symbols = r.functions.len() + r.classes.len();
    if symbols == 0 {
        None
    } else if r.docstrings < symbols {
        Some((r.docstrings, symbols))
    } else {
        Some((symbols, symbols))
    }
}

/// Counts, for a report with functions or classes, the docstrings that
/// stand for one of them, and the functions and classes.
pub fn coverage_counts(report: &ModuleReport) -> (r: Option<(usize, usize)>)
    requires
        report.functions.len() + report.classes.len() <= usize::MAX,
    ensures
        match r {
            Some((covered, symbols)) => coverage_share(report@) == Some(
                (covered as nat, symbols as nat),
            ),
            None => coverage_share(report@) is None,
        },
{
    let symbols = report.functions.len() + report.classes.len();
    if symbols == 0 {
        None
    } else if report.docstrings < symbols {
        Some((report.docstrings, symbols))
    } else {
        Some((symbols, symbols))
    }
}

/// The texts that a sequence of strings holds.
pub open spec fn string_views(v: Seq<String>) -> Seq<Seq<char>> {
    v.map_values(|s: String| s@)
}

/// The coverage cell of the `k`-th module: the `k`-th of the cells given,
/// or `N/A` where fewer were given.
pub open spec fn cell_at(cells: Seq<Seq<char>>, k: int) -> Seq<char> {
    if 0 <= k < cells.len() {
        cells[k]
    } else {
        "N/A"@
    }
}

/// The coverage row of one module.
pub open spec fn coverage_row(name: Seq<char>, r: ReportView, cell: Seq<char>) -> Seq<char> {
    "| `"@ + name + "` | "@ + decimal(r.functions.len()) + " | "@ + decimal(r.classes.len())
        + " | "@ + decimal(r.docstrings) + " | "@ + cell + " |\n"@
}

/// The coverage rows of the modules of a table, in their order.
pub open spec fn coverage_rows(
    table: Seq<(Seq<char>, ReportView)>,
    cells: Seq<Seq<char>>,
) -> Seq<char>
    decreases table.len(),
{
    if table.len() == 0 {
        Seq::empty()
    } else {
        coverage_rows(table.drop_last(), cells) + coverage_row(
            table.last().0,
            table.last().1,
            cell_at(cells, table.len() - 1),
        )
    }
}

/// The coverage table: one row for each module, with the numbers of its
/// functions, classes and docstrings and with its coverage cell.
pub open spec fn coverage_table_of(
    table: Seq<(Seq<char>, ReportView)>,
    cells: Seq<Seq<char>>,
) -> Seq<char> {
    if table.len() == 0 {
        "## Docstring Coverage\n_No modules discovered._\n"@
    } else {
        "## Docstring Coverage\n\n| Module | Functions | Classes | Docstrings | Coverage |\n| --- | ---:| ---:| ---:| ---:|\n"@
            + coverage_rows(table, cells)
    }
}

/// Writes the coverage row of one module.
fn render_coverage_row(name: &str, report: &ModuleReport, cell: &str) -> (row: String)
    ensures
        row@ == coverage_row(name@, report@, cell@),
{
    let mut row = "| `".to_owned();
    row.append(name);
    row.append("` | ");
    row.append(decimal_text(report.functions.len()).as_str());
    row.append(" | ");
    row.append(decimal_text(report.classes.len()).as_str());
    row.append(" | ");
    row.append(decimal_text(report.docstrings).as_str());
    row.append(" | ");
    row.append(cell);
    row.append(" |\n");
    row
}

/// Writes the coverage table. `cells` holds the coverage cell of each
/// module, in the table's order: a share of `coverage_counts` as a
/// percentage, or `N/A`.
pub fn render_docstring_coverage(table: &ModuleTable, cells: &Vec<String>) -> (s: String)
    ensures
        s@ == coverage_table_of(table@, string_views(cells@)),
{
    if table.entries.len() == 0 {
        return "## Docstring Coverage\n_No modules discovered._\n".to_owned();
    }
    let mut out =
        "## Docstring Coverage\n\n| Module | Functions | Classes | Docstrings | Coverage |\n| --- | ---:| ---:| ---:| ---:|\n".to_owned();
    let ghost start = out@;
    let ghost given = string_views(cells@);
    let mut i: usize = 0;
    assert(table@.take(0) =~= Seq::<(Seq<char>, ReportView)>::empty());
    assert(out@ =~= start + coverage_rows(table@.take(0), given));
    while i < table.entries.len()
        invariant
            i <= table.entries.len(),
            given == string_views(cells@),
            out@ == start + coverage_rows(table@.take(i as int), given),
        decreases table.entries.len() - i,
    {
        let entry = &table.entries[i];
        let ghost before = out@;
        let cell = if i < cells.len() {
            cells[i].as_str()
        } else {
            "N/A"
        };
        let row = render_coverage_row(entry.name.as_str(), &entry.report, cell);
        out.append(row.as_str());
        proof {
            assert(table@.take(i as int + 1).drop_last() =~= table@.take(i as int));
            assert(table@.take(i as int + 1).last() == (entry.name@, entry.report@));
            assert(cell@ == cell_at(given, i as int));
            assert(out@ =~= start + coverage_rows(table@.take(i as int + 1), given));
        }
        i += 1;
    }
    assert(table@.take(table.entries.len() as int) =~= table@);
    out
}

/// Groups the items by module and writes the three sections. `coverage`
/// holds the coverage cell of each module, in the order of the module
/// keys.
pub fn generate_sections(items: &[ParsedItem], coverage: &Vec<String>) -> (sections:
    GeneratedSections)
    ensures
        sections.overview@ == overview_of(aggregated(item_views(items@))),
        sections.api_table@ == api_tables_of(aggregated(item_views(items@))),
        sections.docstring_coverage@ == coverage_table_of(
            aggregated(item_views(items@)),
            string_views(coverage@),
        ),
{
    let modules = aggregate_modules(items);
    let count = items.len();
    proof {
        lemma_aggregated_partition(item_views(items@));
        assert(item_views(items@).len() == count);
    }
    let overview = render_overview(&modules);
    let api_table = render_api_tables(&modules);
    let docstring_coverage = render_docstring_coverage(&modules, coverage);
    GeneratedSections { overview, api_table, docstring_coverage }
}

/// The document that the summary and the sections make up.
pub open spec fn document_of(
    summary: Seq<char>,
    overview: Seq<char>,
    api_table: Seq<char>,
    docstring_coverage: Seq<char>,
) -> Seq<char> {
    "# Generated README Draft\n\n"@ + summary + "\n\n"@ + overview + "\n"@ + api_table + "\n"@
        + docstring_coverage
}

/// Puts the summary and the sections together into one document: a
/// title, the summary, the overview, the reference and the coverage
/// table.
pub fn compose_document(summary: &str, sections: &GeneratedSections) -> (document: String)
    ensures
        document@ == document_of(
            summary@,
            sections.overview@,
            sections.api_table@,
            sections.docstring_coverage@,
        ),
{
    let mut document = "# Generated README Draft\n\n".to_owned();
    document.append(summary);
    document.append("\n\n");
    document.append(sections.overview.as_str());
    document.append("\n");
    document.append(sections.api_table.as_str());
    document.append("\n");
    document.append(sections.docstring_coverage.as_str());
    document
}

} // verus!
