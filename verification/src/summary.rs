//! What is handed to the summary service: a capped snapshot of the
//! modules, with a note on everything that the caps left out.

use crate::generator::{
    decimal, decimal_text, entry_location, lemma_total_bounds, location_of, sum_tally, total,
    Tally,
};
use crate::parser::{item_views, opt_view, ItemView, ParsedItem};
use crate::report::{
    aggregate_modules, aggregated, entry_views, lemma_aggregated_partition, table_size,
    EntryView, ModuleReport, ModuleTable, ReportView, SymbolEntry,
};
use vstd::prelude::*;
use vstd::string::StringExecFns;

verus! {

/// The number of modules that a snapshot holds at most.
pub const MAX_LLM_MODULES: usize = 15;

/// The number of functions, and of classes, that a snapshot holds at most
/// for one module.
pub const MAX_LLM_SYMBOLS_PER_KIND: usize = 15;

/// A function or a class in a snapshot.
#[derive(Debug, Clone)]
pub struct SymbolSnapshot {
    pub name: String,
    pub signature: String,
    pub location: String,
}

/// A module in a snapshot.
#[derive(Debug, Clone)]
pub struct ModuleSnapshot {
    pub module: String,
    pub functions: Vec<SymbolSnapshot>,
    pub classes: Vec<SymbolSnapshot>,
    pub docstrings: usize,
    pub imports: usize,
}

/// The numbers of a module that bear on its coverage.
#[derive(Debug, Clone)]
pub struct CoverageSnapshot {
    pub module: String,
    pub functions: usize,
    pub classes: usize,
    pub docstrings: usize,
}

/// The numbers of all modules together.
#[derive(Debug, Clone, Copy, PartialEq, Eq)]
pub struct SummaryTotals {
    pub module_count: usize,
    pub functions: usize,
    pub classes: usize,
    pub docstrings: usize,
    pub imports: usize,
}

/// What the summary service is given to read.
#[derive(Debug, Clone)]
pub struct LlmPayload {
    pub summary: SummaryTotals,
    pub modules: Vec<ModuleSnapshot>,
    pub docstring_coverage: Vec<CoverageSnapshot>,
    pub notes: Option<String>,
}

/// What a symbol's snapshot holds, as mathematical values.
pub struct SymbolSnapshotView {
    pub name: Seq<char>,
    pub signature: Seq<char>,
    pub location: Seq<char>,
}

/// What a module's snapshot holds, as mathematical values.
pub struct ModuleSnapshotView {
    pub module: Seq<char>,
    pub functions: Seq<SymbolSnapshotView>,
    pub classes: Seq<SymbolSnapshotView>,
    pub docstrings: nat,
    pub imports: nat,
}

impl View for SymbolSnapshot {
    type V = SymbolSnapshotView;

    open spec fn view(&self) -> SymbolSnapshotView {
        SymbolSnapshotView {
            name: self.name@,
            signature: self.signature@,
            location: self.location@,
        }
    }
}

/// The views of a sequence of symbol snapshots.
pub open spec fn symbol_views(rows: Seq<SymbolSnapshot>) -> Seq<SymbolSnapshotView> {
    rows.map_values(|row: SymbolSnapshot| row@)
}

impl View for ModuleSnapshot {
    type V = ModuleSnapshotView;

    open spec fn view(&self) -> ModuleSnapshotView {
        ModuleSnapshotView {
            module: self.module@,
            functions: symbol_views(self.functions@),
            classes: symbol_views(self.classes@),
            docstrings: self.docstrings as nat,
            imports: self.imports as nat,
        }
    }
}

/// The snapshot of an entry: its name, its signature and where it was
/// declared.
pub open spec fn snapshot_of(e: EntryView) -> SymbolSnapshotView {
    SymbolSnapshotView { name: e.name, signature: e.signature, location: location_of(e) }
}

/// The smaller of a length and a cap.
pub open spec fn capped(len: int, cap: int) -> int {
    if len > cap {
        cap
    } else {
        len
    }
}

/// The snapshots of the first entries, up to the cap.
pub open spec fn listed(es: Seq<EntryView>) -> Seq<SymbolSnapshotView> {
    es.take(capped(es.len() as int, MAX_LLM_SYMBOLS_PER_KIND as int)).map_values(
        |e: EntryView| snapshot_of(e),
    )
}

/// The snapshot of a module.
pub open spec fn module_snapshot_of(name: Seq<char>, r: ReportView) -> ModuleSnapshotView {
    ModuleSnapshotView {
        module: name,
        functions: listed(r.functions),
        classes: listed(r.classes),
        docstrings: r.docstrings,
        imports: r.imports,
    }
}

/// The note that not all functions of a module were listed.
pub open spec fn functions_note(module: Seq<char>, count: nat) -> Seq<char> {
    "Module "@ + module + ": only the first 15 function(s) were provided out of "@ + decimal(
        count,
    ) + "."@
}

/// The note that not all classes of a module were listed.
pub open spec fn classes_note(module: Seq<char>, count: nat) -> Seq<char> {
    "Module "@ + module + ": only the first 15 class(es) were provided out of "@ + decimal(count)
        + "."@
}

/// The note that not all modules were listed.
pub open spec fn modules_note(count: nat) -> Seq<char> {
    "Only the first 15 module(s) were shared with Gemini out of "@ + decimal(count) + "."@
}

/// `notes` with `note` added: after a space where notes stand already.
pub open spec fn noted(notes: Seq<char>, note: Seq<char>) -> Seq<char> {
    if notes.len() == 0 {
        note
    } else {
        notes + " "@ + note
    }
}

/// `notes` with the notes of one module added: one for its functions and
/// one for its classes, where there are more than the cap.
pub open spec fn with_module_notes(notes: Seq<char>, name: Seq<char>, r: ReportView) -> Seq<char> {
    let after = if r.functions.len() > MAX_LLM_SYMBOLS_PER_KIND {
        noted(notes, functions_note(name, r.functions.len()))
    } else {
        notes
    };
    if r.classes.len() > MAX_LLM_SYMBOLS_PER_KIND {
        noted(after, classes_note(name, r.classes.len()))
    } else {
        after
    }
}

/// The notes of the first `n` modules, joined by spaces.
pub open spec fn notes_upto(table: Seq<(Seq<char>, ReportView)>, n: int) -> Seq<char>
    decreases n,
{
    if n <= 0 || n > table.len() {
        Seq::empty()
    } else {
        with_module_notes(notes_upto(table, n - 1), table[n - 1].0, table[n - 1].1)
    }
}

/// All notes on a table, joined by spaces: those of the modules that are
/// listed, then the note on the modules that are not.
pub open spec fn notes_of(table: Seq<(Seq<char>, ReportView)>) -> Seq<char> {
    let listed_modules = capped(table.len() as int, MAX_LLM_MODULES as int);
    let notes = notes_upto(table, listed_modules);
    if table.len() > MAX_LLM_MODULES {
        noted(notes, modules_note(table.len()))
    } else {
        notes
    }
}

/// The snapshot of an entry.
pub fn symbol_snapshot(entry: &SymbolEntry) -> (row: SymbolSnapshot)
    ensures
        row@ == snapshot_of(entry@),
{
    SymbolSnapshot {
        name: entry.name.clone(),
        signature: entry.signature.clone(),
        location: entry_location(entry),
    }
}

/// The snapshots of the first entries, up to the cap, and whether entries
/// were left out.
pub fn symbol_list_for_llm(entries: &Vec<SymbolEntry>) -> (r: (Vec<SymbolSnapshot>, bool))
    ensures
        symbol_views(r.0@) == listed(entry_views(entries@)),
        r.1 == (entries.len() > MAX_LLM_SYMBOLS_PER_KIND),
{
    let ghost views = entry_views(entries@);
    let mut rows: Vec<SymbolSnapshot> = Vec::new();
    let stop: usize = if entries.len() > MAX_LLM_SYMBOLS_PER_KIND {
        MAX_LLM_SYMBOLS_PER_KIND
    } else {
        entries.len()
    };
    let mut i: usize = 0;
    while i < stop
        invariant
            i <= stop <= entries.len(),
            views == entry_views(entries@),
            symbol_views(rows@) == views.take(i as int).map_values(|e: EntryView| snapshot_of(e)),
        decreases stop - i,
    {
        let row = symbol_snapshot(&entries[i]);
        let ghost before = rows@;
        rows.push(row);
        proof {
            let f = |e: EntryView| snapshot_of(e);
            assert(symbol_views(before.push(row)) =~= symbol_views(before).push(row@));
            assert(views.take(i as int + 1).map_values(f) =~= views.take(i as int).map_values(
                f,
            ).push(snapshot_of(views[i as int])));
        }
        i += 1;
    }
    (rows, entries.len() > MAX_LLM_SYMBOLS_PER_KIND)
}

/// Adds a note to the notes, after a space where notes stand already.
fn push_note(notes: &mut String, note: &str)
    ensures
        final(notes)@ == noted(old(notes)@, note@),
{
    if notes.as_str().is_empty() {
        notes.append(note);
        assert(notes@ =~= note@);
    } else {
        notes.append(" ");
        notes.append(note);
    }
}

/// The snapshots of the first modules, up to the cap.
pub open spec fn listed_modules(table: Seq<(Seq<char>, ReportView)>) -> Seq<ModuleSnapshotView> {
    table.take(capped(table.len() as int, MAX_LLM_MODULES as int)).map_values(
        |m: (Seq<char>, ReportView)| module_snapshot_of(m.0, m.1),
    )
}

/// The views of a sequence of module snapshots.
pub open spec fn module_views(rows: Seq<ModuleSnapshot>) -> Seq<ModuleSnapshotView> {
    rows.map_values(|row: ModuleSnapshot| row@)
}

/// The snapshots of the first modules of a table, up to the cap, each with
/// its first functions and classes, up to their cap; and all notes on what
/// the caps left out, or none where they left out nothing.
pub fn modules_for_llm(table: &ModuleTable) -> (r: (Vec<ModuleSnapshot>, Option<String>))
    ensures
        module_views(r.0@) == listed_modules(table@),
        match r.1 {
            Some(note) => note@ == notes_of(table@) && note@.len() > 0,
            None => notes_of(table@).len() == 0,
        },
{
    let mut rows: Vec<ModuleSnapshot> = Vec::new();
    let mut notes = String::new();
    let stop: usize = if table.entries.len() > MAX_LLM_MODULES {
        MAX_LLM_MODULES
    } else {
        table.entries.len()
    };
    let mut i: usize = 0;
    while i < stop
        invariant
            i <= stop <= table.entries.len(),
            notes@ == notes_upto(table@, i as int),
            module_views(rows@) == table@.take(i as int).map_values(
                |m: (Seq<char>, ReportView)| module_snapshot_of(m.0, m.1),
            ),
        decreases stop - i,
    {
        let entry = &table.entries[i];
        let (functions, functions_cut) = symbol_list_for_llm(&entry.report.functions);
        if functions_cut {
            let mut note = "Module ".to_owned();
            note.append(entry.name.as_str());
            note.append(": only the first 15 function(s) were provided out of ");
            note.append(decimal_text(entry.report.functions.len()).as_str());
            note.append(".");
            push_note(&mut notes, note.as_str());
        }
        let (classes, classes_cut) = symbol_list_for_llm(&entry.report.classes);
        if classes_cut {
            let mut note = "Module ".to_owned();
            note.append(entry.name.as_str());
            note.append(": only the first 15 class(es) were provided out of ");
            note.append(decimal_text(entry.report.classes.len()).as_str());
            note.append(".");
            push_note(&mut notes, note.as_str());
        }
        let row = ModuleSnapshot {
            module: entry.name.clone(),
            functions,
            classes,
            docstrings: entry.report.docstrings,
            imports: entry.report.imports,
        };
        let ghost before = rows@;
        rows.push(row);
        proof {
            let f = |m: (Seq<char>, ReportView)| module_snapshot_of(m.0, m.1);
            assert(table@[i as int] == (entry.name@, entry.report@));
            assert(module_views(before.push(row)) =~= module_views(before).push(row@));
            assert(table@.take(i as int + 1).map_values(f) =~= table@.take(i as int).map_values(
                f,
            ).push(f(table@[i as int])));
        }
        i += 1;
    }
    if table.entries.len() > MAX_LLM_MODULES {
        let mut note = "Only the first 15 module(s) were shared with Gemini out of ".to_owned();
        note.append(decimal_text(table.entries.len()).as_str());
        note.append(".");
        push_note(&mut notes, note.as_str());
    }
    let note = if notes.as_str().is_empty() {
        None
    } else {
        Some(notes)
    };
    (rows, note)
}

/// The coverage numbers of a module.
pub open spec fn coverage_snapshot_of(m: (Seq<char>, ReportView)) -> (Seq<char>, nat, nat, nat) {
    (m.0, m.1.functions.len(), m.1.classes.len(), m.1.docstrings)
}

/// What a coverage snapshot holds.
pub open spec fn coverage_view(row: CoverageSnapshot) -> (Seq<char>, nat, nat, nat) {
    (row.module@, row.functions as nat, row.classes as nat, row.docstrings as nat)
}

/// The coverage numbers of the first `count` modules of a table, or of
/// all where it holds fewer.
pub fn docstring_rows_for_llm(table: &ModuleTable, count: usize) -> (rows: Vec<CoverageSnapshot>)
    ensures
        rows@.map_values(|row: CoverageSnapshot| coverage_view(row)) == table@.take(
            capped(table@.len() as int, count as int),
        ).map_values(|m: (Seq<char>, ReportView)| coverage_snapshot_of(m)),
{
    let mut rows: Vec<CoverageSnapshot> = Vec::new();
    let stop: usize = if table.entries.len() > count {
        count
    } else {
        table.entries.len()
    };
    let mut i: usize = 0;
    while i < stop
        invariant
            i <= stop <= table.entries.len(),
            rows@.map_values(|row: CoverageSnapshot| coverage_view(row)) == table@.take(
                i as int,
            ).map_values(|m: (Seq<char>, ReportView)| coverage_snapshot_of(m)),
        decreases stop - i,
    {
        let entry = &table.entries[i];
        let row = CoverageSnapshot {
            module: entry.name.clone(),
            functions: entry.report.functions.len(),
            classes: entry.report.classes.len(),
            docstrings: entry.report.docstrings,
        };
        let ghost before = rows@;
        rows.push(row);
        proof {
            let f = |m: (Seq<char>, ReportView)| coverage_snapshot_of(m);
            let g = |row: CoverageSnapshot| coverage_view(row);
            assert(table@[i as int] == (entry.name@, entry.report@));
            assert(before.push(row).map_values(g) =~= before.map_values(g).push(
                coverage_view(row),
            ));
            assert(table@.take(i as int + 1).map_values(f) =~= table@.take(i as int).map_values(
                f,
            ).push(f(table@[i as int])));
        }
        i += 1;
    }
    rows
}

/// What the summary service is told to do with the data.
pub fn summary_instructions() -> (s: &'static str)
    ensures
        s@
            == "You are helping to draft a README introduction. Use the JSON data to describe the project in <=80 words, referencing the most important modules, classes vs. functions, and docstring coverage. If documentation looks sparse, mention it."@,
{
    "You are helping to draft a README introduction. Use the JSON data to describe the project in <=80 words, referencing the most important modules, classes vs. functions, and docstring coverage. If documentation looks sparse, mention it."
}

/// Groups the items by module and takes the snapshot that the summary
/// service is given: the totals over all modules, the first modules and
/// their coverage numbers, and the notes on what was left out. The notes
/// come a second time, as the warning for the user.
pub fn build_llm_request(items: &[ParsedItem]) -> (r: (LlmPayload, Option<String>))
    ensures
        ({
            let table = aggregated(item_views(items@));
            let payload = r.0;
            &&& payload.summary.module_count == table.len()
            &&& payload.summary.functions == total(table, Tally::Functions)
            &&& payload.summary.classes == total(table, Tally::Classes)
            &&& payload.summary.docstrings == total(table, Tally::Docstrings)
            &&& payload.summary.imports == total(table, Tally::Imports)
            &&& module_views(payload.modules@) == listed_modules(table)
            &&& payload.docstring_coverage@.map_values(|row: CoverageSnapshot| coverage_view(row))
                == table.take(capped(table.len() as int, MAX_LLM_MODULES as int)).map_values(
                |m: (Seq<char>, ReportView)| coverage_snapshot_of(m),
            )
            &&& opt_view(payload.notes) == opt_view(r.1)
            &&& match r.1 {
                Some(note) => note@ == notes_of(table) && note@.len() > 0,
                None => notes_of(table).len() == 0,
            }
        }),
{
    let table = aggregate_modules(items);
    let count = items.len();
    proof {
        lemma_aggregated_partition(item_views(items@));
        assert(item_views(items@).len() == count);
        lemma_total_bounds(table@, Tally::Functions, 0);
        lemma_total_bounds(table@, Tally::Classes, 0);
        lemma_total_bounds(table@, Tally::Docstrings, 0);
        lemma_total_bounds(table@, Tally::Imports, 0);
    }
    let (modules, warning) = modules_for_llm(&table);
    let docstring_coverage = docstring_rows_for_llm(&table, MAX_LLM_MODULES);
    let summary = SummaryTotals {
        module_count: table.len(),
        functions: sum_tally(&table, Tally::Functions),
        classes: sum_tally(&table, Tally::Classes),
        docstrings: sum_tally(&table, Tally::Docstrings),
        imports: sum_tally(&table, Tally::Imports),
    };
    let notes = match &warning {
        Some(note) => Some(note.clone()),
        None => None,
    };
    (LlmPayload { summary, modules, docstring_coverage, notes }, warning)
}

} // verus!
