//! Items grouped by module: for each module its functions and classes,
//! sorted by name without regard to case, and the numbers of its
//! docstrings and imports.

use crate::order::{
    ascending, before, find_lower_bound, find_upper_bound, lower_bound, nondecreasing,
    same_chars, texts, upper_bound,
};
use crate::parser::{item_views, opt_view, GrammarRule, ItemView, ParsedItem};
use crate::text::{chars_of, copy_range, string_of};
use vstd::prelude::*;

verus! {

/// A function or a class of a module, as reports show it.
#[derive(Debug, Clone)]
pub struct SymbolEntry {
    /// The declared name, or `<anonymous>`.
    pub name: String,
    /// The declaration line, or the matched text where there is none.
    pub signature: String,
    /// The 1-based line of the declaration.
    pub line: usize,
    /// The path of the file that holds it, where the caller gave one.
    pub source: Option<String>,
}

/// What was found in one module.
#[derive(Debug, Clone)]
pub struct ModuleReport {
    /// The functions, sorted by name without regard to case.
    pub functions: Vec<SymbolEntry>,
    /// The classes, sorted by name without regard to case.
    pub classes: Vec<SymbolEntry>,
    /// The number of docstrings.
    pub docstrings: usize,
    /// The number of imports.
    pub imports: usize,
}

/// One module of a table: its key and its report.
#[derive(Debug, Clone)]
pub struct ModuleEntry {
    pub name: String,
    pub report: ModuleReport,
}

/// The reports of all modules, in the order of their keys.
#[derive(Debug, Clone)]
pub struct ModuleTable {
    pub entries: Vec<ModuleEntry>,
}

/// What a symbol entry holds, as mathematical values.
pub struct EntryView {
    pub name: Seq<char>,
    pub signature: Seq<char>,
    pub line: int,
    pub source: Option<Seq<char>>,
}

/// What a module report holds, as mathematical values.
pub struct ReportView {
    pub functions: Seq<EntryView>,
    pub classes: Seq<EntryView>,
    pub docstrings: nat,
    pub imports: nat,
}

impl View for SymbolEntry {
    type V = EntryView;

    open spec fn view(&self) -> EntryView {
        EntryView {
            name: self.name@,
            signature: self.signature@,
            line: self.line as int,
            source: opt_view(self.source),
        }
    }
}

/// The views of a sequence of entries.
pub open spec fn entry_views(entries: Seq<SymbolEntry>) -> Seq<EntryView> {
    entries.map_values(|e: SymbolEntry| e@)
}

impl View for ModuleReport {
    type V = ReportView;

    open spec fn view(&self) -> ReportView {
        ReportView {
            functions: entry_views(self.functions@),
            classes: entry_views(self.classes@),
            docstrings: self.docstrings as nat,
            imports: self.imports as nat,
        }
    }
}

impl View for ModuleTable {
    type V = Seq<(Seq<char>, ReportView)>;

    open spec fn view(&self) -> Seq<(Seq<char>, ReportView)> {
        self.entries@.map_values(|e: ModuleEntry| (e.name@, e.report@))
    }
}

/// The result of `str::to_lowercase` on a text: its lower-case form by the
/// rules of Unicode.
pub uninterp spec fn lowercase(s: Seq<char>) -> Seq<char>;

/// `str::to_lowercase`: the lower-case form of `s`.
#[verifier::external_body]
fn to_lower(s: &str) -> (r: String)
    ensures
        r@ == lowercase(s@),
{
    s.to_lowercase()
}

/// The key that groups an item: its module, else its source, else
/// `<unknown>`.
pub open spec fn key_of(item: ItemView) -> Seq<char> {
    match item.module {
        Some(m) => m,
        None => match item.source {
            Some(s) => s,
            None => "<unknown>"@,
        },
    }
}

/// The entry that stands for a function or a class.
pub open spec fn entry_of(item: ItemView) -> EntryView {
    EntryView {
        name: match item.name {
            Some(n) => n,
            None => "<anonymous>"@,
        },
        signature: match item.signature {
            Some(s) => s,
            None => item.content,
        },
        line: item.line,
        source: item.source,
    }
}

/// Whether an item belongs to the module `key` and came from `rule`.
pub open spec fn belongs(item: ItemView, key: Seq<char>, rule: GrammarRule) -> bool {
    key_of(item) == key && item.rule == rule
}

/// The entries of the items of module `key` that came from `rule`, in the
/// order in which the items stand.
pub open spec fn encounter(items: Seq<ItemView>, key: Seq<char>, rule: GrammarRule) -> Seq<
    EntryView,
>
    decreases items.len(),
{
    if items.len() == 0 {
        Seq::empty()
    } else {
        let rest = encounter(items.drop_last(), key, rule);
        if belongs(items.last(), key, rule) {
            rest.push(entry_of(items.last()))
        } else {
            rest
        }
    }
}

/// The number of items of module `key` that came from `rule`.
pub open spec fn count_of(items: Seq<ItemView>, key: Seq<char>, rule: GrammarRule) -> nat
    decreases items.len(),
{
    if items.len() == 0 {
        0
    } else {
        let rest = count_of(items.drop_last(), key, rule);
        if belongs(items.last(), key, rule) {
            rest + 1
        } else {
            rest
        }
    }
}

/// The text that entries are sorted by: the name in lower case.
pub open spec fn sort_key(e: EntryView) -> Seq<char> {
    lowercase(e.name)
}

/// The sort keys of a sequence of entries.
pub open spec fn sort_keys(es: Seq<EntryView>) -> Seq<Seq<char>> {
    es.map_values(|e: EntryView| sort_key(e))
}

/// `es` with `e` put after every entry whose key does not come after its
/// own.
pub open spec fn placed(es: Seq<EntryView>, e: EntryView) -> Seq<EntryView> {
    es.insert(upper_bound(sort_keys(es), sort_key(e), 0), e)
}

/// The entries sorted by their keys, entries with equal keys in the order
/// in which they stood.
pub open spec fn stable_sorted(es: Seq<EntryView>) -> Seq<EntryView>
    decreases es.len(),
{
    if es.len() == 0 {
        Seq::empty()
    } else {
        placed(stable_sorted(es.drop_last()), es.last())
    }
}

/// Sorting one entry more puts it into the sorted rest.
pub proof fn lemma_sorted_push(es: Seq<EntryView>, e: EntryView)
    ensures
        stable_sorted(es.push(e)) == placed(stable_sorted(es), e),
{
    assert(es.push(e).drop_last() =~= es);
}

/// The report of module `key` over `items`.
pub open spec fn report_of(items: Seq<ItemView>, key: Seq<char>) -> ReportView {
    ReportView {
        functions: stable_sorted(encounter(items, key, GrammarRule::FunctionDef)),
        classes: stable_sorted(encounter(items, key, GrammarRule::ClassDef)),
        docstrings: count_of(items, key, GrammarRule::Docstring),
        imports: count_of(items, key, GrammarRule::Import),
    }
}

/// `keys` with `key` put in its place, unless it is there already.
pub open spec fn with_key(keys: Seq<Seq<char>>, key: Seq<char>) -> Seq<Seq<char>> {
    let p = lower_bound(keys, key, 0);
    if p < keys.len() && keys[p] == key {
        keys
    } else {
        keys.insert(p, key)
    }
}

/// The distinct texts of `ks` in ascending order.
pub open spec fn distinct_sorted(ks: Seq<Seq<char>>) -> Seq<Seq<char>>
    decreases ks.len(),
{
    if ks.len() == 0 {
        Seq::empty()
    } else {
        with_key(distinct_sorted(ks.drop_last()), ks.last())
    }
}

/// The keys of the items, one for each item.
pub open spec fn item_keys(items: Seq<ItemView>) -> Seq<Seq<char>> {
    items.map_values(|item: ItemView| key_of(item))
}

/// The keys of the modules that the items belong to, ascending.
pub open spec fn module_keys(items: Seq<ItemView>) -> Seq<Seq<char>> {
    distinct_sorted(item_keys(items))
}

/// The table of the items: for each module key, in ascending order, the
/// key and the module's report.
pub open spec fn aggregated(items: Seq<ItemView>) -> Seq<(Seq<char>, ReportView)> {
    module_keys(items).map_values(|key: Seq<char>| (key, report_of(items, key)))
}

/// A copy of an optional string.
fn clone_opt(s: &Option<String>) -> (r: Option<String>)
    ensures
        opt_view(r) == opt_view(*s),
{
    match s {
        Some(t) => Some(t.clone()),
        None => None,
    }
}

impl SymbolEntry {
    /// The entry that stands for a function or a class: its name, or
    /// `<anonymous>`; its signature, or the matched text; its line and its
    /// source.
    pub fn from_item(item: &ParsedItem) -> (entry: SymbolEntry)
        ensures
            entry@ == entry_of(item@),
    {
        let name = match &item.name {
            Some(n) => n.clone(),
            None => "<anonymous>".to_owned(),
        };
        let signature = match &item.signature {
            Some(s) => s.clone(),
            None => item.content.clone(),
        };
        SymbolEntry { name, signature, line: item.line, source: clone_opt(&item.source) }
    }
}

/// The module keys of a table, in its order.
pub open spec fn keys_of(table: Seq<(Seq<char>, ReportView)>) -> Seq<Seq<char>> {
    table.map_values(|m: (Seq<char>, ReportView)| m.0)
}

impl ModuleTable {
    /// Whether the table is what a map ordered by key would hold: its
    /// module keys ascend, so that none stands twice.
    pub open spec fn well_formed(&self) -> bool {
        ascending(keys_of(self@))
    }

    /// The number of modules.
    pub fn len(&self) -> (n: usize)
        ensures
            n == self@.len(),
    {
        self.entries.len()
    }

    /// Whether the table holds no module.
    pub fn is_empty(&self) -> (r: bool)
        ensures
            r == (self@.len() == 0),
    {
        self.entries.len() == 0
    }

    /// The report of the module `key`, if the table holds that module: that
    /// of the first entry with this key.
    pub fn get(&self, key: &str) -> (r: Option<&ModuleReport>)
        ensures
            match r {
                Some(report) => exists|j: int|
                    0 <= j < self.entries@.len() && (#[trigger] self.entries@[j]).name@ == key@
                        && *report == self.entries@[j].report && forall|i: int|
                        0 <= i < j ==> (#[trigger] self.entries@[i]).name@ != key@,
                None => forall|j: int|
                    0 <= j < self.entries@.len() ==> (#[trigger] self.entries@[j]).name@ != key@,
            },
    {
        let wanted = key.to_owned();
        let mut i: usize = 0;
        while i < self.entries.len()
            invariant
                i <= self.entries.len(),
                wanted@ == key@,
                forall|j: int| 0 <= j < i ==> (#[trigger] self.entries@[j]).name@ != key@,
            decreases self.entries.len() - i,
        {
            if self.entries[i].name == wanted {
                return Some(&self.entries[i].report);
            }
            i += 1;
        }
        None
    }
}

/// The key that groups an item: its module, else its source, else
/// `<unknown>`.
pub fn module_key(item: &ParsedItem) -> (key: String)
    ensures
        key@ == key_of(item@),
{
    match &item.module {
        Some(m) => m.clone(),
        None => match &item.source {
            Some(s) => s.clone(),
            None => "<unknown>".to_owned(),
        },
    }
}

/// The keys of the items, one for each item, as characters.
pub fn keys_of_items(items: &[ParsedItem]) -> (keys: Vec<Vec<char>>)
    ensures
        texts(keys@) == item_keys(item_views(items@)),
{
    let mut keys: Vec<Vec<char>> = Vec::new();
    let mut i: usize = 0;
    while i < items.len()
        invariant
            i <= items.len(),
            texts(keys@) == item_keys(item_views(items@).take(i as int)),
        decreases items.len() - i,
    {
        let key = module_key(&items[i]);
        let chars = chars_of(key.as_str());
        let ghost before = keys@;
        keys.push(chars);
        proof {
            let views = item_views(items@);
            assert(views.take(i as int + 1) =~= views.take(i as int).push(items@[i as int]@));
            assert(texts(before.push(chars)) =~= texts(before).push(chars@));
            assert(item_keys(views.take(i as int + 1)) =~= item_keys(views.take(i as int)).push(
                key_of(items@[i as int]@),
            ));
        }
        i += 1;
    }
    proof {
        let views = item_views(items@);
        assert(views.take(items.len() as int) =~= views);
    }
    keys
}

/// Puts `key` in its place in the ascending `keys`, unless it is there.
pub fn insert_key(keys: &mut Vec<Vec<char>>, key: &Vec<char>)
    ensures
        texts(final(keys)@) == with_key(texts(old(keys)@), key@),
{
    let p = find_lower_bound(keys, key);
    if p < keys.len() && same_chars(&keys[p], key) {
        return ;
    }
    let fresh = copy_range(key, 0, key.len());
    assert(fresh@ =~= key@);
    keys.insert(p, fresh);
    assert(texts(keys@) =~= texts(old(keys)@).insert(p as int, key@));
}

/// The distinct texts of `ks` in ascending order.
pub fn distinct_keys(ks: &Vec<Vec<char>>) -> (keys: Vec<Vec<char>>)
    ensures
        texts(keys@) == distinct_sorted(texts(ks@)),
{
    let mut keys: Vec<Vec<char>> = Vec::new();
    let mut i: usize = 0;
    assert(texts(keys@) =~= Seq::<Seq<char>>::empty());
    while i < ks.len()
        invariant
            i <= ks.len(),
            texts(keys@) == distinct_sorted(texts(ks@).take(i as int)),
        decreases ks.len() - i,
    {
        insert_key(&mut keys, &ks[i]);
        proof {
            let all = texts(ks@);
            assert(all.take(i as int + 1).drop_last() =~= all.take(i as int));
        }
        i += 1;
    }
    proof {
        assert(texts(ks@).take(ks.len() as int) =~= texts(ks@));
    }
    keys
}

/// Puts `entry` into the sorted `entries`, after every entry whose key
/// does not come after its own. `keys` holds the entries' sort keys and is
/// kept in step.
pub fn place_entry(entries: &mut Vec<SymbolEntry>, keys: &mut Vec<Vec<char>>, entry: SymbolEntry)
    requires
        texts(old(keys)@) == sort_keys(entry_views(old(entries)@)),
    ensures
        entry_views(final(entries)@) == placed(entry_views(old(entries)@), entry@),
        texts(final(keys)@) == sort_keys(entry_views(final(entries)@)),
{
    let lowered = to_lower(entry.name.as_str());
    let key = chars_of(lowered.as_str());
    let p = find_upper_bound(keys, &key);
    assert(texts(keys@).len() == entry_views(entries@).len());
    entries.insert(p, entry);
    keys.insert(p, key);
    proof {
        assert(entry_views(entries@) =~= entry_views(old(entries)@).insert(p as int, entry@));
        assert(texts(keys@) =~= texts(old(keys)@).insert(p as int, key@));
        assert(texts(keys@) =~= sort_keys(entry_views(entries@)));
    }
}

/// Builds the report of module `key` from the items; `keys` holds the key
/// of each item.
pub fn build_report(items: &[ParsedItem], keys: &Vec<Vec<char>>, key: &Vec<char>) -> (report:
    ModuleReport)
    requires
        texts(keys@) == item_keys(item_views(items@)),
    ensures
        report@ == report_of(item_views(items@), key@),
{
    let ghost views = item_views(items@);
    let mut functions: Vec<SymbolEntry> = Vec::new();
    let mut function_keys: Vec<Vec<char>> = Vec::new();
    let mut classes: Vec<SymbolEntry> = Vec::new();
    let mut class_keys: Vec<Vec<char>> = Vec::new();
    let mut docstrings: usize = 0;
    let mut imports: usize = 0;
    let mut i: usize = 0;
    proof {
        assert(views.len() == items@.len());
        assert(texts(keys@).len() == keys@.len());
        assert(entry_views(functions@) =~= Seq::<EntryView>::empty());
        assert(entry_views(classes@) =~= Seq::<EntryView>::empty());
        assert(texts(function_keys@) =~= sort_keys(entry_views(functions@)));
        assert(texts(class_keys@) =~= sort_keys(entry_views(classes@)));
    }
    while i < items.len()
        invariant
            i <= items.len(),
            keys@.len() == items@.len(),
            views == item_views(items@),
            texts(keys@) == item_keys(views),
            entry_views(functions@) == stable_sorted(
                encounter(views.take(i as int), key@, GrammarRule::FunctionDef),
            ),
            entry_views(classes@) == stable_sorted(
                encounter(views.take(i as int), key@, GrammarRule::ClassDef),
            ),
            texts(function_keys@) == sort_keys(entry_views(functions@)),
            texts(class_keys@) == sort_keys(entry_views(classes@)),
            docstrings == count_of(views.take(i as int), key@, GrammarRule::Docstring),
            imports == count_of(views.take(i as int), key@, GrammarRule::Import),
            docstrings <= i,
            imports <= i,
        decreases items.len() - i,
    {
        proof {
            assert(views.take(i as int + 1).drop_last() =~= views.take(i as int));
            assert(views.take(i as int + 1).last() == items@[i as int]@);
            assert(texts(keys@)[i as int] == keys@[i as int]@);
            assert(item_keys(views)[i as int] == key_of(items@[i as int]@));
            let entry = entry_of(items@[i as int]@);
            lemma_sorted_push(
                encounter(views.take(i as int), key@, GrammarRule::FunctionDef),
                entry,
            );
            lemma_sorted_push(encounter(views.take(i as int), key@, GrammarRule::ClassDef), entry);
        }
        if same_chars(&keys[i], key) {
            let item = &items[i];
            match item.rule {
                GrammarRule::FunctionDef => {
                    place_entry(&mut functions, &mut function_keys, SymbolEntry::from_item(item));
                },
                GrammarRule::ClassDef => {
                    place_entry(&mut classes, &mut class_keys, SymbolEntry::from_item(item));
                },
                GrammarRule::Docstring => {
                    docstrings += 1;
                },
                GrammarRule::Import => {
                    imports += 1;
                },
            }
        }
        i += 1;
    }
    proof {
        assert(views.take(items.len() as int) =~= views);
    }
    ModuleReport { functions, classes, docstrings, imports }
}

/// Groups the items by module. The table holds one entry for each module
/// key, in ascending order of the keys; the entry's report lists the
/// module's functions and classes, sorted by name without regard to case
/// and otherwise in the order of the items, and counts its docstrings and
/// imports.
pub fn aggregate_modules(items: &[ParsedItem]) -> (table: ModuleTable)
    ensures
        table@ == aggregated(item_views(items@)),
        table.well_formed(),
{
    let keys = keys_of_items(items);
    let modules = distinct_keys(&keys);
    let ghost views = item_views(items@);
    let mut entries: Vec<ModuleEntry> = Vec::new();
    let mut g: usize = 0;
    while g < modules.len()
        invariant
            g <= modules.len(),
            views == item_views(items@),
            texts(keys@) == item_keys(views),
            texts(modules@) == module_keys(views),
            entries@.len() == g,
            forall|j: int|
                0 <= j < g ==> (#[trigger] entries@[j]).name@ == module_keys(views)[j]
                    && entries@[j].report@ == report_of(views, module_keys(views)[j]),
        decreases modules.len() - g,
    {
        let report = build_report(items, &keys, &modules[g]);
        let name = string_of(&modules[g]);
        assert(texts(modules@)[g as int] == modules@[g as int]@);
        entries.push(ModuleEntry { name, report });
        g += 1;
    }
    let table = ModuleTable { entries };
    proof {
        assert(texts(modules@).len() == modules@.len());
        assert(table@ =~= aggregated(views));
        lemma_distinct_sorted(item_keys(views));
        assert(keys_of(table@) =~= module_keys(views));
    }
    table
}

/// The entries of `es` whose sort key is `key`, in their order.
pub open spec fn with_sort_key(es: Seq<EntryView>, key: Seq<char>) -> Seq<EntryView>
    decreases es.len(),
{
    if es.len() == 0 {
        Seq::empty()
    } else {
        let rest = with_sort_key(es.drop_last(), key);
        if sort_key(es.last()) == key {
            rest.push(es.last())
        } else {
            rest
        }
    }
}

proof fn lemma_with_sort_key_concat(a: Seq<EntryView>, b: Seq<EntryView>, key: Seq<char>)
    ensures
        with_sort_key(a + b, key) == with_sort_key(a, key) + with_sort_key(b, key),
    decreases b.len(),
{
    if b.len() == 0 {
        assert(a + b =~= a);
        assert(with_sort_key(a, key) + with_sort_key(b, key) =~= with_sort_key(a, key));
    } else {
        lemma_with_sort_key_concat(a, b.drop_last(), key);
        assert((a + b).drop_last() =~= a + b.drop_last());
        assert((a + b).last() == b.last());
        let left = with_sort_key(a, key);
        let right = with_sort_key(b.drop_last(), key);
        assert((left + right).push(b.last()) =~= left + right.push(b.last()));
    }
}

proof fn lemma_with_sort_key_none(es: Seq<EntryView>, key: Seq<char>)
    requires
        forall|j: int| 0 <= j < es.len() ==> sort_key(#[trigger] es[j]) != key,
    ensures
        with_sort_key(es, key) == Seq::<EntryView>::empty(),
    decreases es.len(),
{
    if es.len() > 0 {
        lemma_with_sort_key_none(es.drop_last(), key);
    }
}

proof fn lemma_placed(r: Seq<EntryView>, x: EntryView)
    requires
        nondecreasing(sort_keys(r)),
    ensures
        nondecreasing(sort_keys(placed(r, x))),
        placed(r, x).len() == r.len() + 1,
        forall|key: Seq<char>|
            #[trigger] with_sort_key(placed(r, x), key) == if sort_key(x) == key {
                with_sort_key(r, key).push(x)
            } else {
                with_sort_key(r, key)
            },
{
    let keys = sort_keys(r);
    let kx = sort_key(x);
    let p = upper_bound(keys, kx, 0);
    let out = placed(r, x);
    crate::order::lemma_upper_bound(keys, kx, 0);
    let keys_out = sort_keys(out);
    assert(keys_out =~= keys.insert(p, kx));
    assert forall|q: int| p <= q < keys.len() implies before(kx, #[trigger] keys[q]) by {
        if q > p {
            if !before(kx, keys[q]) {
                if before(keys[q], kx) {
                    crate::order::lemma_before_transitive(keys[q], kx, keys[p]);
                } else {
                    crate::order::lemma_before_total(keys[q], kx);
                }
                assert(false);
            }
        }
    }
    assert forall|i: int, j: int| 0 <= i < j < keys_out.len() implies !before(
        #[trigger] keys_out[j],
        #[trigger] keys_out[i],
    ) by {
        if i == p {
            assert(keys_out[j] == keys[j - 1]);
            if before(keys[j - 1], kx) {
                crate::order::lemma_before_transitive(keys[j - 1], kx, keys[j - 1]);
                crate::order::lemma_before_irreflexive(keys[j - 1]);
            }
        } else if j == p {
            assert(keys_out[i] == keys[i]);
        } else if i < p && j < p {
            assert(keys_out[i] == keys[i] && keys_out[j] == keys[j]);
        } else if i < p && j > p {
            assert(keys_out[i] == keys[i] && keys_out[j] == keys[j - 1]);
        } else {
            assert(keys_out[i] == keys[i - 1] && keys_out[j] == keys[j - 1]);
        }
    }
    assert forall|key: Seq<char>|
        #[trigger] with_sort_key(out, key) == if kx == key {
            with_sort_key(r, key).push(x)
        } else {
            with_sort_key(r, key)
        } by {
        let head = r.take(p);
        let tail = r.skip(p);
        assert(out =~= (head + seq![x]) + tail);
        assert(r =~= head + tail);
        lemma_with_sort_key_concat(head + seq![x], tail, key);
        lemma_with_sort_key_concat(head, seq![x], key);
        lemma_with_sort_key_concat(head, tail, key);
        assert(seq![x].drop_last() =~= Seq::<EntryView>::empty());
        assert(with_sort_key(seq![x].drop_last(), key) =~= Seq::<EntryView>::empty());
        if kx == key {
            assert(with_sort_key(seq![x], key) =~= seq![x]);
            assert forall|j: int| 0 <= j < tail.len() implies sort_key(#[trigger] tail[j])
                != key by {
                assert(keys[p + j] == sort_key(r[p + j]));
                crate::order::lemma_before_irreflexive(kx);
            }
            lemma_with_sort_key_none(tail, key);
            assert(with_sort_key(head, key) + seq![x] + Seq::<EntryView>::empty()
                =~= with_sort_key(head, key).push(x));
            assert(with_sort_key(head, key) + Seq::<EntryView>::empty() =~= with_sort_key(
                head,
                key,
            ));
        } else {
            assert(with_sort_key(seq![x], key) =~= Seq::<EntryView>::empty());
            assert(with_sort_key(head, key) + Seq::<EntryView>::empty() =~= with_sort_key(
                head,
                key,
            ));
        }
    }
}

/// Sorted entries stand in the order of their keys: the names in lower
/// case never descend. Entries whose names are equal in lower case keep
/// the order in which they stood, and none is lost or added.
pub proof fn lemma_stable_sorted(es: Seq<EntryView>)
    ensures
        nondecreasing(sort_keys(stable_sorted(es))),
        stable_sorted(es).len() == es.len(),
        forall|key: Seq<char>|
            #[trigger] with_sort_key(stable_sorted(es), key) == with_sort_key(es, key),
    decreases es.len(),
{
    if es.len() > 0 {
        lemma_stable_sorted(es.drop_last());
        lemma_placed(stable_sorted(es.drop_last()), es.last());
        assert forall|key: Seq<char>|
            #[trigger] with_sort_key(stable_sorted(es), key) == with_sort_key(es, key) by {
            assert(with_sort_key(stable_sorted(es.drop_last()), key) == with_sort_key(
                es.drop_last(),
                key,
            ));
        }
    } else {
        assert(sort_keys(stable_sorted(es)) =~= Seq::<Seq<char>>::empty());
    }
}

/// In every report of a table the functions and the classes are sorted by
/// name without regard to case, and those whose names are equal without
/// regard to case stand in the order of the items.
pub proof fn lemma_reports_sorted(items: Seq<ItemView>, key: Seq<char>, name: Seq<char>)
    ensures
        nondecreasing(sort_keys(report_of(items, key).functions)),
        nondecreasing(sort_keys(report_of(items, key).classes)),
        with_sort_key(report_of(items, key).functions, name) == with_sort_key(
            encounter(items, key, GrammarRule::FunctionDef),
            name,
        ),
        with_sort_key(report_of(items, key).classes, name) == with_sort_key(
            encounter(items, key, GrammarRule::ClassDef),
            name,
        ),
{
    lemma_stable_sorted(encounter(items, key, GrammarRule::FunctionDef));
    lemma_stable_sorted(encounter(items, key, GrammarRule::ClassDef));
}

/// The number of symbols, docstrings and imports that a report accounts
/// for.
pub open spec fn report_size(r: ReportView) -> nat {
    r.functions.len() + r.classes.len() + r.docstrings + r.imports
}

/// The number of items that all reports of a table account for.
pub open spec fn table_size(table: Seq<(Seq<char>, ReportView)>) -> nat
    decreases table.len(),
{
    if table.len() == 0 {
        0
    } else {
        table_size(table.drop_last()) + report_size(table.last().1)
    }
}

/// The number of items whose key is `key`.
pub open spec fn count_key(items: Seq<ItemView>, key: Seq<char>) -> int
    decreases items.len(),
{
    if items.len() == 0 {
        0
    } else if key_of(items.last()) == key {
        count_key(items.drop_last(), key) + 1
    } else {
        count_key(items.drop_last(), key)
    }
}

/// The number of items whose key is one of `keys`, an item counted once
/// for each time that its key stands in `keys`.
pub open spec fn count_keys(keys: Seq<Seq<char>>, items: Seq<ItemView>) -> int
    decreases keys.len(),
{
    if keys.len() == 0 {
        0
    } else {
        count_keys(keys.drop_last(), items) + count_key(items, keys.last())
    }
}

/// The number of times that `key` stands in `keys`.
pub open spec fn occurrences(keys: Seq<Seq<char>>, key: Seq<char>) -> int
    decreases keys.len(),
{
    if keys.len() == 0 {
        0
    } else if keys.last() == key {
        occurrences(keys.drop_last(), key) + 1
    } else {
        occurrences(keys.drop_last(), key)
    }
}

/// A report accounts for each item of its module once.
pub proof fn lemma_report_size(items: Seq<ItemView>, key: Seq<char>)
    ensures
        report_size(report_of(items, key)) == count_key(items, key),
    decreases items.len(),
{
    lemma_stable_sorted(encounter(items, key, GrammarRule::FunctionDef));
    lemma_stable_sorted(encounter(items, key, GrammarRule::ClassDef));
    if items.len() > 0 {
        let prev = items.drop_last();
        lemma_report_size(prev, key);
        lemma_stable_sorted(encounter(prev, key, GrammarRule::FunctionDef));
        lemma_stable_sorted(encounter(prev, key, GrammarRule::ClassDef));
    }
}

proof fn lemma_absent(keys: Seq<Seq<char>>, key: Seq<char>)
    requires
        forall|j: int| 0 <= j < keys.len() ==> #[trigger] keys[j] != key,
    ensures
        occurrences(keys, key) == 0,
    decreases keys.len(),
{
    if keys.len() > 0 {
        lemma_absent(keys.drop_last(), key);
    }
}

proof fn lemma_once(keys: Seq<Seq<char>>, key: Seq<char>)
    requires
        ascending(keys),
        keys.contains(key),
    ensures
        occurrences(keys, key) == 1,
    decreases keys.len(),
{
    let rest = keys.drop_last();
    let j = choose|j: int| 0 <= j < keys.len() && keys[j] == key;
    if keys.last() == key {
        assert forall|i: int| 0 <= i < rest.len() implies #[trigger] rest[i] != key by {
            assert(before(keys[i], keys[keys.len() - 1]));
            crate::order::lemma_before_irreflexive(key);
        }
        lemma_absent(rest, key);
    } else {
        assert(rest[j] == key);
        assert(ascending(rest)) by {
            assert forall|a: int, b: int| 0 <= a < b < rest.len() implies before(
                #[trigger] rest[a],
                #[trigger] rest[b],
            ) by {
                assert(before(keys[a], keys[b]));
            }
        }
        lemma_once(rest, key);
    }
}

proof fn lemma_count_keys_push(keys: Seq<Seq<char>>, items: Seq<ItemView>, x: ItemView)
    ensures
        count_keys(keys, items.push(x)) == count_keys(keys, items) + occurrences(
            keys,
            key_of(x),
        ),
    decreases keys.len(),
{
    if keys.len() > 0 {
        lemma_count_keys_push(keys.drop_last(), items, x);
        assert(items.push(x).drop_last() =~= items);
    }
}

/// Distinct keys that hold the key of every item account for every item
/// once.
pub proof fn lemma_count_keys(keys: Seq<Seq<char>>, items: Seq<ItemView>)
    requires
        ascending(keys),
        forall|i: int| 0 <= i < items.len() ==> keys.contains(key_of(#[trigger] items[i])),
    ensures
        count_keys(keys, items) == items.len(),
    decreases items.len(),
{
    if items.len() == 0 {
        lemma_count_keys_empty(keys, items);
    } else {
        let prev = items.drop_last();
        assert forall|i: int| 0 <= i < prev.len() implies keys.contains(
            key_of(#[trigger] prev[i]),
        ) by {
            assert(prev[i] == items[i]);
        }
        lemma_count_keys(keys, prev);
        assert(prev.push(items.last()) =~= items);
        lemma_count_keys_push(keys, prev, items.last());
        assert(keys.contains(key_of(items[items.len() - 1])));
        lemma_once(keys, key_of(items.last()));
    }
}

proof fn lemma_count_keys_empty(keys: Seq<Seq<char>>, items: Seq<ItemView>)
    requires
        items.len() == 0,
    ensures
        count_keys(keys, items) == 0,
    decreases keys.len(),
{
    if keys.len() > 0 {
        lemma_count_keys_empty(keys.drop_last(), items);
    }
}

proof fn lemma_with_key(keys: Seq<Seq<char>>, key: Seq<char>)
    requires
        ascending(keys),
    ensures
        ascending(with_key(keys, key)),
        with_key(keys, key).contains(key),
        forall|k: Seq<char>| keys.contains(k) ==> #[trigger] with_key(keys, key).contains(k),
{
    let p = lower_bound(keys, key, 0);
    let out = with_key(keys, key);
    crate::order::lemma_lower_bound(keys, key, 0);
    if p < keys.len() && keys[p] == key {
        assert(out[p] == key);
    } else {
        assert(out =~= keys.insert(p, key));
        assert(out[p] == key);
        assert forall|k: Seq<char>| keys.contains(k) implies #[trigger] out.contains(k) by {
            let j = choose|j: int| 0 <= j < keys.len() && keys[j] == k;
            if j < p {
                assert(out[j] == k);
            } else {
                assert(out[j + 1] == k);
            }
        }
        assert forall|q: int| p <= q < keys.len() implies before(key, #[trigger] keys[q]) by {
            if !before(key, keys[p]) {
                crate::order::lemma_before_total(key, keys[p]);
            }
            if q > p {
                assert(before(keys[p], keys[q]));
                crate::order::lemma_before_transitive(key, keys[p], keys[q]);
            }
        }
        assert forall|i: int, j: int| 0 <= i < j < out.len() implies before(
            #[trigger] out[i],
            #[trigger] out[j],
        ) by {
            if i == p {
                assert(out[j] == keys[j - 1]);
            } else if j == p {
                assert(out[i] == keys[i]);
            } else if i < p && j < p {
                assert(out[i] == keys[i] && out[j] == keys[j]);
            } else if i < p && j > p {
                assert(out[i] == keys[i] && out[j] == keys[j - 1]);
                assert(before(keys[i], keys[j - 1]));
            } else {
                assert(out[i] == keys[i - 1] && out[j] == keys[j - 1]);
                assert(before(keys[i - 1], keys[j - 1]));
            }
        }
    }
}

/// The distinct sorted texts of `ks` ascend, and each text of `ks` is
/// among them.
pub proof fn lemma_distinct_sorted(ks: Seq<Seq<char>>)
    ensures
        ascending(distinct_sorted(ks)),
        forall|i: int| 0 <= i < ks.len() ==> distinct_sorted(ks).contains(#[trigger] ks[i]),
    decreases ks.len(),
{
    if ks.len() > 0 {
        let prev = ks.drop_last();
        lemma_distinct_sorted(prev);
        lemma_with_key(distinct_sorted(prev), ks.last());
        assert forall|i: int| 0 <= i < ks.len() implies distinct_sorted(ks).contains(
            #[trigger] ks[i],
        ) by {
            if i < prev.len() {
                assert(prev[i] == ks[i]);
                assert(distinct_sorted(prev).contains(prev[i]));
            }
        }
    }
}

proof fn lemma_table_size(keys: Seq<Seq<char>>, items: Seq<ItemView>)
    ensures
        table_size(keys.map_values(|key: Seq<char>| (key, report_of(items, key))))
            == count_keys(keys, items),
    decreases keys.len(),
{
    let f = |key: Seq<char>| (key, report_of(items, key));
    if keys.len() > 0 {
        lemma_table_size(keys.drop_last(), items);
        assert(keys.map_values(f).drop_last() =~= keys.drop_last().map_values(f));
        lemma_report_size(items, keys.last());
    }
}

/// Grouping is a partition of the items. The module keys of a table are
/// distinct, each item's key is among them, and the functions, classes,
/// docstrings and imports of all reports together are as many as the
/// items.
pub proof fn lemma_aggregated_partition(items: Seq<ItemView>)
    ensures
        ascending(module_keys(items)),
        forall|i: int|
            0 <= i < items.len() ==> module_keys(items).contains(key_of(#[trigger] items[i])),
        table_size(aggregated(items)) == items.len(),
{
    lemma_distinct_sorted(item_keys(items));
    assert forall|i: int| 0 <= i < items.len() implies module_keys(items).contains(
        key_of(#[trigger] items[i]),
    ) by {
        assert(item_keys(items)[i] == key_of(items[i]));
    }
    lemma_count_keys(module_keys(items), items);
    lemma_table_size(module_keys(items), items);
}

} // verus!
