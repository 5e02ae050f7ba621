//! Turning source text into structural items.
//!
//! A parse checks the text, matches the grammar against it and builds one
//! item for each match. All of it is a function of the text alone.

use crate::docstring::{
    body_bounds, extract_docstring_literal, normalize_range, normalized, unterminated_line,
    validate_docstrings,
};
use crate::error::ParserError;
use crate::grammar::{find_matches, matches_of, spans_within, Keyword, RuleMatch};
use crate::position::{column_of, line_of, offset_to_line_col};
use crate::text::{
    chars_of, is_blank, run_end, skip_run, string_of, text_of, trim_bounds, trim_hi, trim_lo,
    trimmed, CharClass,
};
use vstd::prelude::*;

verus! {

/// The productions of the grammar that give rise to an item.
#[derive(Debug, Clone, Copy, PartialEq, Eq, Structural)]
pub enum GrammarRule {
    /// A function definition, with the decorator lines above it.
    FunctionDef,
    /// A triple-quoted literal.
    Docstring,
    /// A class definition, with the decorator lines above it.
    ClassDef,
    /// A plain or a from-import statement.
    Import,
}

impl GrammarRule {
    /// The rule's name, as tables show it.
    pub fn label(&self) -> (r: &'static str)
        ensures
            r@ == match *self {
                GrammarRule::FunctionDef => "FunctionDef"@,
                GrammarRule::Docstring => "Docstring"@,
                GrammarRule::ClassDef => "ClassDef"@,
                GrammarRule::Import => "Import"@,
            },
    {
        match self {
            GrammarRule::FunctionDef => "FunctionDef",
            GrammarRule::Docstring => "Docstring",
            GrammarRule::ClassDef => "ClassDef",
            GrammarRule::Import => "Import",
        }
    }
}

/// One function, class, docstring or import found in a source, with its
/// position and what was read from it.
#[derive(Debug, PartialEq, Eq)]
pub struct ParsedItem {
    /// The production that matched.
    pub rule: GrammarRule,
    /// The declared name, or the import's first line.
    pub name: Option<String>,
    /// The declaration line of a function or a class.
    pub signature: Option<String>,
    /// The normal form of a docstring's body.
    pub docstring: Option<String>,
    /// The matched text, without the white space around it.
    pub content: String,
    /// The 1-based line where the match starts.
    pub line: usize,
    /// The 1-based column where the match starts.
    pub column: usize,
    /// The module that the item belongs to, once the caller has said so.
    pub module: Option<String>,
    /// The path of the file that the item came from, once the caller has
    /// said so.
    pub source: Option<String>,
}

/// What an item holds, as mathematical values.
pub struct ItemView {
    pub rule: GrammarRule,
    pub name: Option<Seq<char>>,
    pub signature: Option<Seq<char>>,
    pub docstring: Option<Seq<char>>,
    pub content: Seq<char>,
    pub line: int,
    pub column: int,
    pub module: Option<Seq<char>>,
    pub source: Option<Seq<char>>,
}

/// The characters of an optional string.
pub open spec fn opt_view(s: Option<String>) -> Option<Seq<char>> {
    match s {
        Some(t) => Some(t@),
        None => None,
    }
}

impl View for ParsedItem {
    type V = ItemView;

    open spec fn view(&self) -> ItemView {
        ItemView {
            rule: self.rule,
            name: opt_view(self.name),
            signature: opt_view(self.signature),
            docstring: opt_view(self.docstring),
            content: self.content@,
            line: self.line as int,
            column: self.column as int,
            module: opt_view(self.module),
            source: opt_view(self.source),
        }
    }
}

/// The views of a sequence of items.
pub open spec fn item_views(items: Seq<ParsedItem>) -> Seq<ItemView> {
    items.map_values(|item: ParsedItem| item@)
}

/// Whether the text `s[a..b]` opens a declaration of `rule`: `def ` or
/// `async def ` for a function, `class ` for a class.
pub open spec fn opens_declaration(s: Seq<char>, a: int, b: int, rule: GrammarRule) -> bool {
    match rule {
        GrammarRule::FunctionDef => Keyword::Def.at_with_space(s, a, b) || (
        Keyword::Async.at_with_space(s, a, b) && Keyword::Def.at_with_space(s, a + 6, b)),
        GrammarRule::ClassDef => Keyword::Class.at_with_space(s, a, b),
        _ => false,
    }
}

/// The bounds of the first line of `s[lo..hi]`, from `lo` on, that opens a
/// declaration of `rule` once the white space around it is dropped.
pub open spec fn declaration_line(s: Seq<char>, lo: int, hi: int, rule: GrammarRule) -> Option<
    (int, int),
>
    decreases hi - lo,
{
    let e = run_end(s, lo, hi, CharClass::NotLineFeed);
    let a = trim_lo(s, lo, e);
    let b = trim_hi(s, lo, e);
    if opens_declaration(s, a, b, rule) {
        Some((a, b))
    } else if lo <= e < hi {
        declaration_line(s, e + 1, hi, rule)
    } else {
        None
    }
}

/// The bounds of the first line of `s[lo..hi]` without the white space
/// around it.
pub open spec fn first_line(s: Seq<char>, lo: int, hi: int) -> (int, int) {
    let e = run_end(s, lo, hi, CharClass::NotLineFeed);
    (trim_lo(s, lo, e), trim_hi(s, lo, e))
}

/// The bounds of the signature of the block `s[lo..hi]`: its first line
/// that opens a declaration of `rule`, or else its first line.
pub open spec fn signature_bounds(s: Seq<char>, lo: int, hi: int, rule: GrammarRule) -> (
    int,
    int,
) {
    match declaration_line(s, lo, hi, rule) {
        Some(found) => found,
        None => first_line(s, lo, hi),
    }
}

/// The bounds of the name in the function signature `s[a..b]`: what stands
/// between `def ` and the first opening parenthesis, without the white
/// space around it. A signature that does not start with `def `, after an
/// optional `async `, or whose name is empty has none.
pub open spec fn function_name_bounds(s: Seq<char>, a: int, b: int) -> Option<(int, int)> {
    let a0 = trim_lo(s, a, b);
    let c = if Keyword::Async.at_with_space(s, a0, b) {
        a0 + 6
    } else {
        a0
    };
    if Keyword::Def.at_with_space(s, c, b) {
        let e = run_end(s, c + 4, b, CharClass::BeforeParen);
        let x = trim_lo(s, c + 4, e);
        let y = trim_hi(s, c + 4, e);
        if x < y {
            Some((x, y))
        } else {
            None
        }
    } else {
        None
    }
}

/// The bounds of the name in the class signature `s[a..b]`: after
/// `class `, the first stretch without an opening parenthesis, a colon or
/// white space. A signature that does not start with `class ` or has no
/// such stretch has none.
pub open spec fn class_name_bounds(s: Seq<char>, a: int, b: int) -> Option<(int, int)> {
    let a0 = trim_lo(s, a, b);
    if Keyword::Class.at_with_space(s, a0, b) {
        let x = run_end(s, a0 + 6, b, CharClass::ClassNameStop);
        let y = run_end(s, x, b, CharClass::ClassName);
        if x < y {
            Some((x, y))
        } else {
            None
        }
    } else {
        None
    }
}

/// The text between optional bounds.
pub open spec fn opt_range(s: Seq<char>, bounds: Option<(int, int)>) -> Option<Seq<char>> {
    match bounds {
        Some((x, y)) => Some(s.subrange(x, y)),
        None => None,
    }
}

/// The text between bounds, if there is any.
pub open spec fn nonempty_range(s: Seq<char>, bounds: (int, int)) -> Option<Seq<char>> {
    if bounds.0 < bounds.1 {
        Some(s.subrange(bounds.0, bounds.1))
    } else {
        None
    }
}

/// The item that stands for the match `m` in the text `s`.
pub open spec fn item_of(s: Seq<char>, m: RuleMatch) -> ItemView {
    let lo = m.start as int;
    let hi = m.end as int;
    let blank = ItemView {
        rule: m.rule,
        name: None,
        signature: None,
        docstring: None,
        content: trimmed(s, lo, hi),
        line: line_of(s, lo),
        column: column_of(s, lo),
        module: None,
        source: None,
    };
    match m.rule {
        GrammarRule::FunctionDef => {
            let sig = signature_bounds(s, lo, hi, m.rule);
            ItemView {
                name: opt_range(s, function_name_bounds(s, sig.0, sig.1)),
                signature: nonempty_range(s, sig),
                ..blank
            }
        },
        GrammarRule::ClassDef => {
            let sig = signature_bounds(s, lo, hi, m.rule);
            ItemView {
                name: opt_range(s, class_name_bounds(s, sig.0, sig.1)),
                signature: nonempty_range(s, sig),
                ..blank
            }
        },
        GrammarRule::Docstring => {
            let body = body_bounds(s, lo, hi);
            ItemView { docstring: Some(normalized(s, body.0, body.1)), ..blank }
        },
        GrammarRule::Import => ItemView {
            name: nonempty_range(s, first_line(s, trim_lo(s, lo, hi), trim_hi(s, lo, hi))),
            ..blank
        },
    }
}

/// The items of a text: one for each match of the grammar, in order.
pub open spec fn items_of(s: Seq<char>) -> Seq<ItemView> {
    matches_of(s).map_values(|m: RuleMatch| item_of(s, m))
}

/// Tests whether the text `s[a..b]` opens a declaration of `rule`.
pub fn starts_declaration(s: &Vec<char>, a: usize, b: usize, rule: GrammarRule) -> (r: bool)
    requires
        a <= b <= s.len(),
    ensures
        r == opens_declaration(s@, a as int, b as int, rule),
{
    match rule {
        GrammarRule::FunctionDef => Keyword::Def.is_at_with_space(s, a, b) || (
        Keyword::Async.is_at_with_space(s, a, b) && Keyword::Def.is_at_with_space(s, a + 6, b)),
        GrammarRule::ClassDef => Keyword::Class.is_at_with_space(s, a, b),
        _ => false,
    }
}

/// Finds the signature of the block `s[lo..hi]`: its first line that opens
/// a declaration of `rule`, or else its first line, without the white
/// space around it.
pub fn find_signature_line(s: &Vec<char>, lo: usize, hi: usize, rule: GrammarRule) -> (r: (
    usize,
    usize,
))
    requires
        lo <= hi <= s.len(),
    ensures
        (r.0 as int, r.1 as int) == signature_bounds(s@, lo as int, hi as int, rule),
        lo <= r.0 <= r.1 <= hi,
{
    let mut k: usize = lo;
    loop
        invariant
            lo <= k <= hi <= s.len(),
            declaration_line(s@, lo as int, hi as int, rule) == declaration_line(
                s@,
                k as int,
                hi as int,
                rule,
            ),
        ensures
            declaration_line(s@, lo as int, hi as int, rule) is None,
        decreases hi - k,
    {
        let e = skip_run(s, k, hi, CharClass::NotLineFeed);
        let (a, b) = trim_bounds(s, k, e);
        if starts_declaration(s, a, b, rule) {
            return (a, b);
        }
        if e < hi {
            k = e + 1;
        } else {
            break ;
        }
    }
    let e = skip_run(s, lo, hi, CharClass::NotLineFeed);
    trim_bounds(s, lo, e)
}

/// Finds the signature line of a function's block.
pub fn extract_signature_line(s: &Vec<char>, lo: usize, hi: usize) -> (r: (usize, usize))
    requires
        lo <= hi <= s.len(),
    ensures
        (r.0 as int, r.1 as int) == signature_bounds(
            s@,
            lo as int,
            hi as int,
            GrammarRule::FunctionDef,
        ),
        lo <= r.0 <= r.1 <= hi,
{
    find_signature_line(s, lo, hi, GrammarRule::FunctionDef)
}

/// Finds the signature line of a class's block.
pub fn extract_class_signature_line(s: &Vec<char>, lo: usize, hi: usize) -> (r: (usize, usize))
    requires
        lo <= hi <= s.len(),
    ensures
        (r.0 as int, r.1 as int) == signature_bounds(
            s@,
            lo as int,
            hi as int,
            GrammarRule::ClassDef,
        ),
        lo <= r.0 <= r.1 <= hi,
{
    find_signature_line(s, lo, hi, GrammarRule::ClassDef)
}

/// Whether the bounds that a function found are those that were asked for.
pub open spec fn bounds_agree(found: Option<(usize, usize)>, given: Option<(int, int)>) -> bool {
    match found {
        Some((x, y)) => given == Some((x as int, y as int)),
        None => given is None,
    }
}

/// Finds the name in the function signature `s[a..b]`.
pub fn extract_name_from_signature(s: &Vec<char>, a: usize, b: usize) -> (r: Option<
    (usize, usize),
>)
    requires
        a <= b <= s.len(),
    ensures
        bounds_agree(r, function_name_bounds(s@, a as int, b as int)),
        r matches Some((x, y)) ==> a <= x < y <= b,
{
    let a0 = skip_run(s, a, b, CharClass::Space);
    let c = if Keyword::Async.is_at_with_space(s, a0, b) {
        a0 + 6
    } else {
        a0
    };
    if Keyword::Def.is_at_with_space(s, c, b) {
        let e = skip_run(s, c + 4, b, CharClass::BeforeParen);
        let (x, y) = trim_bounds(s, c + 4, e);
        if x < y {
            Some((x, y))
        } else {
            None
        }
    } else {
        None
    }
}

/// Finds the name in the class signature `s[a..b]`.
pub fn extract_class_name(s: &Vec<char>, a: usize, b: usize) -> (r: Option<(usize, usize)>)
    requires
        a <= b <= s.len(),
    ensures
        bounds_agree(r, class_name_bounds(s@, a as int, b as int)),
        r matches Some((x, y)) ==> a <= x < y <= b,
{
    let a0 = skip_run(s, a, b, CharClass::Space);
    if Keyword::Class.is_at_with_space(s, a0, b) {
        let x = skip_run(s, a0 + 6, b, CharClass::ClassNameStop);
        let y = skip_run(s, x, b, CharClass::ClassName);
        if x < y {
            Some((x, y))
        } else {
            None
        }
    } else {
        None
    }
}

/// Finds the name of the import statement `s[a..b]`: its first line
/// without the white space around it.
pub fn extract_import_name(s: &Vec<char>, a: usize, b: usize) -> (r: (usize, usize))
    requires
        a <= b <= s.len(),
    ensures
        (r.0 as int, r.1 as int) == first_line(s@, a as int, b as int),
        a <= r.0 <= r.1 <= b,
{
    let e = skip_run(s, a, b, CharClass::NotLineFeed);
    trim_bounds(s, a, e)
}

/// The text between optional bounds, as a string.
fn optional_text(s: &Vec<char>, bounds: Option<(usize, usize)>) -> (r: Option<String>)
    requires
        bounds matches Some((x, y)) ==> x <= y <= s.len(),
    ensures
        opt_view(r) == match bounds {
            Some((x, y)) => Some(s@.subrange(x as int, y as int)),
            None => None,
        },
{
    match bounds {
        Some((x, y)) => Some(text_of(s, x, y)),
        None => None,
    }
}

/// The text between bounds as a string, if there is any.
fn nonempty_text(s: &Vec<char>, bounds: (usize, usize)) -> (r: Option<String>)
    requires
        bounds.0 <= bounds.1 <= s.len(),
    ensures
        opt_view(r) == nonempty_range(s@, (bounds.0 as int, bounds.1 as int)),
{
    if bounds.0 < bounds.1 {
        Some(text_of(s, bounds.0, bounds.1))
    } else {
        None
    }
}

/// Whether `m` is a match that an item can be built from in `s`.
pub open spec fn buildable(s: Seq<char>, m: RuleMatch, rule: GrammarRule) -> bool {
    m.rule == rule && m.start <= m.end <= s.len() && m.start < usize::MAX
}

/// Builds the item of a function's match.
pub fn build_function_item(source: &Vec<char>, m: RuleMatch) -> (item: ParsedItem)
    requires
        buildable(source@, m, GrammarRule::FunctionDef),
    ensures
        item@ == item_of(source@, m),
{
    let (line, column) = offset_to_line_col(source, m.start);
    let sig = extract_signature_line(source, m.start, m.end);
    let name = extract_name_from_signature(source, sig.0, sig.1);
    let (a, b) = trim_bounds(source, m.start, m.end);
    ParsedItem {
        rule: GrammarRule::FunctionDef,
        name: optional_text(source, name),
        signature: nonempty_text(source, sig),
        docstring: None,
        content: text_of(source, a, b),
        line,
        column,
        module: None,
        source: None,
    }
}

/// Builds the item of a class's match.
pub fn build_class_item(source: &Vec<char>, m: RuleMatch) -> (item: ParsedItem)
    requires
        buildable(source@, m, GrammarRule::ClassDef),
    ensures
        item@ == item_of(source@, m),
{
    let (line, column) = offset_to_line_col(source, m.start);
    let sig = extract_class_signature_line(source, m.start, m.end);
    let name = extract_class_name(source, sig.0, sig.1);
    let (a, b) = trim_bounds(source, m.start, m.end);
    ParsedItem {
        rule: GrammarRule::ClassDef,
        name: optional_text(source, name),
        signature: nonempty_text(source, sig),
        docstring: None,
        content: text_of(source, a, b),
        line,
        column,
        module: None,
        source: None,
    }
}

/// Builds the item of a docstring's match.
pub fn build_docstring_item(source: &Vec<char>, m: RuleMatch) -> (item: ParsedItem)
    requires
        buildable(source@, m, GrammarRule::Docstring),
    ensures
        item@ == item_of(source@, m),
{
    let (line, column) = offset_to_line_col(source, m.start);
    let (x, y) = extract_docstring_literal(source, m.start, m.end);
    let body = normalize_range(source, x, y);
    let (a, b) = trim_bounds(source, m.start, m.end);
    ParsedItem {
        rule: GrammarRule::Docstring,
        name: None,
        signature: None,
        docstring: Some(string_of(&body)),
        content: text_of(source, a, b),
        line,
        column,
        module: None,
        source: None,
    }
}

/// Builds the item of an import's match.
pub fn build_import_item(source: &Vec<char>, m: RuleMatch) -> (item: ParsedItem)
    requires
        buildable(source@, m, GrammarRule::Import),
    ensures
        item@ == item_of(source@, m),
{
    let (line, column) = offset_to_line_col(source, m.start);
    let (a, b) = trim_bounds(source, m.start, m.end);
    let name = extract_import_name(source, a, b);
    ParsedItem {
        rule: GrammarRule::Import,
        name: nonempty_text(source, name),
        signature: None,
        docstring: None,
        content: text_of(source, a, b),
        line,
        column,
        module: None,
        source: None,
    }
}

/// Builds one item for each match, in order, and appends them to `items`.
pub fn collect_items(found: &Vec<RuleMatch>, source: &Vec<char>, items: &mut Vec<ParsedItem>)
    requires
        spans_within(found@, source.len() as int),
    ensures
        item_views(final(items)@) == item_views(old(items)@) + found@.map_values(
            |m: RuleMatch| item_of(source@, m),
        ),
{
    let mut k: usize = 0;
    while k < found.len()
        invariant
            k <= found.len(),
            spans_within(found@, source.len() as int),
            item_views(items@) == item_views(old(items)@) + found@.take(k as int).map_values(
                |m: RuleMatch| item_of(source@, m),
            ),
        decreases found.len() - k,
    {
        let m = found[k];
        assert(m.start < m.end <= source.len());
        let item = match m.rule {
            GrammarRule::FunctionDef => build_function_item(source, m),
            GrammarRule::ClassDef => build_class_item(source, m),
            GrammarRule::Docstring => build_docstring_item(source, m),
            GrammarRule::Import => build_import_item(source, m),
        };
        let ghost before = items@;
        items.push(item);
        proof {
            let f = |m: RuleMatch| item_of(source@, m);
            assert(found@.take(k as int + 1) =~= found@.take(k as int).push(m));
            assert(found@.take(k as int + 1).map_values(f) =~= found@.take(k as int).map_values(
                f,
            ).push(item@));
            assert(item_views(before.push(item)) =~= item_views(before).push(item@));
            assert(item_views(items@) =~= item_views(old(items)@) + found@.take(
                k as int + 1,
            ).map_values(f));
        }
        k += 1;
    }
    proof {
        assert(found@.take(found.len() as int) =~= found@);
    }
}

/// What a parse comes to, as mathematical values.
pub enum Outcome {
    /// The items of the text, in order.
    Items(Seq<ItemView>),
    /// The text is blank.
    Empty,
    /// A literal opened on this line is never closed.
    Unterminated(int),
    /// The call failed otherwise.
    Failed,
}

/// What the parse of the text `s` comes to. A blank text is refused; then
/// a text with an unterminated literal; any other text has its items.
pub open spec fn parsed(s: Seq<char>) -> Outcome {
    if is_blank(s, 0, s.len() as int) {
        Outcome::Empty
    } else {
        match unterminated_line(s) {
            Some(line) => Outcome::Unterminated(line),
            None => Outcome::Items(items_of(s)),
        }
    }
}

/// What the result of a parse holds.
pub open spec fn outcome_of(r: Result<Vec<ParsedItem>, ParserError>) -> Outcome {
    match r {
        Ok(items) => Outcome::Items(item_views(items@)),
        Err(ParserError::EmptyContent) => Outcome::Empty,
        Err(ParserError::UnterminatedDocstring(line)) => Outcome::Unterminated(line as int),
        Err(_) => Outcome::Failed,
    }
}

/// Parses the characters of a source.
pub fn parse_chars(source: &Vec<char>) -> (r: Result<Vec<ParsedItem>, ParserError>)
    ensures
        outcome_of(r) == parsed(source@),
{
    let first = skip_run(source, 0, source.len(), CharClass::Space);
    if first >= source.len() {
        return Err(ParserError::EmptyContent);
    }
    match validate_docstrings(source) {
        Ok(_) => {},
        Err(e) => {
            return Err(e);
        },
    }
    let found = find_matches(source);
    let mut items: Vec<ParsedItem> = Vec::new();
    collect_items(&found, source, &mut items);
    proof {
        assert(item_views(Seq::<ParsedItem>::empty()) =~= Seq::<ItemView>::empty());
        assert(item_views(items@) =~= items_of(source@));
    }
    Ok(items)
}

/// Parses a source: checks it, matches the grammar against it and builds
/// one item for each match, in the order of the text. The result depends
/// on the text alone.
pub fn parse_content(content: &str) -> (r: Result<Vec<ParsedItem>, ParserError>)
    ensures
        outcome_of(r) == parsed(content@),
{
    let source = chars_of(content);
    parse_chars(&source)
}

/// An item's view with the module set.
pub open spec fn with_module(item: ItemView, module: Seq<char>) -> ItemView {
    ItemView { module: Some(module), ..item }
}

/// An outcome whose items all carry the module.
pub open spec fn stamped(outcome: Outcome, module: Seq<char>) -> Outcome {
    match outcome {
        Outcome::Items(items) => Outcome::Items(
            items.map_values(|item: ItemView| with_module(item, module)),
        ),
        other => other,
    }
}

/// Parses a source as `parse_content` does and sets the module of every
/// item to `module`.
pub fn parse_module(content: &str, module: &str) -> (r: Result<Vec<ParsedItem>, ParserError>)
    ensures
        outcome_of(r) == stamped(parsed(content@), module@),
{
    match parse_content(content) {
        Ok(items) => {
            let ghost plain = item_views(items@);
            let mut out: Vec<ParsedItem> = Vec::new();
            for item in it: items
                invariant
                    item_views(it.seq()) == plain,
                    out@.len() == it.index(),
                    forall|j: int|
                        0 <= j < out@.len() ==> (#[trigger] out@[j])@ == with_module(
                            plain[j],
                            module@,
                        ),
            {
                let mut item = item;
                item.module = Some(module.to_owned());
                out.push(item);
            }
            proof {
                assert(item_views(out@) =~= plain.map_values(
                    |item: ItemView| with_module(item, module@),
                ));
            }
            Ok(out)
        },
        Err(e) => Err(e),
    }
}

/// Whether an item's optional fields fit its rule: a docstring for a
/// docstring's item and for no other, a signature for a function or a
/// class only, a name for none but a function, a class or an import.
pub open spec fn well_formed(item: ItemView) -> bool {
    &&& item.docstring is Some <==> item.rule == GrammarRule::Docstring
    &&& item.signature is Some ==> item.rule == GrammarRule::FunctionDef || item.rule
        == GrammarRule::ClassDef
    &&& item.name is Some ==> item.rule != GrammarRule::Docstring
    &&& item.line >= 1
    &&& item.column >= 1
}

/// The item of a match is well formed, carries neither module nor source,
/// and its line and column, looked up in the text one character at a
/// time, lead to the first character of the match.
pub proof fn lemma_item_of_match(s: Seq<char>, m: RuleMatch)
    requires
        m.start <= s.len(),
    ensures
        well_formed(item_of(s, m)),
        item_of(s, m).rule == m.rule,
        item_of(s, m).module is None,
        item_of(s, m).source is None,
        crate::position::offset_at(s, item_of(s, m).line, item_of(s, m).column) == m.start,
{
    crate::position::lemma_position_bounds(s, m.start as int);
    crate::position::lemma_position_round_trip(s, m.start as int);
}

/// Each item of a text stands for the match of the same index, and its
/// line and column, looked up in the text one character at a time, lead
/// to the first character of that match.
pub proof fn lemma_items_point_at_matches(s: Seq<char>, k: int)
    requires
        s.len() <= usize::MAX,
        0 <= k < items_of(s).len(),
    ensures
        items_of(s)[k] == item_of(s, matches_of(s)[k]),
        well_formed(items_of(s)[k]),
        crate::position::offset_at(s, items_of(s)[k].line, items_of(s)[k].column) == matches_of(
            s,
        )[k].start,
        matches_of(s)[k].start < matches_of(s)[k].end <= s.len(),
{
    crate::grammar::lemma_matches_within(s, 0);
    lemma_item_of_match(s, matches_of(s)[k]);
}

/// A text in which no triple-quote delimiter stands is never refused for
/// an unterminated docstring.
pub proof fn lemma_no_quotes_never_unterminated(s: Seq<char>)
    requires
        crate::docstring::no_quotes_from(s, 0),
    ensures
        !(parsed(s) is Unterminated),
{
    crate::docstring::lemma_no_quotes_all_terminated(s);
}

/// Two parses of one text come to the same: the same failure, or the same
/// items with the same lines and columns.
pub proof fn lemma_parse_deterministic(
    s: Seq<char>,
    first: Result<Vec<ParsedItem>, ParserError>,
    second: Result<Vec<ParsedItem>, ParserError>,
)
    requires
        outcome_of(first) == parsed(s),
        outcome_of(second) == parsed(s),
    ensures
        outcome_of(first) == outcome_of(second),
        !(outcome_of(first) is Failed),
{
}

} // verus!
