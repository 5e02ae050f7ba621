//! The dotted name of a module, from the components of its file's path.

use crate::text::{chars_of, push_range, string_of};
use vstd::prelude::*;

verus! {

/// Whether `.py` ends at offset `hi` of `s`.
pub open spec fn suffix_at(s: Seq<char>, hi: int) -> bool {
    3 <= hi <= s.len() && s[hi - 3] == '.' && s[hi - 2] == 'p' && s[hi - 1] == 'y'
}

/// The length that is left of `s[..hi]` once every `.py` at its end is
/// taken away.
pub open spec fn stem_len(s: Seq<char>, hi: int) -> int
    decreases hi,
{
    if suffix_at(s, hi) {
        stem_len(s, hi - 3)
    } else {
        hi
    }
}

/// `s` without the `.py` suffixes at its end.
pub open spec fn stem_of(s: Seq<char>) -> Seq<char> {
    s.take(stem_len(s, s.len() as int))
}

/// The part that the `k`-th component gives to the name: the last
/// component loses its `.py` suffixes, the others stand as they are.
pub open spec fn part_of(components: Seq<Seq<char>>, k: int) -> Seq<char> {
    if k == components.len() - 1 {
        stem_of(components[k])
    } else {
        components[k]
    }
}

/// The parts of the first `n` components that are not empty, joined by
/// dots.
pub open spec fn joined_parts(components: Seq<Seq<char>>, n: int) -> Seq<char>
    decreases n,
{
    if n <= 0 || n > components.len() {
        Seq::empty()
    } else {
        let rest = joined_parts(components, n - 1);
        let part = part_of(components, n - 1);
        if part.len() == 0 {
            rest
        } else if rest.len() == 0 {
            part
        } else {
            rest + seq!['.'] + part
        }
    }
}

/// The dotted name that the components give: their parts that are not
/// empty, joined by dots; none where every part is empty.
pub open spec fn dotted(components: Seq<Seq<char>>) -> Option<Seq<char>> {
    let name = joined_parts(components, components.len() as int);
    if name.len() == 0 {
        None
    } else {
        Some(name)
    }
}

/// Finds the length that is left of `s` without the `.py` suffixes at its
/// end.
pub fn strip_suffixes(s: &Vec<char>) -> (n: usize)
    ensures
        n == stem_len(s@, s.len() as int),
        n <= s.len(),
{
    let mut hi: usize = s.len();
    while hi >= 3 && s[hi - 3] == '.' && s[hi - 2] == 'p' && s[hi - 1] == 'y'
        invariant
            hi <= s.len(),
            stem_len(s@, s.len() as int) == stem_len(s@, hi as int),
        decreases hi,
    {
        hi -= 3;
    }
    hi
}

/// The dotted module name of a file, from the components of its path
/// below the module root: `pkg`, `core.py` gives `pkg.core`. Components
/// that are empty are passed over; a path that leaves no part has no name.
pub fn dotted_name(components: &Vec<String>) -> (name: Option<String>)
    ensures
        crate::parser::opt_view(name) == dotted(crate::generator::string_views(components@)),
{
    let ghost given = crate::generator::string_views(components@);
    let mut out: Vec<char> = Vec::new();
    let mut k: usize = 0;
    while k < components.len()
        invariant
            k <= components.len(),
            given == crate::generator::string_views(components@),
            out@ == joined_parts(given, k as int),
        decreases components.len() - k,
    {
        let chars = chars_of(components[k].as_str());
        let keep = if k == components.len() - 1 {
            strip_suffixes(&chars)
        } else {
            chars.len()
        };
        proof {
            assert(given[k as int] == chars@);
            assert(chars@.take(chars.len() as int) =~= chars@);
            assert(chars@.subrange(0, keep as int) =~= part_of(given, k as int));
        }
        if keep > 0 {
            if out.len() > 0 {
                out.push('.');
            }
            let ghost before = out@;
            push_range(&mut out, &chars, 0, keep);
            assert(out@ =~= joined_parts(given, k as int + 1));
        }
        k += 1;
    }
    if out.len() == 0 {
        None
    } else {
        Some(string_of(&out))
    }
}

} // verus!
