//! The host side of the operations that scripts can call: how values are laid
//! out on a console line, and how a pattern search over a resolved module is
//! answered.

use vstd::prelude::*;
use vstd::string::StringExecFns;
use vstd::string::StringSliceAdditionalSpecFns;
use crate::pattern::parse_pattern;
use crate::pattern::Signature;
use crate::region::Region;
use crate::scanner::scan;
use crate::scanner::scan_result;

verus! {

/// The text of each of the given strings.
pub open spec fn texts(parts: Seq<String>) -> Seq<Seq<char>> {
    Seq::new(parts.len(), |i: int| parts[i]@)
}

/// The parts written one after another with `sep` between neighbours.
pub open spec fn joined(parts: Seq<Seq<char>>, sep: Seq<char>) -> Seq<char>
    decreases parts.len(),
{
    if parts.len() == 0 {
        Seq::empty()
    } else if parts.len() == 1 {
        parts[0]
    } else {
        joined(parts.drop_last(), sep) + sep + parts.last()
    }
}

/// What stands between two rendered values on a line: four spaces.
pub open spec fn separator() -> Seq<char> {
    "    "@
}

/// What a line printed by a script starts with.
pub open spec fn print_mark() -> Seq<char> {
    "< "@
}

/// What a line that a script sent to the error stream starts with.
pub open spec fn error_mark() -> Seq<char> {
    "! < "@
}

/// What a line that shows the value of an evaluated input starts with.
pub open spec fn result_mark() -> Seq<char> {
    "<\u{b7}"@
}

/// The rendered values, joined by the separator.
pub fn join_values(parts: &Vec<String>) -> (r: String)
    ensures
        r@ == joined(texts(parts@), separator()),
{
    let mut out = String::new();
    let mut i: usize = 0;
    while i < parts.len()
        invariant
            i <= parts@.len(),
            out@ == joined(texts(parts@).take(i as int), separator()),
        decreases parts@.len() - i,
    {
        let ghost before = texts(parts@).take(i as int);
        let ghost after = texts(parts@).take(i + 1);
        proof {
            assert(after.drop_last() == before);
            assert(after.last() == parts@[i as int]@);
        }
        if i > 0 {
            out.append("    ");
        }
        out.append(parts[i].as_str());
        i += 1;
    }
    proof {
        assert(texts(parts@).take(parts@.len() as int) == texts(parts@));
    }
    out
}

/// The line that shows what a script printed.
pub fn print_line(parts: &Vec<String>) -> (r: String)
    ensures
        r@ == print_mark() + joined(texts(parts@), separator()),
{
    let mut out = String::from_str("< ");
    out.append(join_values(parts).as_str());
    out
}

/// The line that shows what a script sent to the error stream.
pub fn error_line(parts: &Vec<String>) -> (r: String)
    ensures
        r@ == error_mark() + joined(texts(parts@), separator()),
{
    let mut out = String::from_str("! < ");
    out.append(join_values(parts).as_str());
    out
}

/// The line that shows the values an input evaluated to.
pub fn result_line(parts: &Vec<String>) -> (r: String)
    ensures
        r@ == result_mark() + joined(texts(parts@), separator()),
{
    let mut out = String::from_str("<\u{b7}");
    out.append(join_values(parts).as_str());
    out
}

/// The answer to a pattern search: nothing when the module was not found,
/// nothing when the pattern is malformed, and otherwise the address of the
/// first match in the module's region, if there is one.
pub open spec fn find_pattern_result(
    module: Option<(usize, Seq<u8>)>,
    pattern_text: Seq<u8>,
) -> Option<usize> {
    match module {
        None => None,
        Some((base, mem)) => match parse_pattern(pattern_text) {
            Err(_) => None,
            Ok(sig) => scan_result(sig, base, mem),
        },
    }
}

/// What a search sees of a resolved module: its base address and its bytes.
pub open spec fn extent(module: Option<Region>) -> Option<(usize, Seq<u8>)> {
    match module {
        Some(region) => Some((region.base(), region.bytes())),
        None => None,
    }
}

/// Searches a module for a pattern given as text.
///
/// `module` is what resolving the module's name gave: its region, or `None`
/// when no module has that name. An absent module and a malformed pattern
/// both give `None`, as does a pattern that matches nowhere.
pub fn find_pattern(module: Option<Region>, pattern_text: &str) -> (r: Option<usize>)
    ensures
        r == find_pattern_result(extent(module), pattern_text.spec_bytes()),
{
    match module {
        None => None,
        Some(region) => match Signature::compile(pattern_text) {
            Err(_) => None,
            Ok(sig) => scan(&sig, &region),
        },
    }
}

/// Searching the same bytes at the same base for the same pattern text gives
/// the same answer every time.
pub proof fn lemma_find_pattern_repeatable(
    first: Option<(usize, Seq<u8>)>,
    second: Option<(usize, Seq<u8>)>,
    first_text: Seq<u8>,
    second_text: Seq<u8>,
)
    requires
        first == second,
        first_text == second_text,
    ensures
        find_pattern_result(first, first_text) == find_pattern_result(second, second_text),
{
}

} // verus!
