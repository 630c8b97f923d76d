//! The input history of the line editor, as far as the session fills it.

use vstd::prelude::*;

verus! {

/// The history that the line editor keeps by default.
#[verifier::external_type_specification]
#[verifier::external_body]
pub struct ExHistory(rustyline::history::DefaultHistory);

/// The entries that a history holds, oldest first.
pub uninterp spec fn history_entries(history: rustyline::history::DefaultHistory) -> Seq<Seq<char>>;

/// Whether `after` is `before` with `entry` added at the end, the oldest
/// entry having made room for it or not.
pub open spec fn recorded(before: Seq<Seq<char>>, after: Seq<Seq<char>>, entry: Seq<char>) -> bool {
    ||| after == before.push(entry)
    ||| before.len() > 0 && after == before.drop_first().push(entry)
}

/// Adds an entry with `rustyline::history::History::add`.
///
/// The history either ignores the entry and stays as it is, or puts it at the
/// end, after dropping its oldest entry if it was full; it says which by
/// `Some(false)` and `Some(true)`. Which entries it ignores depends on how it
/// was configured, but an empty one it always ignores. `None` stands for an
/// error, which leaves the history as it is.
#[verifier::external_body]
pub(crate) fn add_entry(history: &mut rustyline::history::DefaultHistory, entry: &str) -> (r:
    Option<bool>)
    ensures
        r == Some(true) ==> recorded(
            history_entries(*old(history)),
            history_entries(*final(history)),
            entry@,
        ),
        r != Some(true) ==> history_entries(*final(history)) == history_entries(*old(history)),
        entry@.len() == 0 ==> r == Some(false),
{
    rustyline::history::History::add(history, entry).ok()
}

} // verus!
