//! The console session: how one line of input, and what evaluating it gave,
//! move the session between its two prompts.
//!
//! A session is either at the primary prompt, with nothing pending, or at the
//! continuation prompt, in the middle of an input that spans several lines.
//! Each line read is added to what is pending and the whole is evaluated.
//! Success and failure both return the session to the primary prompt; only an
//! input that is a valid beginning of something longer keeps it pending.
//! The end of input ends the session, and nothing else does.

use vstd::prelude::*;
use vstd::string::StringExecFns;
use crate::bridge::joined;
use crate::bridge::result_line;
use crate::bridge::result_mark;
use crate::bridge::separator;
use crate::history::add_entry;
use crate::history::history_entries;
use crate::history::recorded;
use crate::interp::evaluate;
use crate::interp::Evaluation;
use crate::interp::Outcome;

verus! {

/// Which prompt the session shows.
#[derive(Clone, Copy, Debug, PartialEq, Eq, Structural)]
pub enum PromptMode {
    /// A new input is awaited.
    Primary,
    /// Further lines of a started input are awaited.
    Continuation,
}

/// What the caller of the session has to do after a line was handled.
#[derive(Debug, PartialEq, Eq)]
pub enum Reaction {
    /// The input ran: `history` is its history entry and `line` is to be
    /// written to standard output.
    Show { history: String, line: String },
    /// The input is incomplete: write nothing and read another line.
    More,
    /// The input failed: write `line` to the error stream.
    Report { line: String },
    /// The input has ended: leave the loop.
    Stop,
}

/// A reaction with each text as a sequence of characters.
pub enum Effect {
    /// A history entry and a line for standard output.
    Show { history: Seq<char>, line: Seq<char> },
    /// Nothing to write.
    More,
    /// A line for the error stream.
    Report { line: Seq<char> },
    /// The session is over.
    Stop,
}

impl View for Reaction {
    type V = Effect;

    open spec fn view(&self) -> Effect {
        match self {
            Reaction::Show { history, line } => Effect::Show { history: history@, line: line@ },
            Reaction::More => Effect::More,
            Reaction::Report { line } => Effect::Report { line: line@ },
            Reaction::Stop => Effect::Stop,
        }
    }
}

/// The state of a session as specifications see it.
pub struct SessionState {
    /// The lines of the input that is not yet complete.
    pub pending: Seq<char>,
    /// The prompt that is shown.
    pub mode: PromptMode,
}

impl SessionState {
    /// At the primary prompt nothing is pending.
    pub open spec fn well_formed(self) -> bool {
        self.mode is Primary ==> self.pending.len() == 0
    }
}

/// The state in which every session starts, and to which success and failure
/// return it.
pub open spec fn initial() -> SessionState {
    SessionState { pending: Seq::empty(), mode: PromptMode::Primary }
}

/// The text of the prompt for a mode.
pub open spec fn prompt_text(mode: PromptMode) -> Seq<char> {
    match mode {
        PromptMode::Primary => "> "@,
        PromptMode::Continuation => ">> "@,
    }
}

/// What separates the lines of a pending input.
pub open spec fn line_break() -> Seq<char> {
    "\n"@
}

/// What is evaluated once `line` has been read: the line itself when nothing
/// is pending, else what is pending, a line break, and the line.
pub open spec fn chunk_of(pending: Seq<char>, line: Seq<char>) -> Seq<char> {
    if pending.len() == 0 {
        line
    } else {
        pending + line_break() + line
    }
}

/// The transition of the session for one line and the outcome of evaluating
/// the chunk that the line completed.
pub open spec fn transition(s: SessionState, line: Seq<char>, outcome: Outcome) -> (
    SessionState,
    Effect,
) {
    let chunk = chunk_of(s.pending, line);
    match outcome {
        Outcome::Values(parts) => (
            initial(),
            Effect::Show { history: chunk, line: result_mark() + joined(parts, separator()) },
        ),
        Outcome::Incomplete => (
            SessionState { pending: chunk, mode: PromptMode::Continuation },
            Effect::More,
        ),
        Outcome::Failed(message) => (initial(), Effect::Report { line: message }),
    }
}

/// Every transition leads to a well-formed state, ends at the primary prompt
/// unless the input was incomplete, and never ends the session.
pub proof fn lemma_transition_outcomes(s: SessionState, line: Seq<char>, outcome: Outcome)
    ensures
        transition(s, line, outcome).0.well_formed(),
        transition(s, line, outcome).1 !is Stop,
        outcome is Incomplete <==> transition(s, line, outcome).0.mode is Continuation,
        outcome is Incomplete <==> transition(s, line, outcome).1 is More,
        outcome is Incomplete ==> transition(s, line, outcome).0.pending == chunk_of(
            s.pending,
            line,
        ),
        !(outcome is Incomplete) ==> transition(s, line, outcome).0 == initial(),
{
}

/// One console session.
#[derive(Debug)]
pub struct Session {
    pending: String,
    mode: PromptMode,
}

impl View for Session {
    type V = SessionState;

    closed spec fn view(&self) -> SessionState {
        SessionState { pending: self.pending@, mode: self.mode }
    }
}

impl Session {
    #[verifier::type_invariant]
    spec fn idle_when_primary(&self) -> bool {
        self.mode is Primary ==> self.pending@.len() == 0
    }

    /// A session at the primary prompt with nothing pending.
    pub fn new() -> (s: Session)
        ensures
            s@ == initial(),
    {
        Session { pending: String::new(), mode: PromptMode::Primary }
    }

    /// The prompt that the session shows.
    pub fn mode(&self) -> (m: PromptMode)
        ensures
            m == self@.mode,
            self@.well_formed(),
    {
        proof {
            use_type_invariant(self);
        }
        self.mode
    }

    /// The input read so far that is not yet complete.
    pub fn pending(&self) -> (p: &str)
        ensures
            p@ == self@.pending,
            self@.well_formed(),
    {
        proof {
            use_type_invariant(self);
        }
        self.pending.as_str()
    }

    /// The text to prompt with for the next line.
    pub fn prompt(&self) -> (p: &'static str)
        ensures
            p@ == prompt_text(self@.mode),
    {
        match self.mode {
            PromptMode::Primary => "> ",
            PromptMode::Continuation => ">> ",
        }
    }

    /// The chunk to evaluate once `line` has been read.
    pub fn chunk(&self, line: &str) -> (c: String)
        ensures
            c@ == chunk_of(self@.pending, line@),
    {
        if self.pending.as_str().is_empty() {
            String::from_str(line)
        } else {
            let mut c = self.pending.clone();
            c.append("\n");
            c.append(line);
            c
        }
    }

    /// Takes one line and the outcome of evaluating the chunk it completed,
    /// and moves to the next state.
    pub fn advance(&mut self, line: &str, outcome: Evaluation) -> (r: Reaction)
        ensures
            (final(self)@, r@) == transition(old(self)@, line@, outcome@),
            final(self)@.well_formed(),
    {
        let chunk = self.chunk(line);
        match outcome {
            Evaluation::Values(parts) => {
                let shown = result_line(&parts);
                self.pending = String::new();
                self.mode = PromptMode::Primary;
                Reaction::Show { history: chunk, line: shown }
            },
            Evaluation::Incomplete => {
                self.mode = PromptMode::Continuation;
                self.pending = chunk;
                Reaction::More
            },
            Evaluation::Failed(message) => {
                self.pending = String::new();
                self.mode = PromptMode::Primary;
                Reaction::Report { line: message }
            },
        }
    }

    /// Handles what the line editor gave: a line, which is evaluated in `lua`
    /// together with what is pending, or the end of input.
    ///
    /// The end of input leaves everything as it is and stops the session. A
    /// line leads to the transition for that line and for whatever outcome the
    /// interpreter gave. An input that ran is offered to `history` as one
    /// entry, which the history records or ignores; nothing else touches it.
    pub fn step(
        &mut self,
        lua: &mlua::Lua,
        history: &mut rustyline::history::DefaultHistory,
        input: Option<&str>,
    ) -> (r: Reaction)
        ensures
            input is None ==> r@ is Stop && final(self)@ == old(self)@,
            input matches Some(line) ==> exists|outcome: Outcome|
                (final(self)@, r@) == #[trigger] transition(old(self)@, line@, outcome),
            r@ is Stop <==> input is None,
            final(self)@.well_formed(),
            r@ matches Effect::Show { history: entry, .. } ==> {
                ||| history_entries(*final(history)) == history_entries(*old(history))
                ||| recorded(
                    history_entries(*old(history)),
                    history_entries(*final(history)),
                    entry,
                )
            },
            !(r@ is Show) ==> history_entries(*final(history)) == history_entries(*old(history)),
    {
        match input {
            None => {
                proof {
                    use_type_invariant(&*self);
                }
                Reaction::Stop
            },
            Some(line) => {
                let chunk = self.chunk(line);
                let outcome = evaluate(lua, chunk.as_str());
                let ghost seen = outcome@;
                let r = self.advance(line, outcome);
                proof {
                    lemma_transition_outcomes(old(self)@, line@, seen);
                }
                match &r {
                    Reaction::Show { history: entry, .. } => {
                        let _ = add_entry(history, entry.as_str());
                    },
                    _ => {},
                }
                r
            },
        }
    }
}

} // verus!
