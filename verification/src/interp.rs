//! The boundary to the embedded Lua interpreter.
//!
//! Evaluating a chunk is the interpreter's work; what comes back is sorted
//! here into the three outcomes that the console session distinguishes.

use vstd::prelude::*;
use crate::bridge::texts;

verus! {

/// The interpreter state that chunks are evaluated in.
#[verifier::external_type_specification]
#[verifier::external_body]
pub struct ExLua(mlua::Lua);

/// One value of the scripting language.
#[verifier::external_type_specification]
#[verifier::external_body]
pub struct ExValue(mlua::Value);

/// What the interpreter reports when it cannot load or run a chunk.
#[verifier::external_type_specification]
#[verifier::external_body]
pub struct ExError(mlua::Error);

/// The outcome of evaluating one chunk of input.
#[derive(Debug, PartialEq, Eq)]
pub enum Evaluation {
    /// The chunk ran; these are its values, each rendered as text.
    Values(Vec<String>),
    /// The chunk is a valid beginning of a longer construct.
    Incomplete,
    /// The chunk failed to load or to run; this is the error's message.
    Failed(String),
}

/// An outcome with each text as a sequence of characters.
pub enum Outcome {
    /// The texts of the values, in order.
    Values(Seq<Seq<char>>),
    /// More input is wanted.
    Incomplete,
    /// The error's message.
    Failed(Seq<char>),
}

impl View for Evaluation {
    type V = Outcome;

    open spec fn view(&self) -> Outcome {
        match self {
            Evaluation::Values(parts) => Outcome::Values(texts(parts@)),
            Evaluation::Incomplete => Outcome::Incomplete,
            Evaluation::Failed(message) => Outcome::Failed(message@),
        }
    }
}

/// Runs a chunk with `mlua::Chunk::eval`, under an empty chunk name, and hands
/// back the values it produced or the interpreter's error. Nothing is claimed
/// of the result: it depends on the interpreter's state.
#[verifier::external_body]
fn run_chunk(lua: &mlua::Lua, chunk: &str) -> (r: Result<Vec<mlua::Value>, mlua::Error>) {
    lua.load(chunk).set_name("").eval::<mlua::MultiValue>().map(mlua::MultiValue::into_vec)
}

/// Renders a value with its pretty `Debug` form (`mlua::Value`'s `fmt`).
/// Nothing is claimed of the text: for tables and functions it holds an
/// address.
#[verifier::external_body]
fn render_value(value: &mlua::Value) -> (r: String) {
    format!("{:#?}", value)
}

/// Tells a syntax error that more input could mend
/// (`mlua::Error::SyntaxError` with `incomplete_input` set) from every other
/// error.
#[verifier::external_body]
fn wants_more_input(error: &mlua::Error) -> (r: bool) {
    match error {
        mlua::Error::SyntaxError { incomplete_input, .. } => *incomplete_input,
        _ => false,
    }
}

/// The message of an error, as `mlua::Error`'s `Display` writes it.
#[verifier::external_body]
fn error_message(error: &mlua::Error) -> (r: String) {
    format!("{}", error)
}

/// Renders each value; the texts stand in the order of the values.
pub fn render_values(values: &Vec<mlua::Value>) -> (r: Vec<String>)
    ensures
        r@.len() == values@.len(),
{
    let mut out: Vec<String> = Vec::new();
    let mut i: usize = 0;
    while i < values.len()
        invariant
            i <= values@.len(),
            out@.len() == i,
        decreases values@.len() - i,
    {
        out.push(render_value(&values[i]));
        i += 1;
    }
    out
}

/// What the interpreter reported of a chunk that did not run.
#[derive(Debug)]
pub struct Fault {
    /// Whether more input could mend the chunk.
    pub incomplete: bool,
    /// The error's message.
    pub message: String,
}

/// The outcome for what evaluating gave: values that were produced, a fault
/// that asks for more input, or any other fault, which counts as a failure
/// with the fault's message.
pub open spec fn outcome_of(result: Result<Vec<String>, Fault>) -> Outcome {
    match result {
        Ok(parts) => Outcome::Values(texts(parts@)),
        Err(fault) => if fault.incomplete {
            Outcome::Incomplete
        } else {
            Outcome::Failed(fault.message@)
        },
    }
}

/// Sorts what evaluating gave into an outcome.
pub fn classify(result: Result<Vec<String>, Fault>) -> (r: Evaluation)
    ensures
        r@ == outcome_of(result),
{
    match result {
        Ok(parts) => Evaluation::Values(parts),
        Err(fault) => {
            if fault.incomplete {
                Evaluation::Incomplete
            } else {
                Evaluation::Failed(fault.message)
            }
        },
    }
}

/// Evaluates a chunk in the interpreter and sorts what came back into an
/// outcome. Which outcome that is lies with the interpreter.
pub fn evaluate(lua: &mlua::Lua, chunk: &str) -> (r: Evaluation) {
    match run_chunk(lua, chunk) {
        Ok(values) => classify(Ok(render_values(&values))),
        Err(error) => classify(
            Err(Fault { incomplete: wants_more_input(&error), message: error_message(&error) }),
        ),
    }
}

} // verus!
