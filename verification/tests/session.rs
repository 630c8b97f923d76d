use rustyline::history::DefaultHistory;
use rustyline::history::History;
use rustyline::history::SearchDirection;
use sigconsole::interp::classify;
use sigconsole::interp::evaluate;
use sigconsole::interp::render_values;
use sigconsole::interp::Evaluation;
use sigconsole::interp::Fault;
use sigconsole::session::PromptMode;
use sigconsole::session::Reaction;
use sigconsole::session::Session;

fn entries(history: &DefaultHistory) -> Vec<String> {
    (0..history.len())
        .map(|i| history.get(i, SearchDirection::Forward).unwrap().unwrap().entry.into_owned())
        .collect()
}

fn show(history: &str, line: &str) -> Reaction {
    Reaction::Show { history: history.to_string(), line: line.to_string() }
}

#[test]
fn new_session_is_at_the_primary_prompt() {
    let s = Session::new();
    assert_eq!(s.mode(), PromptMode::Primary);
    assert_eq!(s.pending(), "");
    assert_eq!(s.prompt(), "> ");
}

#[test]
fn evaluates_a_complete_expression() {
    let lua = mlua::Lua::new();
    let mut s = Session::new();
    let mut h = DefaultHistory::new();
    let r = s.step(&lua, &mut h, Some("1 + 1"));
    assert_eq!(r, show("1 + 1", "<\u{b7}2"));
    assert_eq!(s.mode(), PromptMode::Primary);
    assert_eq!(s.pending(), "");
    assert_eq!(s.prompt(), "> ");
}

#[test]
fn incomplete_input_moves_to_continuation() {
    let mut s = Session::new();
    let r = s.advance("1 +", Evaluation::Incomplete);
    assert_eq!(r, Reaction::More);
    assert_eq!(s.mode(), PromptMode::Continuation);
    assert_eq!(s.pending(), "1 +");
    assert_eq!(s.prompt(), ">> ");
}

#[test]
fn continuation_completes_with_the_next_line() {
    let lua = mlua::Lua::new();
    let mut s = Session::new();
    let mut h = DefaultHistory::new();
    assert_eq!(s.advance("1 +", Evaluation::Incomplete), Reaction::More);
    let r = s.step(&lua, &mut h, Some("1"));
    assert_eq!(r, show("1 +\n1", "<\u{b7}2"));
    assert_eq!(s.mode(), PromptMode::Primary);
    assert_eq!(s.pending(), "");
}

#[test]
fn interpreter_asks_for_more_after_an_open_assignment() {
    let lua = mlua::Lua::new();
    let mut s = Session::new();
    let mut h = DefaultHistory::new();
    assert_eq!(s.step(&lua, &mut h, Some("x = 1 +")), Reaction::More);
    assert_eq!(s.mode(), PromptMode::Continuation);
    assert_eq!(s.pending(), "x = 1 +");
    assert_eq!(s.prompt(), ">> ");
    assert_eq!(s.step(&lua, &mut h, Some("1")), show("x = 1 +\n1", "<\u{b7}"));
    assert_eq!(s.mode(), PromptMode::Primary);
    assert_eq!(s.step(&lua, &mut h, Some("x")), show("x", "<\u{b7}2"));
}

#[test]
fn continuation_can_span_several_lines() {
    let lua = mlua::Lua::new();
    let mut s = Session::new();
    let mut h = DefaultHistory::new();
    assert_eq!(s.step(&lua, &mut h, Some("function f(x)")), Reaction::More);
    assert_eq!(s.step(&lua, &mut h, Some("  return x * 2")), Reaction::More);
    assert_eq!(s.pending(), "function f(x)\n  return x * 2");
    assert_eq!(s.mode(), PromptMode::Continuation);
    let r = s.step(&lua, &mut h, Some("end"));
    assert_eq!(r, show("function f(x)\n  return x * 2\nend", "<\u{b7}"));
    assert_eq!(s.step(&lua, &mut h, Some("f(21)")), show("f(21)", "<\u{b7}42"));
}

#[test]
fn runtime_error_is_reported_and_clears_the_buffer() {
    let lua = mlua::Lua::new();
    let mut s = Session::new();
    let mut h = DefaultHistory::new();
    match s.step(&lua, &mut h, Some("error('boom')")) {
        Reaction::Report { line } => assert!(line.contains("boom"), "{}", line),
        other => panic!("unexpected {:?}", other),
    }
    assert_eq!(s.mode(), PromptMode::Primary);
    assert_eq!(s.pending(), "");
    assert_eq!(s.step(&lua, &mut h, Some("3")), show("3", "<\u{b7}3"));
}

#[test]
fn syntax_error_in_continuation_returns_to_primary() {
    let lua = mlua::Lua::new();
    let mut s = Session::new();
    let mut h = DefaultHistory::new();
    assert_eq!(s.step(&lua, &mut h, Some("x = (")), Reaction::More);
    match s.step(&lua, &mut h, Some(")")) {
        Reaction::Report { line } => assert!(line.starts_with("syntax error"), "{}", line),
        other => panic!("unexpected {:?}", other),
    }
    assert_eq!(s.mode(), PromptMode::Primary);
    assert_eq!(s.pending(), "");
}

#[test]
fn end_of_input_stops_in_either_mode() {
    let lua = mlua::Lua::new();
    let mut s = Session::new();
    let mut h = DefaultHistory::new();
    assert_eq!(s.step(&lua, &mut h, None), Reaction::Stop);
    assert_eq!(s.mode(), PromptMode::Primary);
    assert_eq!(s.step(&lua, &mut h, Some("x = 1 +")), Reaction::More);
    assert_eq!(s.step(&lua, &mut h, None), Reaction::Stop);
    assert_eq!(s.mode(), PromptMode::Continuation);
    assert_eq!(s.pending(), "x = 1 +");
}

#[test]
fn interpreter_state_lasts_across_inputs() {
    let lua = mlua::Lua::new();
    let mut s = Session::new();
    let mut h = DefaultHistory::new();
    assert_eq!(s.step(&lua, &mut h, Some("x = 41")), show("x = 41", "<\u{b7}"));
    assert_eq!(s.step(&lua, &mut h, Some("x + 1")), show("x + 1", "<\u{b7}42"));
}

#[test]
fn several_values_are_joined() {
    let lua = mlua::Lua::new();
    let mut s = Session::new();
    let mut h = DefaultHistory::new();
    assert_eq!(
        s.step(&lua, &mut h, Some("1, 'a', nil, true")),
        show("1, 'a', nil, true", "<\u{b7}1    \"a\"    nil    true")
    );
}

#[test]
fn empty_line_evaluates_to_no_values() {
    let lua = mlua::Lua::new();
    let mut s = Session::new();
    let mut h = DefaultHistory::new();
    assert_eq!(s.step(&lua, &mut h, Some("")), show("", "<\u{b7}"));
    assert_eq!(s.mode(), PromptMode::Primary);
}

#[test]
fn chunk_joins_pending_and_line_with_a_line_break() {
    let mut s = Session::new();
    assert_eq!(s.chunk("a"), "a");
    assert_eq!(s.advance("a", Evaluation::Incomplete), Reaction::More);
    assert_eq!(s.chunk("b"), "a\nb");
    assert_eq!(s.advance("b", Evaluation::Incomplete), Reaction::More);
    assert_eq!(s.chunk(""), "a\nb\n");
    assert_eq!(s.pending(), "a\nb");
}

#[test]
fn advance_follows_the_outcome() {
    let mut s = Session::new();
    let values = Evaluation::Values(vec!["1".to_string(), "2".to_string()]);
    assert_eq!(s.advance("x", values), show("x", "<\u{b7}1    2"));
    assert_eq!(s.mode(), PromptMode::Primary);

    assert_eq!(s.advance("if x then", Evaluation::Incomplete), Reaction::More);
    assert_eq!(s.mode(), PromptMode::Continuation);
    assert_eq!(s.pending(), "if x then");

    let failed = Evaluation::Failed("no good".to_string());
    assert_eq!(s.advance("end end", failed), Reaction::Report { line: "no good".to_string() });
    assert_eq!(s.mode(), PromptMode::Primary);
    assert_eq!(s.pending(), "");

    assert_eq!(s.advance("y", Evaluation::Values(vec![])), show("y", "<\u{b7}"));
}

#[test]
fn incomplete_empty_input_keeps_nothing_pending() {
    let mut s = Session::new();
    assert_eq!(s.advance("", Evaluation::Incomplete), Reaction::More);
    assert_eq!(s.mode(), PromptMode::Continuation);
    assert_eq!(s.pending(), "");
    assert_eq!(s.chunk("z"), "z");
}

#[test]
fn evaluate_sorts_outcomes() {
    let lua = mlua::Lua::new();
    assert_eq!(evaluate(&lua, "1 + 1"), Evaluation::Values(vec!["2".to_string()]));
    assert_eq!(evaluate(&lua, "return 7, 8"), Evaluation::Values(vec![
        "7".to_string(),
        "8".to_string(),
    ]));
    assert_eq!(evaluate(&lua, "local t = 0"), Evaluation::Values(vec![]));
    assert_eq!(evaluate(&lua, "x = 1 +"), Evaluation::Incomplete);
    assert_eq!(evaluate(&lua, "return 1 +"), Evaluation::Incomplete);
    assert_eq!(evaluate(&lua, "for i = 1, 2 do"), Evaluation::Incomplete);
    match evaluate(&lua, "1 )") {
        Evaluation::Failed(message) => assert!(message.starts_with("syntax error"), "{}", message),
        other => panic!("unexpected {:?}", other),
    }
    match evaluate(&lua, "nil + 1") {
        Evaluation::Failed(message) => assert!(message.starts_with("runtime error"), "{}", message),
        other => panic!("unexpected {:?}", other),
    }
}

#[test]
fn bare_expression_cut_short_is_a_syntax_error() {
    let lua = mlua::Lua::new();
    match evaluate(&lua, "1 +") {
        Evaluation::Failed(message) => assert!(message.starts_with("syntax error"), "{}", message),
        other => panic!("unexpected {:?}", other),
    }
    let mut s = Session::new();
    let mut h = DefaultHistory::new();
    match s.step(&lua, &mut h, Some("1 +")) {
        Reaction::Report { line } => assert!(line.starts_with("syntax error"), "{}", line),
        other => panic!("unexpected {:?}", other),
    }
    assert_eq!(s.mode(), PromptMode::Primary);
    assert_eq!(s.pending(), "");
}

#[test]
fn renders_values_in_order() {
    let values = vec![
        mlua::Value::Integer(2),
        mlua::Value::Nil,
        mlua::Value::Boolean(true),
        mlua::Value::Boolean(false),
        mlua::Value::Integer(-5),
    ];
    assert_eq!(render_values(&values), vec!["2", "nil", "true", "false", "-5"]);
    assert_eq!(render_values(&Vec::new()), Vec::<String>::new());
}

#[test]
fn renders_strings_quoted() {
    let lua = mlua::Lua::new();
    let text = lua.create_string("hi").unwrap();
    assert_eq!(render_values(&vec![mlua::Value::String(text)]), vec!["\"hi\""]);
}

#[test]
fn inputs_that_ran_are_recorded_in_the_history() {
    let lua = mlua::Lua::new();
    let mut s = Session::new();
    let mut h = DefaultHistory::new();
    assert_eq!(entries(&h), Vec::<String>::new());
    s.step(&lua, &mut h, Some("1 + 1"));
    assert_eq!(entries(&h), vec!["1 + 1"]);
    s.step(&lua, &mut h, Some("x = 1 +"));
    assert_eq!(entries(&h), vec!["1 + 1"]);
    s.step(&lua, &mut h, Some("2"));
    assert_eq!(entries(&h), vec!["1 + 1", "x = 1 +\n2"]);
}

#[test]
fn failed_inputs_are_not_recorded() {
    let lua = mlua::Lua::new();
    let mut s = Session::new();
    let mut h = DefaultHistory::new();
    s.step(&lua, &mut h, Some("error('no')"));
    s.step(&lua, &mut h, Some("1 )"));
    s.step(&lua, &mut h, None);
    assert_eq!(entries(&h), Vec::<String>::new());
}

#[test]
fn history_ignores_empty_and_repeated_inputs() {
    let lua = mlua::Lua::new();
    let mut s = Session::new();
    let mut h = DefaultHistory::new();
    assert_eq!(s.step(&lua, &mut h, Some("")), show("", "<\u{b7}"));
    assert_eq!(entries(&h), Vec::<String>::new());
    s.step(&lua, &mut h, Some("7"));
    s.step(&lua, &mut h, Some("7"));
    assert_eq!(entries(&h), vec!["7"]);
    s.step(&lua, &mut h, Some("8"));
    s.step(&lua, &mut h, Some("7"));
    assert_eq!(entries(&h), vec!["7", "8", "7"]);
}

#[test]
fn full_history_drops_its_oldest_entry() {
    let lua = mlua::Lua::new();
    let mut s = Session::new();
    let mut h = DefaultHistory::new();
    h.set_max_len(2).unwrap();
    s.step(&lua, &mut h, Some("1"));
    s.step(&lua, &mut h, Some("2"));
    assert_eq!(entries(&h), vec!["1", "2"]);
    s.step(&lua, &mut h, Some("3"));
    assert_eq!(entries(&h), vec!["2", "3"]);
}

#[test]
fn classify_sorts_values_and_faults() {
    assert_eq!(
        classify(Ok(vec!["1".to_string(), "2".to_string()])),
        Evaluation::Values(vec!["1".to_string(), "2".to_string()])
    );
    assert_eq!(classify(Ok(vec![])), Evaluation::Values(vec![]));
    let open = Fault { incomplete: true, message: "near <eof>".to_string() };
    assert_eq!(classify(Err(open)), Evaluation::Incomplete);
    let broken = Fault { incomplete: false, message: "near ')'".to_string() };
    assert_eq!(classify(Err(broken)), Evaluation::Failed("near ')'".to_string()));
}
