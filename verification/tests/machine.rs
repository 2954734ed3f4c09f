use turing::Move;
use turing::Symbol;
use turing::Tape;
use turing::Tm;
use turing::TmResult;
use turing::Transition;
use turing::execute_tm;

fn example_machine() -> Tm {
    let states = vec!["q1", "q2", "q3", "q4", "q5"];
    let alphabet = "ab";
    let initial_state = "q1";
    let final_states = vec!["q5"];
    let transitions = vec![
        Transition::new("q1", Symbol::Sym('a'), "q2", Symbol::Sym('a'), Move::Left),
        Transition::new("q2", Symbol::Blank, "q3", Symbol::Blank, Move::Left),
        Transition::new("q3", Symbol::Blank, "q4", Symbol::Blank, Move::Left),
        Transition::new("q4", Symbol::Blank, "q5", Symbol::Sym('b'), Move::Stay),
    ];
    Tm::new(states, alphabet, initial_state, final_states, transitions)
}

#[test]
fn example_machine_accepts_ab() {
    let tm = example_machine();
    let result = execute_tm(&tm, "ab");
    assert!(result.accepted);
    assert_eq!(result.state, "q5");
    assert_eq!(result.tape.focus(), Symbol::Sym('b'));
}

#[test]
fn alphabet_is_normalized_into_symbols() {
    let tm = example_machine();
    assert_eq!(tm.alphabet, vec![Symbol::Sym('a'), Symbol::Sym('b')]);
}

#[test]
fn lookup_returns_the_first_match_in_table_order() {
    let transitions = vec![
        Transition::new("q1", Symbol::Sym('a'), "q2", Symbol::Sym('x'), Move::Stay),
        Transition::new("q1", Symbol::Sym('a'), "q3", Symbol::Sym('y'), Move::Stay),
    ];
    let tm = Tm::new(vec!["q1", "q2", "q3"], "axy", "q1", vec![], transitions);
    let t = tm.get_transition("q1", Symbol::Sym('a')).expect("a rule matches");
    assert_eq!(t.write_state, "q2");
    assert_eq!(t.write_symbol, Symbol::Sym('x'));
}

#[test]
fn lookup_returns_none_when_nothing_matches() {
    let tm = example_machine();
    assert!(tm.get_transition("q5", Symbol::Sym('a')).is_none());
    assert!(tm.get_transition("q1", Symbol::Sym('b')).is_none());
}

#[test]
fn nonmatching_start_halts_in_rejecting_initial_state() {
    let tm = example_machine();
    let result = execute_tm(&tm, "ba");
    assert!(!result.accepted);
    assert_eq!(result.state, "q1");
    assert_eq!(result.tape.focus(), Symbol::Sym('b'));
}

#[test]
fn nonmatching_start_halts_in_accepting_initial_state() {
    let transitions = vec![
        Transition::new("q1", Symbol::Sym('a'), "q2", Symbol::Sym('a'), Move::Right),
    ];
    let tm = Tm::new(vec!["q1", "q2"], "ab", "q1", vec!["q1"], transitions);
    let result = execute_tm(&tm, "b");
    assert!(result.accepted);
    assert_eq!(result.state, "q1");
}

#[test]
fn machine_can_be_reused_without_state_leaking_between_runs() {
    let tm = example_machine();
    let first = execute_tm(&tm, "ab");
    assert!(first.accepted);
    assert_eq!(first.tape.focus(), Symbol::Sym('b'));
    let second = execute_tm(&tm, "ba");
    assert!(!second.accepted);
    assert_eq!(second.state, "q1");
    assert_eq!(second.tape.focus(), Symbol::Sym('b'));
    let again = execute_tm(&tm, "ab");
    assert!(again.accepted);
    assert_eq!(again.state, first.state);
    assert_eq!(again.tape.focus(), first.tape.focus());
}

#[test]
fn run_writes_symbols_onto_the_tape() {
    let transitions = vec![
        Transition::new("s", Symbol::Sym('a'), "s", Symbol::Sym('b'), Move::Right),
    ];
    let tm = Tm::new(vec!["s"], "ab", "s", vec!["s"], transitions);
    let result = execute_tm(&tm, "aaa");
    assert!(result.accepted);
    assert_eq!(result.state, "s");
    let mut tape = result.tape.clone();
    tape.move_left();
    assert_eq!(tape.focus(), Symbol::Sym('b'));
    tape.move_left();
    assert_eq!(tape.focus(), Symbol::Sym('b'));
    tape.move_left();
    assert_eq!(tape.focus(), Symbol::Sym('b'));
}

#[test]
fn empty_input_starts_on_a_blank_cell() {
    let transitions = vec![
        Transition::new("q1", Symbol::Blank, "q2", Symbol::Sym('c'), Move::Stay),
    ];
    let tm = Tm::new(vec!["q1", "q2"], "c", "q1", vec!["q2"], transitions);
    let result = execute_tm(&tm, "");
    assert!(result.accepted);
    assert_eq!(result.state, "q2");
    assert_eq!(result.tape.focus(), Symbol::Sym('c'));
}

#[test]
fn accepting_state_is_not_automatically_halting() {
    // The machine passes through the accepting state and keeps running; the
    // verdict is judged only where it finally halts.
    let transitions = vec![
        Transition::new("q1", Symbol::Sym('a'), "acc", Symbol::Sym('a'), Move::Right),
        Transition::new("acc", Symbol::Sym('b'), "q3", Symbol::Sym('b'), Move::Right),
    ];
    let tm = Tm::new(vec!["q1", "acc", "q3"], "ab", "q1", vec!["acc"], transitions);
    let result = execute_tm(&tm, "ab");
    assert!(!result.accepted);
    assert_eq!(result.state, "q3");
}

#[test]
fn result_snapshot_starts_unaccepted() {
    let r = TmResult::new(Tape::new("a"), "q1");
    assert!(!r.accepted);
    assert_eq!(r.state, "q1");
    assert_eq!(r.tape.focus(), Symbol::Sym('a'));
}
