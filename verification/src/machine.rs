//! The machine: an immutable transition table, the small-step semantics it
//! induces on configurations, and the run loop that drives a tape to a
//! halting configuration.
//!
//! The machine halts exactly when no transition matches the current
//! (state, symbol) pair; there is no designated halt state. A state of the
//! accepting set is therefore not automatically halting: acceptance is
//! evaluated only once no rule applies.

use vstd::prelude::*;

use crate::tape::Move;
use crate::tape::Symbol;
use crate::tape::Tape;
use crate::tape::TapeV;
use crate::tape::init_cells;
use crate::tape::move_spec;
use crate::tape::symbols_of;
use crate::tape::write_spec;

verus! {

/// A state identifier: an opaque, comparable name with no structural
/// meaning beyond identity.
pub type State = &'static str;

/// The mathematical value of a transition: the rule
/// `(read_state, read_symbol) -> (write_state, write_symbol, mov)`,
/// with states as their character sequences.
pub struct TransitionV {
    pub read_state: Seq<char>,
    pub read_symbol: Symbol,
    pub write_state: Seq<char>,
    pub write_symbol: Symbol,
    pub mov: Move,
}

/// An immutable rule: in state `read_state` reading `read_symbol`, enter
/// `write_state`, write `write_symbol`, then move the head by `mov`.
#[derive(Debug, Clone)]
pub struct Transition {
    pub read_state: State,
    pub read_symbol: Symbol,
    pub write_state: State,
    pub write_symbol: Symbol,
    pub mov: Move,
}

impl View for Transition {
    type V = TransitionV;

    open spec fn view(&self) -> TransitionV {
        TransitionV {
            read_state: self.read_state@,
            read_symbol: self.read_symbol,
            write_state: self.write_state@,
            write_symbol: self.write_symbol,
            mov: self.mov,
        }
    }
}

impl Transition {
    pub fn new(
        read_state: State,
        read_symbol: Symbol,
        write_state: State,
        write_symbol: Symbol,
        mov: Move,
    ) -> (t: Transition)
        ensures
            t.read_state == read_state,
            t.read_symbol == read_symbol,
            t.write_state == write_state,
            t.write_symbol == write_symbol,
            t.mov == mov,
    {
        Transition { read_state, read_symbol, write_state, write_symbol, mov }
    }
}

/// The mathematical value of a machine description.
pub struct TmV {
    pub states: Seq<Seq<char>>,
    pub alphabet: Seq<Symbol>,
    pub initial_state: Seq<char>,
    pub final_states: Seq<Seq<char>>,
    pub transitions: Seq<TransitionV>,
}

/// An immutable machine description: states, alphabet, initial state,
/// accepting states and the ordered transition list. The state set and
/// alphabet are descriptive only: the engine does not check that referenced
/// states or symbols belong to them.
#[derive(Debug)]
pub struct Tm {
    pub states: Vec<State>,
    pub alphabet: Vec<Symbol>,
    pub initial_state: State,
    pub final_states: Vec<State>,
    pub transitions: Vec<Transition>,
}

impl View for Tm {
    type V = TmV;

    open spec fn view(&self) -> TmV {
        TmV {
            states: self.states@.map_values(|s: State| s@),
            alphabet: self.alphabet@,
            initial_state: self.initial_state@,
            final_states: self.final_states@.map_values(|s: State| s@),
            transitions: self.transitions@.map_values(|t: Transition| t@),
        }
    }
}

/// Whether transition `t` applies to the pair `(state, symbol)`.
pub open spec fn tr_matches(t: TransitionV, state: Seq<char>, symbol: Symbol) -> bool {
    t.read_state == state && t.read_symbol == symbol
}

/// The first transition at or after position `i` that matches
/// `(state, symbol)`, in table order.
pub open spec fn lookup_from(
    ts: Seq<TransitionV>,
    i: int,
    state: Seq<char>,
    symbol: Symbol,
) -> Option<TransitionV>
    decreases ts.len() - i,
{
    if i < 0 || i >= ts.len() {
        None
    } else if tr_matches(ts[i], state, symbol) {
        Some(ts[i])
    } else {
        lookup_from(ts, i + 1, state, symbol)
    }
}

/// The first matching transition of the whole table; `None` is the halting
/// signal.
pub open spec fn spec_lookup(ts: Seq<TransitionV>, state: Seq<char>, symbol: Symbol) -> Option<
    TransitionV,
> {
    lookup_from(ts, 0, state, symbol)
}

/// A configuration of a run: the current state and the tape.
pub struct Config {
    pub state: Seq<char>,
    pub tape: TapeV,
}

/// The configuration a transition produces: enter its write state, write its
/// symbol under the head, then apply its move.
pub open spec fn apply_transition(t: TransitionV, c: Config) -> Config {
    Config { state: t.write_state, tape: move_spec(write_spec(c.tape, t.write_symbol), t.mov) }
}

/// One step of the machine: the first matching transition applied to the
/// configuration, or `None` when the machine halts.
pub open spec fn spec_step(m: TmV, c: Config) -> Option<Config> {
    match spec_lookup(m.transitions, c.state, c.tape.cells[c.tape.head]) {
        None => None,
        Some(t) => Some(apply_transition(t, c)),
    }
}

/// A configuration is halted when no transition matches it.
pub open spec fn is_halted(m: TmV, c: Config) -> bool {
    spec_step(m, c) is None
}

/// `n` steps of the machine from `c`; a halted configuration stays as it is.
pub open spec fn steps(m: TmV, c: Config, n: nat) -> Config
    decreases n,
{
    if n == 0 {
        c
    } else {
        match spec_step(m, c) {
            None => c,
            Some(c2) => steps(m, c2, (n - 1) as nat),
        }
    }
}

/// The starting configuration for an input: the initial state, the input's
/// characters on the tape, the head on the first cell.
pub open spec fn init_config(m: TmV, input: Seq<char>) -> Config {
    Config { state: m.initial_state, tape: TapeV { cells: init_cells(input), head: 0 } }
}

/// The machine reaches a halted configuration from the input in finitely
/// many steps.
pub open spec fn halts(m: TmV, input: Seq<char>) -> bool {
    exists|n: nat| is_halted(m, steps(m, init_config(m, input), n))
}

/// The state is one of the machine's accepting states.
pub open spec fn accepts(m: TmV, state: Seq<char>) -> bool {
    m.final_states.contains(state)
}

/// Unrolling one step at the back: `n + 1` steps are `n` steps followed by
/// one step (or nothing, once halted).
pub proof fn lemma_steps_extend(m: TmV, c: Config, n: nat)
    ensures
        steps(m, c, n + 1) == match spec_step(m, steps(m, c, n)) {
            None => steps(m, c, n),
            Some(c2) => c2,
        },
    decreases n,
{
    if n == 0 {
        match spec_step(m, c) {
            None => {
                assert(steps(m, c, 1) == c);
            },
            Some(c2) => {
                assert(steps(m, c, 1) == steps(m, c2, 0));
                assert(steps(m, c2, 0) == c2);
            },
        }
    } else {
        match spec_step(m, c) {
            None => {
                assert(steps(m, c, n + 1) == c);
                assert(steps(m, c, n) == c);
            },
            Some(c2) => {
                lemma_steps_extend(m, c2, (n - 1) as nat);
                assert(steps(m, c, n + 1) == steps(m, c2, n));
                assert(steps(m, c, n) == steps(m, c2, (n - 1) as nat));
            },
        }
    }
}

/// Once halted, the configuration never changes again.
pub proof fn lemma_halted_absorbs(m: TmV, c: Config, n: nat, k: nat)
    requires
        is_halted(m, steps(m, c, n)),
        n <= k,
    ensures
        steps(m, c, k) == steps(m, c, n),
    decreases k - n,
{
    if k > n {
        lemma_halted_absorbs(m, c, n, (k - 1) as nat);
        lemma_steps_extend(m, c, (k - 1) as nat);
    }
}

/// Law: execution is deterministic — from one starting configuration there
/// is exactly one halted configuration, whatever number of steps reaches it.
/// In particular, two runs of one machine description on one input agree,
/// and a run's outcome depends on nothing but the machine and the input.
pub proof fn lemma_run_deterministic(m: TmV, c: Config, n1: nat, n2: nat)
    requires
        is_halted(m, steps(m, c, n1)),
        is_halted(m, steps(m, c, n2)),
    ensures
        steps(m, c, n1) == steps(m, c, n2),
{
    if n1 <= n2 {
        lemma_halted_absorbs(m, c, n1, n2);
    } else {
        lemma_halted_absorbs(m, c, n2, n1);
    }
}

/// Law: a machine whose initial state has no transition for the input's
/// first symbol halts immediately — every configuration of the run is the
/// starting one, so the run ends in the initial state and the verdict is
/// decided by the initial state alone.
pub proof fn lemma_nonmatching_start(m: TmV, input: Seq<char>)
    requires
        spec_lookup(m.transitions, m.initial_state, init_cells(input)[0]) is None,
    ensures
        halts(m, input),
        is_halted(m, init_config(m, input)),
        forall|n: nat| steps(m, init_config(m, input), n) == init_config(m, input),
{
    let c0 = init_config(m, input);
    assert(is_halted(m, steps(m, c0, 0)));
    assert forall|n: nat| steps(m, c0, n) == c0 by {
        lemma_halted_absorbs(m, c0, 0, n);
    }
}

/// Relies on `str`'s `PartialEq`: two string slices are equal exactly when
/// their character sequences are equal.
#[verifier::external_body]
fn state_eq(a: &str, b: &str) -> (r: bool)
    ensures
        r == (a@ == b@),
{
    a == b
}

/// Whether `state` occurs in `states`, by name.
fn contains_state(states: &Vec<State>, state: State) -> (r: bool)
    ensures
        r == states@.map_values(|s: State| s@).contains(state@),
{
    let ghost names = states@.map_values(|s: State| s@);
    let n = states.len();
    let mut i: usize = 0;
    while i < n
        invariant
            i <= n,
            n == states@.len(),
            names == states@.map_values(|s: State| s@),
            forall|j: int| 0 <= j < i ==> names[j] != state@,
        decreases n - i,
    {
        if state_eq(states[i], state) {
            proof {
                assert(names[i as int] == state@);
            }
            return true;
        }
        i = i + 1;
    }
    false
}

impl Tm {
    /// A machine description from its parts; the alphabet is given as text
    /// and normalized into concrete symbols.
    pub fn new(
        states: Vec<State>,
        alphabet: &str,
        initial_state: State,
        final_states: Vec<State>,
        transitions: Vec<Transition>,
    ) -> (tm: Tm)
        ensures
            tm@.states == states@.map_values(|s: State| s@),
            tm@.alphabet == symbols_of(alphabet@),
            tm@.initial_state == initial_state@,
            tm@.final_states == final_states@.map_values(|s: State| s@),
            tm@.transitions == transitions@.map_values(|t: Transition| t@),
    {
        let alphabet: Vec<Symbol> = crate::tape::symbols_from_str(alphabet);
        Tm { states, transitions, final_states, initial_state, alphabet }
    }

    /// The first transition of the table matching `(state, sym)`, in table
    /// order; `None` signals that the machine halts in this configuration.
    pub fn get_transition(&self, state: State, sym: Symbol) -> (r: Option<&Transition>)
        ensures
            match r {
                Some(t) => spec_lookup(self@.transitions, state@, sym) == Some(t@),
                None => spec_lookup(self@.transitions, state@, sym) is None,
            },
    {
        let ghost ts = self@.transitions;
        let n = self.transitions.len();
        let mut i: usize = 0;
        while i < n
            invariant
                i <= n,
                n == self.transitions@.len(),
                ts == self@.transitions,
                spec_lookup(ts, state@, sym) == lookup_from(ts, i as int, state@, sym),
            decreases n - i,
        {
            let t = &self.transitions[i];
            let matches_here = state_eq(t.read_state, state) && t.read_symbol == sym;
            if matches_here {
                return Some(t);
            }
            i = i + 1;
        }
        None
    }
}

/// The terminal snapshot of a run: the final tape, the final state, and
/// whether that state is accepting.
#[derive(Debug, Clone)]
pub struct TmResult {
    pub tape: Tape,
    pub accepted: bool,
    pub state: State,
}

/// The configuration a result snapshot stands for.
pub open spec fn config_of(r: TmResult) -> Config {
    Config { state: r.state@, tape: r.tape@ }
}

impl TmResult {
    /// A snapshot of a tape and a state, not yet judged accepting.
    pub fn new(tape: Tape, state: State) -> (r: TmResult)
        ensures
            r.tape == tape,
            r.state == state,
            r.accepted == false,
    {
        TmResult { tape, state, accepted: false }
    }
}

/// Runs the machine on the input until no transition matches, then judges
/// the halting state against the accepting set.
///
/// The engine provides no step bound, so it requires that the machine halt
/// on this input; the result is the unique halted configuration that the
/// deterministic step sequence reaches, with the verdict true exactly when
/// the final state is an accepting state.
pub fn execute_tm(tm: &Tm, inp: &str) -> (result: TmResult)
    requires
        halts(tm@, inp@),
    ensures
        result.tape.wf(),
        is_halted(tm@, config_of(result)),
        exists|n: nat| steps(tm@, init_config(tm@, inp@), n) == config_of(result),
        forall|n: nat|
            is_halted(tm@, steps(tm@, init_config(tm@, inp@), n)) ==> steps(
                tm@,
                init_config(tm@, inp@),
                n,
            ) == config_of(result),
        result.accepted == accepts(tm@, result.state@),
{
    let tape = Tape::new(inp);
    let mut result = TmResult::new(tape, tm.initial_state);
    let ghost c0 = init_config(tm@, inp@);
    let ghost fuel = choose|n: nat| is_halted(tm@, steps(tm@, c0, n));
    let ghost mut i: nat = 0;

    proof {
        assert(config_of(result) == c0);
    }

    loop
        invariant
            result.tape.wf(),
            result.accepted == false,
            config_of(result) == steps(tm@, c0, i),
            is_halted(tm@, steps(tm@, c0, fuel)),
            i <= fuel,
        ensures
            result.tape.wf(),
            result.accepted == false,
            config_of(result) == steps(tm@, c0, i),
            is_halted(tm@, config_of(result)),
        decreases fuel - i,
    {
        let sym = result.tape.focus();
        let t_opt = tm.get_transition(result.state, sym);
        match t_opt {
            None => {
                break;
            },
            Some(t) => {
                proof {
                    if i >= fuel {
                        lemma_halted_absorbs(tm@, c0, fuel, i);
                        assert(false);
                    }
                    lemma_steps_extend(tm@, c0, i);
                }
                result.state = t.write_state;
                result.tape.write(t.write_symbol);
                match t.mov {
                    Move::Left => result.tape.move_left(),
                    Move::Right => result.tape.move_right(),
                    Move::Stay => {},
                }
                proof {
                    i = i + 1;
                }
            },
        }
    }

    if contains_state(&tm.final_states, result.state) {
        result.accepted = true;
    }

    proof {
        assert(steps(tm@, c0, i) == config_of(result));
        assert forall|n: nat| is_halted(tm@, steps(tm@, c0, n)) implies steps(tm@, c0, n)
            == config_of(result) by {
            lemma_run_deterministic(tm@, c0, n, i);
        }
    }
    result
}

} // verus!
