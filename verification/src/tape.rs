//! The tape: a conceptually bi-infinite sequence of symbols with a read/write
//! head, represented as a finite vector that grows by one blank cell whenever
//! the head crosses either boundary.

use vstd::prelude::*;
use vstd::string::*;

verus! {

/// One tape cell: a concrete character of the alphabet, or the distinguished
/// blank marker standing for an untouched cell.
#[derive(Debug, Clone, Copy, PartialEq, Eq, Structural)]
pub enum Symbol {
    Sym(char),
    Blank,
}

/// The head displacement a transition produces.
#[derive(Debug, Clone, Copy, PartialEq, Eq, Structural)]
pub enum Move {
    Left,
    Right,
    Stay,
}

/// The concrete symbol for character `c`.
pub open spec fn sym(c: char) -> Symbol {
    Symbol::Sym(c)
}

/// One concrete symbol per character of `cs`, in order.
pub open spec fn symbols_of(cs: Seq<char>) -> Seq<Symbol> {
    Seq::new(cs.len(), |i: int| sym(cs[i]))
}

/// The initial cells of a tape built from `input`: its characters, or a
/// single blank cell when the input is empty, so the head always starts on a
/// valid cell.
pub open spec fn init_cells(input: Seq<char>) -> Seq<Symbol> {
    if input.len() == 0 {
        seq![Symbol::Blank]
    } else {
        symbols_of(input)
    }
}

/// `n` blank cells.
pub open spec fn blanks(n: nat) -> Seq<Symbol> {
    Seq::new(n, |i: int| Symbol::Blank)
}

/// The mathematical value of a tape: its cells and the head position.
pub struct TapeV {
    pub cells: Seq<Symbol>,
    pub head: int,
}

impl TapeV {
    /// The head always refers to a valid cell of the backing storage.
    pub open spec fn wf(self) -> bool {
        0 <= self.head < self.cells.len()
    }
}

/// What a leftward move does: at the left boundary the tape grows by one
/// blank cell at the front and the head stays on it; elsewhere the head
/// retreats by one.
pub open spec fn move_left_spec(t: TapeV) -> TapeV {
    if t.head == 0 {
        TapeV { cells: seq![Symbol::Blank] + t.cells, head: 0 }
    } else {
        TapeV { cells: t.cells, head: t.head - 1 }
    }
}

/// What a rightward move does: when the head would land at or beyond the end
/// of the backing storage, one blank cell is appended first, so the head is
/// valid again after every move.
pub open spec fn move_right_spec(t: TapeV) -> TapeV {
    if t.head + 1 >= t.cells.len() {
        TapeV { cells: t.cells.push(Symbol::Blank), head: t.head + 1 }
    } else {
        TapeV { cells: t.cells, head: t.head + 1 }
    }
}

/// What a write does: exactly the cell under the head changes.
pub open spec fn write_spec(t: TapeV, sym: Symbol) -> TapeV {
    TapeV { cells: t.cells.update(t.head, sym), head: t.head }
}

/// One head displacement applied to a tape value.
pub open spec fn move_spec(t: TapeV, m: Move) -> TapeV {
    match m {
        Move::Left => move_left_spec(t),
        Move::Right => move_right_spec(t),
        Move::Stay => t,
    }
}

/// The machine's storage: a finite vector of cells plus the head index,
/// growing on demand so the index is always in bounds.
#[derive(Debug, Clone)]
pub struct Tape {
    tape: Vec<Symbol>,
    index: usize,
}

impl View for Tape {
    type V = TapeV;

    closed spec fn view(&self) -> TapeV {
        TapeV { cells: self.tape@, head: self.index as int }
    }
}

/// The characters of `s` as concrete symbols, in order.
pub(crate) fn symbols_from_str(s: &str) -> (v: Vec<Symbol>)
    ensures
        v@ == symbols_of(s@),
{
    let n = s.unicode_len();
    let mut v: Vec<Symbol> = Vec::new();
    let mut i: usize = 0;
    while i < n
        invariant
            i <= n,
            n == s@.len(),
            v@.len() == i,
            forall|j: int| 0 <= j < i ==> v@[j] == sym(s@[j]),
        decreases n - i,
    {
        v.push(Symbol::Sym(s.get_char(i)));
        i = i + 1;
    }
    proof {
        assert(v@ =~= symbols_of(s@));
    }
    v
}

impl Tape {
    pub open spec fn wf(self) -> bool {
        self@.wf()
    }

    /// A fresh tape holding the input's characters, the head on the first
    /// cell; an empty input yields a single blank cell.
    pub fn new(inp: &str) -> (t: Tape)
        ensures
            t.wf(),
            t@.cells == init_cells(inp@),
            t@.head == 0,
    {
        let mut cells = symbols_from_str(inp);
        if cells.len() == 0 {
            cells.push(Symbol::Blank);
            proof {
                assert(cells@ =~= init_cells(inp@));
            }
        }
        Tape { tape: cells, index: 0 }
    }

    /// The symbol under the head. No side effect: without an intervening
    /// write or move, every call returns the same symbol.
    pub fn focus(&self) -> (sym: Symbol)
        requires
            self.wf(),
        ensures
            sym == self@.cells[self@.head],
    {
        self.tape[self.index]
    }

    /// Overwrites the cell under the head; no other cell changes and the
    /// head does not move.
    pub fn write(&mut self, sym: Symbol)
        requires
            old(self).wf(),
        ensures
            final(self).wf(),
            final(self)@ == write_spec(old(self)@, sym),
    {
        let i = self.index;
        self.tape[i] = sym;
    }

    /// Moves the head one cell to the left, extending the tape by one blank
    /// cell at the front when the head is at the left boundary.
    pub fn move_left(&mut self)
        requires
            old(self).wf(),
        ensures
            final(self).wf(),
            final(self)@ == move_left_spec(old(self)@),
    {
        if self.index == 0 {
            self.tape.insert(0, Symbol::Blank);
            proof {
                assert(self@.cells =~= seq![Symbol::Blank] + old(self)@.cells);
            }
        } else {
            self.index = self.index - 1;
        }
    }

    /// Moves the head one cell to the right, appending one blank cell when
    /// the head would otherwise leave the backing storage.
    pub fn move_right(&mut self)
        requires
            old(self).wf(),
        ensures
            final(self).wf(),
            final(self)@ == move_right_spec(old(self)@),
    {
        let n = self.tape.len();
        if self.index >= n - 1 {
            self.tape.push(Symbol::Blank);
        }
        self.index = self.index + 1;
    }
}

/// A sequence of head displacements applied in order.
pub open spec fn apply_moves(t: TapeV, ms: Seq<Move>) -> TapeV
    decreases ms.len(),
{
    if ms.len() == 0 {
        t
    } else {
        apply_moves(move_spec(t, ms[0]), ms.drop_first())
    }
}

/// Law: after any sequence of moves on a well-formed tape, the head is still
/// a valid position of the backing storage, and every implicitly created
/// cell is blank — the cells are the original ones, padded with blanks at
/// the ends.
pub proof fn lemma_moves_keep_tape_valid(t: TapeV, ms: Seq<Move>)
    requires
        t.wf(),
    ensures
        apply_moves(t, ms).wf(),
        exists|a: nat, b: nat| apply_moves(t, ms).cells == blanks(a) + t.cells + blanks(b),
    decreases ms.len(),
{
    if ms.len() == 0 {
        assert(apply_moves(t, ms).cells =~= blanks(0) + t.cells + blanks(0));
    } else {
        let t1 = move_spec(t, ms[0]);
        let ghost (a1, b1): (nat, nat) = match ms[0] {
            Move::Left => if t.head == 0 { (1nat, 0nat) } else { (0nat, 0nat) },
            Move::Right => if t.head + 1 >= t.cells.len() { (0nat, 1nat) } else { (0nat, 0nat) },
            Move::Stay => (0nat, 0nat),
        };
        assert(t1.wf());
        assert(t1.cells =~= blanks(a1) + t.cells + blanks(b1));
        lemma_moves_keep_tape_valid(t1, ms.drop_first());
        let (a2, b2) = choose|a2: nat, b2: nat|
            apply_moves(t1, ms.drop_first()).cells == blanks(a2) + t1.cells + blanks(b2);
        assert(apply_moves(t, ms).cells =~= blanks((a2 + a1) as nat) + t.cells + blanks(
            (b1 + b2) as nat,
        ));
    }
}

} // verus!
