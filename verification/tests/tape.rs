use turing::Move;
use turing::Symbol;
use turing::Tape;

#[test]
fn new_tape_reads_first_character() {
    let t = Tape::new("ab");
    assert_eq!(t.focus(), Symbol::Sym('a'));
}

#[test]
fn new_tape_on_empty_input_is_one_blank_cell() {
    let t = Tape::new("");
    assert_eq!(t.focus(), Symbol::Blank);
}

#[test]
fn focus_is_idempotent() {
    let t = Tape::new("xyz");
    let first = t.focus();
    let second = t.focus();
    let third = t.focus();
    assert_eq!(first, second);
    assert_eq!(second, third);
}

#[test]
fn write_overwrites_exactly_the_focused_cell() {
    let mut t = Tape::new("ab");
    t.write(Symbol::Sym('z'));
    assert_eq!(t.focus(), Symbol::Sym('z'));
    t.move_right();
    assert_eq!(t.focus(), Symbol::Sym('b'));
}

#[test]
fn move_right_walks_the_input() {
    let mut t = Tape::new("abc");
    assert_eq!(t.focus(), Symbol::Sym('a'));
    t.move_right();
    assert_eq!(t.focus(), Symbol::Sym('b'));
    t.move_right();
    assert_eq!(t.focus(), Symbol::Sym('c'));
}

#[test]
fn move_right_past_the_end_creates_blank_cells() {
    let mut t = Tape::new("a");
    t.move_right();
    assert_eq!(t.focus(), Symbol::Blank);
    t.move_right();
    assert_eq!(t.focus(), Symbol::Blank);
}

#[test]
fn move_left_at_the_boundary_creates_a_blank_cell() {
    let mut t = Tape::new("ab");
    t.move_left();
    assert_eq!(t.focus(), Symbol::Blank);
    t.move_right();
    assert_eq!(t.focus(), Symbol::Sym('a'));
}

#[test]
fn move_left_returns_to_earlier_cells() {
    let mut t = Tape::new("ab");
    t.move_right();
    assert_eq!(t.focus(), Symbol::Sym('b'));
    t.move_left();
    assert_eq!(t.focus(), Symbol::Sym('a'));
}

#[test]
fn implicit_cells_stay_blank_until_written() {
    let mut t = Tape::new("a");
    t.move_left();
    t.move_left();
    t.move_right();
    t.move_right();
    t.move_right();
    t.move_right();
    assert_eq!(t.focus(), Symbol::Blank);
    t.write(Symbol::Sym('q'));
    assert_eq!(t.focus(), Symbol::Sym('q'));
}

#[test]
fn symbols_compare_by_tag_and_character() {
    assert_eq!(Symbol::Sym('a'), Symbol::Sym('a'));
    assert_ne!(Symbol::Sym('a'), Symbol::Sym('b'));
    assert_ne!(Symbol::Sym('a'), Symbol::Blank);
    assert_eq!(Symbol::Blank, Symbol::Blank);
    assert_eq!(Move::Stay, Move::Stay);
    assert_ne!(Move::Left, Move::Right);
}
