//! A single-tape, deterministic Turing machine simulator.
//!
//! The tape is an unbounded, lazily extending sequence of symbols with a
//! movable read/write head; the machine is an immutable transition table
//! driven by a run loop that applies the first matching rule until no rule
//! applies, then reports whether the halting state is accepting.

pub mod machine;
pub mod tape;

pub use machine::State;
pub use machine::Tm;
pub use machine::TmResult;
pub use machine::Transition;
pub use machine::execute_tm;
pub use tape::Move;
pub use tape::Symbol;
pub use tape::Tape;
