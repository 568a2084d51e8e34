//! An interpreter for a small concatenative, stack-oriented language.
//!
//! A program is a text of words parted by white space. `utility` splits the
//! text, `parsing` reads the words as values, and `interpreter` evaluates the
//! values against a stack and a table of bindings. `parsed` holds the values,
//! `numeric` and `float` the numbers, `types` the constraints that `op` states
//! for each operator, and `stack_error` the errors. `laws`, `invariants` and
//! `roundtrip` prove what holds of every program.
//!
//! The library computes on integers, text and lists. It holds a float as the
//! bits of its encoding and leaves to its host what needs the machine's floats
//! or the outside world: float arithmetic, reading and writing floats in
//! decimal, and input and output. The evaluator stops with a request where it
//! needs one of these, and goes on when the host delivers the answer.

pub mod float;
pub mod interpreter;
pub mod invariants;
pub mod laws;
pub mod numeric;
pub mod op;
pub mod parsed;
pub mod parsing;
pub mod roundtrip;
pub mod stack;
pub mod stack_error;
pub mod text;
pub mod types;
pub mod utility;
