//! A bytecode interpreter for a Move-style guest instruction set that, while
//! executing, builds an arithmetic constraint system whose satisfying
//! assignments correspond to valid executions of the guest program.
//!
//! The interpreter runs in two regimes, distinguished by whether operand
//! values are concretely known: when a branch condition is unknown the
//! circuit structure for both arms is built; when every value is known a
//! concrete execution trace (a witness) is computed.

pub mod bytecode;
pub mod bytecodes;
pub mod circuit;
pub mod errors;
pub mod field;
pub mod frame;
pub mod interpreter;
pub mod stack;
pub mod value;
