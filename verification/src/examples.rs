//! Example symbols and rules: natural numbers, arithmetic, duplication and
//! the Fibonacci function.
pub mod natural;
pub mod arith;
pub mod combinators;
pub mod fib;
