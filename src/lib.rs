//! Neuro-evolution of a network that plays snake.
//!
//! The grid game is a state machine whose step function decides growth,
//! death and score; candidates carry the genes of a fixed network and the
//! record of their episodes; the population ranks them, draws parents in
//! proportion to fitness, crosses and mutates them, and totals the results of
//! an evaluation. Running the network itself is arithmetic on real numbers
//! and is left to the caller, who hands back plain episode results.

pub mod point;
pub mod random;
pub mod snakegame;
pub mod nn_architecture;
pub mod member;
pub mod population;
