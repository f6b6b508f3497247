//! Building blocks of an automated multiple-choice test taker: the wire
//! requests of the browser-control protocol, the start-up handshake of the
//! driver process, the per-attempt answer selection and result harvesting,
//! and the precedence rules of the knowledge store.

pub mod actions;
pub mod attempt;
pub mod convergence;
pub mod display;
pub mod laws;
pub mod models;
pub mod number;
mod random;
pub mod results;
pub mod site;
pub mod supervisor;
pub mod text;
pub mod webdriver;
