//! The three worked examples of the perturbation-kernel object, as the
//! data and the exactly-specified parts of their components: states,
//! parameters, null parameters, readouts, declared constants and tags.
pub mod bistable;
pub mod gaussian;
pub mod markov;
