//! Bookkeeping core of an n-body gravity simulation: the ordered body store,
//! per-body trajectory history, the all-pairs interaction schedule, and the
//! camera focus selection over bodies.
pub mod bodies;
pub mod focus;
pub mod pairs;
pub mod trajectory;
