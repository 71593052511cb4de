//! Decision logic of a scalar root-finding toolkit.
//!
//! The toolkit searches for a zero of a real function of one real variable
//! with three methods: bisection ([`bisection`]), Newton-Raphson
//! ([`newton`]), and a derivative-free bracketing solver used as an
//! independent cross-check ([`reference`]). A result can be held against a
//! known root ([`report`]). This crate holds every decision those methods
//! make: whether a bracket shows a sign change, which half of an interval
//! keeps it, when an iteration has converged, when its budget is spent, and
//! which failure is reported.
//!
//! Numbers are IEEE 754 double-precision values carried as their bit patterns
//! ([`binary64::Binary64`]). The crate classifies and orders them exactly but
//! never does arithmetic on them: midpoints, tangent steps, differences and
//! function values are asked of the caller, as closures that a solve calls.
//! Each solve is stated as a function of what those closures answered, and is
//! bounded by its iteration budget whatever they answer.
//!
//! Two integer helpers of neighbouring exercises live here as well:
//! factorials for truncated power series ([`series`]) and the grid of
//! subdivision counts on which quadrature rules are compared
//! ([`quadrature`]).

pub mod binary64;
pub mod bisection;
pub mod bracketing;
pub mod newton;
pub mod outcome;
pub mod quadrature;
pub mod rate;
pub mod reference;
pub mod report;
pub mod series;
