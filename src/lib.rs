//! Parametric time warping: the decision logic of fitting a polynomial warp that
//! aligns sample signals to references. `config` reads the mode selectors,
//! `model` validates batches and lays out the optimization jobs and the
//! coefficient selection of predictions, `simplex` runs the Nelder–Mead search
//! protocol over score keys, `order` turns scores into keys and sorts them, and
//! `smooth` lists the windows of the triangular smoother.

pub mod config;
pub mod model;
pub mod order;
pub mod simplex;
pub mod smooth;
