//! An inner-product vector commitment over BLS12-381, with an auditor that
//! detects a reference string exposing one trapdoor power too many and builds
//! a forged opening from it.
//!
//! - `field`: scalars of the BLS12-381 scalar field.
//! - `group`: points of G1 and G2 and elements of the target group, specified
//!   through their discrete logarithms.
//! - `scheme`: the reference string, `commit`, `open` and `verify`.
//! - `audit`: the length and pairing checks on a reference string, the audit
//!   for an exposed power, and the forgery it allows.
//! - `laws`: completeness of the scheme on an honest reference string.
pub mod field;
pub mod group;
pub mod scheme;
pub mod audit;
pub mod laws;
