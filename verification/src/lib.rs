//! Generator of flat, free-function shims for the public constructors,
//! destructors and methods of C++ classes, so that a simpler binding
//! generator that cannot handle inheritance or virtual dispatch can expose
//! them to a foreign-function caller.
//!
//! The library works on an in-memory model of the class declarations of one
//! translation unit (`model`). It resolves each class's transitive base-class
//! set (`hierarchy`), decides which members need a shim (`eligibility`),
//! renders each shim's declaration and definition text (`emit`), and puts the
//! whole header and source text together (`driver`). Parsing the header and
//! writing the output files is left to the caller.

use vstd::prelude::*;

pub mod driver;
pub mod eligibility;
pub mod emit;
pub mod hierarchy;
pub mod model;

verus! {

/// Accessibility of a class member, as the front end reports it.
#[derive(Clone, Copy, PartialEq, Eq, Structural, Debug)]
pub enum Accessibility {
    Public,
    Protected,
    Private,
}

} // verus!
