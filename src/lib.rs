//! Detection of declared but unreferenced dependencies of workspace packages.
//!
//! The library works on plain values: compiler arguments, dependency edges
//! already resolved to link names and library names, and the external library
//! names that each compiled unit's usage analysis lists.
//!
//! - `invocation` reads a unit's record from its compiler arguments and keeps
//!   the records of workspace units during a build.
//! - `names` indexes a package's dependencies by link name and by canonical
//!   library name.
//! - `usage` correlates the records with the index: used and declared pairs.
//! - `report` takes the difference, per package and category, in name order.
//! - `render` writes the report as text.
//! - `laws` states what holds across these steps.
use vstd::prelude::*;

pub mod text;
pub mod invocation;
pub mod names;
pub mod usage;
pub mod report;
pub mod laws;
pub mod render;

verus! {

/// An error carried as a human-readable message.
pub struct StrErr(pub String);

impl StrErr {
    /// Wraps a message.
    pub fn new(msg: String) -> (r: StrErr)
        ensures
            r.0@ == msg@,
    {
        StrErr(msg)
    }

    /// The message held.
    pub fn message(&self) -> (r: &str)
        ensures
            r@ == self.0@,
    {
        self.0.as_str()
    }
}

} // verus!
