//! A literal substring search over lines of text: reading the command line,
//! deciding what each path contributes, and choosing and rendering the lines
//! to report.
use vstd::prelude::*;

pub mod config;
pub mod laws;
pub mod paths;
pub mod scan;
pub mod text;

verus! {

} // verus!
