//! Suggests likely code owners of version-controlled paths: the most frequent
//! commit author and the most frequent line-attribution committer of each path.
use vstd::prelude::*;

pub mod authors;
pub mod paths;
pub mod report;
pub mod tally;
pub mod text;

verus! {

} // verus!
