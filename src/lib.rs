//! Interpretation of infrastructure change plans: classifying each
//! resource's action tags, diffing its attribute snapshots, summarizing the
//! plan, rendering it as text, and the state machine of an interactive
//! session that expands and collapses resources.

use vstd::prelude::*;

pub mod classify;
pub mod diff;
pub mod model;
pub mod plan;
pub mod render;
pub mod session;
pub mod summary;
pub mod text;

verus! {

} // verus!
