use vstd::prelude::*;

pub mod axis;
pub mod backend;
pub mod cartesian;
pub mod chart;
pub mod drag;
pub mod geometry;
pub mod items;
pub mod num;
pub mod scene;
pub mod series;
pub mod state;

verus! {

} // verus!
