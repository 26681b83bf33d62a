// A retained-mode UI composition and layout engine. Each frame the host
// builds a tree of nodes; the library resolves sizes (`resolve`), arranges
// rectangles (`arrange`) and walks the tree in a drawing or an
// event-collecting phase (`phase`, `layer`), handing back drawing requests
// and events as plain values. Queued wrappers such as margins and
// backgrounds are expanded into plain groups when a node is finalized
// (`padding`, `factories`).
use vstd::prelude::*;

pub mod arrange;
pub mod error;
pub mod factories;
pub mod geometry;
pub mod layer;
pub mod node;
pub mod padding;
pub mod phase;
pub mod resolve;
pub mod size;

verus! {

} // verus!
