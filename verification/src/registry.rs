use vstd::prelude::*;

verus! {

/// The animation registry: the clips and the graph that every animated scene
/// shares. It is made once at startup and only read afterwards.
///
/// A clip is named by the index of its node in the animation graph, the graph
/// by the bits of its asset index.
#[derive(Debug)]
pub struct Animations {
    pub animations: Vec<u32>,
    pub graph: u64,
}

impl Animations {
    /// A registry can serve the poller once it holds at least one clip.
    pub open spec fn wf(&self) -> bool {
        self.animations@.len() > 0
    }
}

} // verus!
