//! Binding contracts of the three passes: which resource each binding slot
//! carries and how the pass may touch it.
use vstd::prelude::*;

verus! {

/// The device resources that passes share.
#[derive(Clone, Copy, Debug, PartialEq, Eq, Structural)]
pub enum Resource {
    /// The uniform of simulation globals.
    Globals,
    /// The storage buffer of agents.
    Agents,
    /// The read-write trail image.
    TrailSurface,
    /// The image shown on screen this frame.
    Target,
}

/// How a binding exposes its resource to a pass.
#[derive(Clone, Copy, Debug, PartialEq, Eq, Structural)]
pub enum Access {
    /// A uniform buffer, read only.
    Uniform,
    /// A storage buffer, read and written.
    StorageReadWrite,
    /// A storage image of four `f32` channels, read and written.
    TextureReadWrite,
}

/// One slot of a pass's bind group.
#[derive(Clone, Copy, Debug, PartialEq, Eq, Structural)]
pub struct Binding {
    pub slot: u32,
    pub resource: Resource,
    pub access: Access,
}

/// Whether a binding lets its pass write the resource.
pub open spec fn writes_through(b: Binding) -> bool {
    b.access != Access::Uniform
}

/// Slots of the decay pass: globals at 0, the trail image at 2.
pub open spec fn diffuse_bindings() -> Seq<Binding> {
    seq![
        Binding { slot: 0, resource: Resource::Globals, access: Access::Uniform },
        Binding { slot: 2, resource: Resource::TrailSurface, access: Access::TextureReadWrite },
    ]
}

/// Slots of the agent pass: globals at 0, agents at 1, the trail image at 2.
pub open spec fn simulation_bindings() -> Seq<Binding> {
    seq![
        Binding { slot: 0, resource: Resource::Globals, access: Access::Uniform },
        Binding { slot: 1, resource: Resource::Agents, access: Access::StorageReadWrite },
        Binding { slot: 2, resource: Resource::TrailSurface, access: Access::TextureReadWrite },
    ]
}

/// The bind group layout of a compute pass.
pub struct ComputePipeline {
    pub bindings: Vec<Binding>,
}

impl ComputePipeline {
    /// The decay pass: it reads the globals and attenuates the trail image in
    /// place; it never sees the agents.
    pub fn diffuse() -> (r: ComputePipeline)
        ensures
            r.bindings@ == diffuse_bindings(),
    {
        let bindings: Vec<Binding> = vec![
            Binding { slot: 0, resource: Resource::Globals, access: Access::Uniform },
            Binding { slot: 2, resource: Resource::TrailSurface, access: Access::TextureReadWrite },
        ];
        assert(bindings@ =~= diffuse_bindings());
        ComputePipeline { bindings }
    }

    /// The agent pass: it reads the globals, moves the agents in place and
    /// deposits into the trail image.
    pub fn simulation() -> (r: ComputePipeline)
        ensures
            r.bindings@ == simulation_bindings(),
    {
        let bindings: Vec<Binding> = vec![
            Binding { slot: 0, resource: Resource::Globals, access: Access::Uniform },
            Binding { slot: 1, resource: Resource::Agents, access: Access::StorageReadWrite },
            Binding { slot: 2, resource: Resource::TrailSurface, access: Access::TextureReadWrite },
        ];
        assert(bindings@ =~= simulation_bindings());
        ComputePipeline { bindings }
    }
}

/// The layouts of both compute passes. The composite pass has one fixed
/// binding, the trail image sampled at slot 0.
pub struct Pipelines {
    pub diffuse: ComputePipeline,
    pub simulation: ComputePipeline,
}

impl Pipelines {
    pub fn new() -> (r: Pipelines)
        ensures
            r.diffuse.bindings@ == diffuse_bindings(),
            r.simulation.bindings@ == simulation_bindings(),
    {
        Pipelines { diffuse: ComputePipeline::diffuse(), simulation: ComputePipeline::simulation() }
    }
}

/// The decay pass binds its trail image at the same slot and with the same
/// access as the agent pass, and neither layout binds one slot twice.
pub proof fn lemma_layouts_agree()
    ensures
        diffuse_bindings()[1] == simulation_bindings()[2],
        forall|i: int, j: int|
            0 <= i < j < diffuse_bindings().len() ==> diffuse_bindings()[i].slot
                != diffuse_bindings()[j].slot,
        forall|i: int, j: int|
            0 <= i < j < simulation_bindings().len() ==> simulation_bindings()[i].slot
                != simulation_bindings()[j].slot,
        forall|i: int|
            0 <= i < diffuse_bindings().len() ==> diffuse_bindings()[i].resource
                != Resource::Agents,
{
}

} // verus!
