//! The unlit skybox material: it outputs the colour sampled from a cube-map
//! and ignores lighting. Back faces are not culled, for the camera sits inside
//! the cube.

use vstd::prelude::*;

verus! {

/// Whether the skybox material culls back faces. It does not.
pub const CULL_BACK_FACES: bool = false;

/// The shader stage that can see a bound resource.
#[derive(Clone, Copy, Debug, PartialEq, Eq, Structural)]
pub enum ShaderStage {
    Vertex,
    Fragment,
}

/// The kind of a bound resource.
#[derive(Clone, Copy, Debug, PartialEq, Eq, Structural)]
pub enum BindingKind {
    /// A cube texture of filterable float samples, not multisampled.
    CubeTexture,
    /// A filtering sampler.
    FilteringSampler,
}

/// One resource that the material binds.
#[derive(Clone, Copy, Debug, PartialEq, Eq, Structural)]
pub struct BindingSlot {
    /// The binding index in the bind group.
    pub binding: u32,
    /// What is bound there.
    pub kind: BindingKind,
    /// The one stage that sees it.
    pub visibility: ShaderStage,
}

/// Why a bind group could not be built.
#[derive(Clone, Copy, Debug, PartialEq, Eq, Structural)]
pub enum BindError {
    /// A resource is not ready yet: try again at the next update.
    RetryNextUpdate,
}

/// The resources of the skybox material: the cube texture at binding 0 and
/// its sampler at binding 1, both seen by the fragment stage alone.
pub open spec fn skybox_bindings() -> Seq<BindingSlot> {
    seq![
        BindingSlot {
            binding: 0,
            kind: BindingKind::CubeTexture,
            visibility: ShaderStage::Fragment,
        },
        BindingSlot {
            binding: 1,
            kind: BindingKind::FilteringSampler,
            visibility: ShaderStage::Fragment,
        },
    ]
}

/// The bind group layout of the skybox material.
pub fn binding_layout() -> (r: Vec<BindingSlot>)
    ensures
        r@ == skybox_bindings(),
{
    let mut slots: Vec<BindingSlot> = Vec::new();
    slots.push(
        BindingSlot {
            binding: 0,
            kind: BindingKind::CubeTexture,
            visibility: ShaderStage::Fragment,
        },
    );
    slots.push(
        BindingSlot {
            binding: 1,
            kind: BindingKind::FilteringSampler,
            visibility: ShaderStage::Fragment,
        },
    );
    assert(slots@ =~= skybox_bindings());
    slots
}

/// Whether the bind group of the skybox material can be built now.
/// `texture_assigned` says whether the material holds a texture at all,
/// `texture_resident` whether that texture is in GPU memory. Without both the
/// build is put off to the next update; that is no failure.
pub fn bind_readiness(texture_assigned: bool, texture_resident: bool) -> (r: Result<(), BindError>)
    ensures
        r is Ok <==> texture_assigned && texture_resident,
        r is Err ==> r == Err::<(), BindError>(BindError::RetryNextUpdate),
{
    if texture_assigned && texture_resident {
        Ok(())
    } else {
        Err(BindError::RetryNextUpdate)
    }
}

} // verus!
