use scene_viewer::material::{
    bind_readiness, binding_layout, BindError, BindingKind, BindingSlot, ShaderStage,
    CULL_BACK_FACES,
};

#[test]
fn material_binds_exactly_a_texture_and_a_sampler() {
    assert_eq!(
        binding_layout(),
        vec![
            BindingSlot {
                binding: 0,
                kind: BindingKind::CubeTexture,
                visibility: ShaderStage::Fragment,
            },
            BindingSlot {
                binding: 1,
                kind: BindingKind::FilteringSampler,
                visibility: ShaderStage::Fragment,
            },
        ]
    );
}

#[test]
fn back_faces_are_kept() {
    assert!(!CULL_BACK_FACES);
}

#[test]
fn bind_group_waits_for_the_texture() {
    assert_eq!(bind_readiness(false, false), Err(BindError::RetryNextUpdate));
    assert_eq!(bind_readiness(true, false), Err(BindError::RetryNextUpdate));
    assert_eq!(bind_readiness(false, true), Err(BindError::RetryNextUpdate));
}

#[test]
fn bind_group_is_built_once_the_texture_is_resident() {
    assert_eq!(bind_readiness(true, true), Ok(()));
}
