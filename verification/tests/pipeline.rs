use post_process::pipeline::{
    build_layout, build_sampler, AddressMode, BindingKind, CachedPipelineId, CompileError,
    FilterMode, LayoutEntry, PipelineCache, PipelineDescriptor, PipelineHandle, PipelineState,
    PostProcessPipeline, SamplerDescriptor, ShaderStage, TextureFormat, FRAGMENT_ENTRY_POINT,
};

fn shader_a() -> Vec<u8> {
    b"@fragment fn fragment() {}".to_vec()
}

fn shader_b() -> Vec<u8> {
    b"@fragment fn fragment() { discard; }".to_vec()
}

#[test]
fn layout_has_the_three_bindings_in_order() {
    assert_eq!(
        build_layout(),
        vec![
            LayoutEntry {
                binding: 0,
                visibility: ShaderStage::Fragment,
                kind: BindingKind::SampledTexture
            },
            LayoutEntry {
                binding: 1,
                visibility: ShaderStage::Fragment,
                kind: BindingKind::FilteringSampler
            },
            LayoutEntry {
                binding: 2,
                visibility: ShaderStage::Fragment,
                kind: BindingKind::DynamicUniform { min_size: 16 }
            },
        ]
    );
}

#[test]
fn sampler_clamps_and_takes_the_nearest_texel() {
    assert_eq!(
        build_sampler(),
        SamplerDescriptor {
            address_mode: AddressMode::ClampToEdge,
            mag_filter: FilterMode::Nearest,
            min_filter: FilterMode::Nearest,
        }
    );
}

#[test]
fn entry_point_is_named_fragment() {
    assert_eq!(FRAGMENT_ENTRY_POINT, "fragment");
}

#[test]
fn effect_descriptor_is_a_fullscreen_pass_without_blend_or_depth() {
    let d = PipelineDescriptor::effect(shader_a(), TextureFormat::Bgra8UnormSrgb);
    assert_eq!(d.shader, shader_a());
    assert_eq!(d.layout, build_layout());
    assert_eq!(d.vertex_buffers, 0);
    assert_eq!(d.target_format, TextureFormat::Bgra8UnormSrgb);
    assert!(!d.blend);
    assert!(!d.depth_stencil);
    assert_eq!(d.sample_count, 1);
}

#[test]
fn descriptors_compare_by_content() {
    let a = PipelineDescriptor::effect(shader_a(), TextureFormat::Rgba8UnormSrgb);
    let same = PipelineDescriptor::effect(shader_a(), TextureFormat::Rgba8UnormSrgb);
    let other_shader = PipelineDescriptor::effect(shader_b(), TextureFormat::Rgba8UnormSrgb);
    let other_format = PipelineDescriptor::effect(shader_a(), TextureFormat::Rgba16Float);
    let mut longer = shader_a();
    longer.push(b' ');
    let prefix = PipelineDescriptor::effect(longer, TextureFormat::Rgba8UnormSrgb);
    let mut other_layout = PipelineDescriptor::effect(shader_a(), TextureFormat::Rgba8UnormSrgb);
    other_layout.layout[2].kind = BindingKind::DynamicUniform { min_size: 32 };
    let mut blended = PipelineDescriptor::effect(shader_a(), TextureFormat::Rgba8UnormSrgb);
    blended.blend = true;
    assert!(a.same_as(&same));
    assert!(a.same_as(&a));
    assert!(!a.same_as(&other_shader));
    assert!(!a.same_as(&other_format));
    assert!(!a.same_as(&prefix));
    assert!(!a.same_as(&other_layout));
    assert!(!a.same_as(&blended));
}

#[test]
fn initialize_returns_at_once_with_a_pending_pipeline() {
    let mut cache = PipelineCache::new();
    let p = PostProcessPipeline::initialize(&mut cache, shader_a(), TextureFormat::Rgba8UnormSrgb);
    assert_eq!(p.pipeline_id, CachedPipelineId(0));
    assert_eq!(p.layout, build_layout());
    assert_eq!(p.sampler, build_sampler());
    assert_eq!(cache.len(), 1);
    assert_eq!(cache.state(p.pipeline_id), Some(PipelineState::Pending));
    assert_eq!(cache.get_render_pipeline(p.pipeline_id), None);
    assert_eq!(cache.next_pending(), Some(p.pipeline_id));
    let d = cache.descriptor(p.pipeline_id).unwrap();
    assert!(d.same_as(&PipelineDescriptor::effect(shader_a(), TextureFormat::Rgba8UnormSrgb)));
}

#[test]
fn initialize_twice_names_the_same_pipeline() {
    let mut cache = PipelineCache::new();
    let first = PostProcessPipeline::initialize(&mut cache, shader_a(), TextureFormat::Rgba8UnormSrgb);
    let second = PostProcessPipeline::initialize(&mut cache, shader_a(), TextureFormat::Rgba8UnormSrgb);
    assert_eq!(first.pipeline_id, second.pipeline_id);
    assert_eq!(cache.len(), 1);
}

#[test]
fn initialize_again_does_not_recompile_a_ready_pipeline() {
    let mut cache = PipelineCache::new();
    let first = PostProcessPipeline::initialize(&mut cache, shader_a(), TextureFormat::Rgba8UnormSrgb);
    assert!(cache.finish_compile(first.pipeline_id, Ok(PipelineHandle(77))));
    let second = PostProcessPipeline::initialize(&mut cache, shader_a(), TextureFormat::Rgba8UnormSrgb);
    assert_eq!(second.pipeline_id, first.pipeline_id);
    assert_eq!(cache.len(), 1);
    assert_eq!(cache.get_render_pipeline(second.pipeline_id), Some(PipelineHandle(77)));
    assert_eq!(cache.next_pending(), None);
}

#[test]
fn distinct_configurations_get_distinct_pipelines() {
    let mut cache = PipelineCache::new();
    let a = PostProcessPipeline::initialize(&mut cache, shader_a(), TextureFormat::Rgba8UnormSrgb);
    let b = PostProcessPipeline::initialize(&mut cache, shader_b(), TextureFormat::Rgba8UnormSrgb);
    let c = PostProcessPipeline::initialize(&mut cache, shader_a(), TextureFormat::Rgba16Float);
    let a_again = PostProcessPipeline::initialize(&mut cache, shader_a(), TextureFormat::Rgba8UnormSrgb);
    assert_eq!(a.pipeline_id, CachedPipelineId(0));
    assert_eq!(b.pipeline_id, CachedPipelineId(1));
    assert_eq!(c.pipeline_id, CachedPipelineId(2));
    assert_eq!(a_again.pipeline_id, CachedPipelineId(0));
    assert_eq!(cache.len(), 3);
}

#[test]
fn resolve_returns_the_handle_once_compiled() {
    let mut cache = PipelineCache::new();
    let id = cache.queue_render_pipeline(PipelineDescriptor::effect(shader_a(), TextureFormat::Rgba8UnormSrgb));
    assert_eq!(cache.get_render_pipeline(id), None);
    assert!(cache.finish_compile(id, Ok(PipelineHandle(5))));
    assert_eq!(cache.get_render_pipeline(id), Some(PipelineHandle(5)));
    assert_eq!(cache.state(id), Some(PipelineState::Ready(PipelineHandle(5))));
    assert_eq!(cache.failure(id), None);
}

#[test]
fn a_failed_compilation_is_recorded_and_never_resolves() {
    let mut cache = PipelineCache::new();
    let id = cache.queue_render_pipeline(PipelineDescriptor::effect(shader_a(), TextureFormat::Rgba8UnormSrgb));
    assert_eq!(cache.failure(id), None);
    assert!(cache.finish_compile(id, Err(CompileError::Shader)));
    assert_eq!(cache.state(id), Some(PipelineState::Failed(CompileError::Shader)));
    assert_eq!(cache.failure(id), Some(CompileError::Shader));
    assert_eq!(cache.failure(CachedPipelineId(9)), None);
    assert_eq!(cache.get_render_pipeline(id), None);
    assert!(!cache.finish_compile(id, Ok(PipelineHandle(1))));
    assert_eq!(cache.state(id), Some(PipelineState::Failed(CompileError::Shader)));
    let other = cache.queue_render_pipeline(PipelineDescriptor::effect(shader_b(), TextureFormat::Rgba8UnormSrgb));
    assert!(cache.finish_compile(other, Err(CompileError::Layout)));
    assert_eq!(cache.state(other), Some(PipelineState::Failed(CompileError::Layout)));
}

#[test]
fn a_ready_pipeline_is_never_replaced() {
    let mut cache = PipelineCache::new();
    let id = cache.queue_render_pipeline(PipelineDescriptor::effect(shader_a(), TextureFormat::Rgba8UnormSrgb));
    assert!(cache.finish_compile(id, Ok(PipelineHandle(5))));
    assert!(!cache.finish_compile(id, Ok(PipelineHandle(6))));
    assert!(!cache.finish_compile(id, Err(CompileError::Shader)));
    assert_eq!(cache.get_render_pipeline(id), Some(PipelineHandle(5)));
}

#[test]
fn unknown_identifiers_resolve_to_nothing() {
    let mut cache = PipelineCache::new();
    assert_eq!(cache.get_render_pipeline(CachedPipelineId(0)), None);
    assert_eq!(cache.state(CachedPipelineId(3)), None);
    assert!(cache.descriptor(CachedPipelineId(0)).is_none());
    assert!(!cache.finish_compile(CachedPipelineId(0), Ok(PipelineHandle(1))));
    assert_eq!(cache.len(), 0);
    assert_eq!(cache.next_pending(), None);
}

#[test]
fn next_pending_walks_the_queue_in_order() {
    let mut cache = PipelineCache::new();
    let a = cache.queue_render_pipeline(PipelineDescriptor::effect(shader_a(), TextureFormat::Rgba8UnormSrgb));
    let b = cache.queue_render_pipeline(PipelineDescriptor::effect(shader_b(), TextureFormat::Rgba8UnormSrgb));
    assert_eq!(cache.next_pending(), Some(a));
    cache.finish_compile(a, Ok(PipelineHandle(1)));
    assert_eq!(cache.next_pending(), Some(b));
    cache.finish_compile(b, Err(CompileError::Shader));
    assert_eq!(cache.next_pending(), None);
}
