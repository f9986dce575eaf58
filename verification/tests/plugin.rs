use post_process::graph::{GraphError, NodeLabel, RenderGraph};
use post_process::node::{
    LoadOp, NodeOutcome, NodeState, RenderView, SkipReason, TextureId, ViewTarget,
};
use post_process::pipeline::{
    build_layout, build_sampler, CachedPipelineId, CompileError, PipelineHandle, PipelineState,
    TextureFormat,
};
use post_process::plugin::{App, PostProcessPlugin, RenderApp};
use post_process::settings::{CameraId, PostProcessSettings};

fn settings(pixel_size: f32, strength: f32) -> PostProcessSettings {
    PostProcessSettings::new(
        pixel_size.to_bits(),
        0.5f32.to_bits(),
        16.0f32.to_bits(),
        strength.to_bits(),
    )
}

fn host_graph() -> RenderGraph {
    let mut g = RenderGraph::new();
    g.add_node(NodeLabel::Tonemapping).unwrap();
    g.add_node(NodeLabel::EndMainPassPostProcessing).unwrap();
    g.add_node_edge(NodeLabel::Tonemapping, NodeLabel::EndMainPassPostProcessing).unwrap();
    g
}

fn render_side() -> RenderApp {
    let mut render = RenderApp::new(256, TextureFormat::Rgba8UnormSrgb).unwrap();
    render.graph = host_graph();
    render
}

fn view(camera: u64) -> RenderView {
    RenderView {
        camera: CameraId(camera),
        target: Some(ViewTarget { main: TextureId(10 * camera), spare: TextureId(10 * camera + 1) }),
    }
}

fn running_app() -> App {
    let mut app = App::new(Some(render_side()));
    assert_eq!(PostProcessPlugin.build(&mut app), Ok(()));
    PostProcessPlugin.finish(&mut app, b"shader".to_vec());
    let render = app.render.as_mut().unwrap();
    let id = render.effect.as_ref().unwrap().pipeline_id;
    assert!(render.pipelines.finish_compile(id, Ok(PipelineHandle(7))));
    app
}

#[test]
fn render_side_needs_a_positive_alignment() {
    assert!(RenderApp::new(0, TextureFormat::Rgba8UnormSrgb).is_none());
    let render = RenderApp::new(64, TextureFormat::Bgra8UnormSrgb).unwrap();
    assert_eq!(render.uniforms.alignment(), 64);
    assert_eq!(render.format, TextureFormat::Bgra8UnormSrgb);
    assert!(render.effect.is_none());
    assert!(render.views.is_empty());
    assert!(render.graph.nodes().is_empty());
    assert_eq!(render.pipelines.len(), 0);
    assert_eq!(render.node.state(), NodeState::Idle);
}

#[test]
fn build_without_render_side_does_nothing() {
    let mut app = App::new(None);
    assert_eq!(PostProcessPlugin.build(&mut app), Ok(()));
    PostProcessPlugin.finish(&mut app, b"shader".to_vec());
    assert!(app.render.is_none());
    assert!(app.update().is_empty());
}

#[test]
fn build_registers_the_node() {
    let mut app = App::new(Some(render_side()));
    assert_eq!(PostProcessPlugin.build(&mut app), Ok(()));
    let graph = &app.render.as_ref().unwrap().graph;
    assert_eq!(
        graph.execution_order(),
        Ok(vec![
            NodeLabel::Tonemapping,
            NodeLabel::PostProcess,
            NodeLabel::EndMainPassPostProcessing,
        ])
    );
}

#[test]
fn build_twice_fails_on_the_duplicate_node() {
    let mut app = App::new(Some(render_side()));
    assert_eq!(PostProcessPlugin.build(&mut app), Ok(()));
    assert_eq!(
        PostProcessPlugin.build(&mut app),
        Err(GraphError::NodeAlreadyExists(NodeLabel::PostProcess))
    );
    let graph = &app.render.as_ref().unwrap().graph;
    assert_eq!(graph.nodes().len(), 3);
    assert_eq!(graph.edges().len(), 3);
}

#[test]
fn build_on_a_graph_without_tonemapping_fails() {
    let mut app = App::new(Some(RenderApp::new(256, TextureFormat::Rgba8UnormSrgb).unwrap()));
    assert_eq!(
        PostProcessPlugin.build(&mut app),
        Err(GraphError::InvalidNode(NodeLabel::Tonemapping))
    );
    assert!(app.render.as_ref().unwrap().graph.nodes().is_empty());
}

#[test]
fn finish_sets_the_effect_up_once() {
    let mut app = App::new(Some(render_side()));
    PostProcessPlugin.finish(&mut app, b"shader".to_vec());
    {
        let render = app.render.as_ref().unwrap();
        let effect = render.effect.as_ref().unwrap();
        assert_eq!(effect.pipeline_id, CachedPipelineId(0));
        assert_eq!(effect.layout, build_layout());
        assert_eq!(effect.sampler, build_sampler());
        assert_eq!(render.pipelines.len(), 1);
        assert_eq!(render.pipelines.state(effect.pipeline_id), Some(PipelineState::Pending));
        let d = render.pipelines.descriptor(effect.pipeline_id).unwrap();
        assert_eq!(d.shader, b"shader".to_vec());
        assert_eq!(d.target_format, TextureFormat::Rgba8UnormSrgb);
    }
    PostProcessPlugin.finish(&mut app, b"another shader".to_vec());
    let render = app.render.as_ref().unwrap();
    assert_eq!(render.effect.as_ref().unwrap().pipeline_id, CachedPipelineId(0));
    assert_eq!(render.pipelines.len(), 1);
}

#[test]
fn frame_draws_once_for_each_camera_with_settings() {
    let mut app = running_app();
    app.world.attach(CameraId(1), settings(512.0, 1.0));
    app.world.attach(CameraId(3), settings(64.0, 0.0));
    {
        let render = app.render.as_mut().unwrap();
        render.views.push(view(1));
        render.views.push(view(2));
        render.views.push(view(3));
    }
    let outcomes = app.update();
    assert_eq!(outcomes.len(), 3);
    match outcomes[0] {
        NodeOutcome::Drawn(pass) => {
            assert_eq!(pass.pipeline, PipelineHandle(7));
            assert_eq!(pass.vertex_count, 3);
            assert_eq!(pass.instance_count, 1);
            assert_eq!(pass.first_vertex, 0);
            assert_eq!(pass.first_instance, 0);
            assert_eq!(pass.destination, TextureId(11));
            assert_eq!(pass.bind_group.source, TextureId(10));
            assert_eq!(pass.bind_group.uniform_size, 16);
            assert_eq!(pass.dynamic_offset, 0);
            assert_eq!(pass.load, LoadOp::Load);
            assert!(!pass.depth_stencil);
        }
        other => panic!("expected a draw, got {:?}", other),
    }
    assert_eq!(outcomes[1], NodeOutcome::Skipped(SkipReason::MissingUniform));
    match outcomes[2] {
        NodeOutcome::Drawn(pass) => {
            assert_eq!(pass.destination, TextureId(31));
            assert_eq!(pass.dynamic_offset, 256);
            assert_eq!(pass.dynamic_offset % 256, 0);
        }
        other => panic!("expected a draw, got {:?}", other),
    }
    let render = app.render.as_ref().unwrap();
    assert_eq!(render.views[0].target, Some(ViewTarget { main: TextureId(11), spare: TextureId(10) }));
    assert_eq!(render.views[1], view(2));
    assert_eq!(render.views[2].target, Some(ViewTarget { main: TextureId(31), spare: TextureId(30) }));
    assert_eq!(render.uniforms.len(), 2);
    assert_eq!(render.uniforms.buffer().len(), 272);
    assert_eq!(&render.uniforms.buffer()[256..272], &settings(64.0, 0.0).to_bytes()[..]);
    assert_eq!(render.node.state(), NodeState::Idle);
    assert_eq!(app.world.len(), 2);
}

#[test]
fn zero_strength_still_draws() {
    let mut app = running_app();
    app.world.attach(CameraId(1), settings(512.0, 0.0));
    app.render.as_mut().unwrap().views.push(view(1));
    let outcomes = app.update();
    assert!(matches!(outcomes[0], NodeOutcome::Drawn(_)));
}

#[test]
fn frame_skips_every_view_while_the_pipeline_compiles() {
    let mut app = App::new(Some(render_side()));
    PostProcessPlugin.build(&mut app).unwrap();
    PostProcessPlugin.finish(&mut app, b"shader".to_vec());
    app.world.attach(CameraId(1), settings(512.0, 1.0));
    app.render.as_mut().unwrap().views.push(view(1));
    assert_eq!(app.update(), vec![NodeOutcome::Skipped(SkipReason::PipelineUnready)]);
    assert_eq!(app.render.as_ref().unwrap().views[0], view(1));
    let id = app.render.as_ref().unwrap().effect.as_ref().unwrap().pipeline_id;
    app.render.as_mut().unwrap().pipelines.finish_compile(id, Ok(PipelineHandle(1)));
    assert!(matches!(app.update()[0], NodeOutcome::Drawn(_)));
}

#[test]
fn frame_skips_every_view_after_a_failed_compilation() {
    let mut app = App::new(Some(render_side()));
    PostProcessPlugin.build(&mut app).unwrap();
    PostProcessPlugin.finish(&mut app, b"bad shader".to_vec());
    let id = app.render.as_ref().unwrap().effect.as_ref().unwrap().pipeline_id;
    app.render.as_mut().unwrap().pipelines.finish_compile(id, Err(CompileError::Shader));
    app.world.attach(CameraId(1), settings(512.0, 1.0));
    app.render.as_mut().unwrap().views.push(view(1));
    for _ in 0..3 {
        assert_eq!(app.update(), vec![NodeOutcome::Skipped(SkipReason::PipelineUnready)]);
    }
}

#[test]
fn frame_without_registration_looks_at_no_view() {
    let mut app = App::new(Some(render_side()));
    PostProcessPlugin.finish(&mut app, b"shader".to_vec());
    app.world.attach(CameraId(1), settings(512.0, 1.0));
    app.render.as_mut().unwrap().views.push(view(1));
    assert!(app.update().is_empty());
    assert_eq!(app.render.as_ref().unwrap().views[0], view(1));
    assert_eq!(app.render.as_ref().unwrap().uniforms.len(), 1);
}

#[test]
fn frame_without_setup_looks_at_no_view() {
    let mut app = App::new(Some(render_side()));
    PostProcessPlugin.build(&mut app).unwrap();
    app.render.as_mut().unwrap().views.push(view(1));
    assert!(app.update().is_empty());
}

#[test]
fn frame_skips_a_view_without_target() {
    let mut app = running_app();
    app.world.attach(CameraId(1), settings(512.0, 1.0));
    app.render.as_mut().unwrap().views.push(RenderView { camera: CameraId(1), target: None });
    assert_eq!(app.update(), vec![NodeOutcome::Skipped(SkipReason::MissingTextures)]);
}

#[test]
fn each_frame_swaps_the_target_again() {
    let mut app = running_app();
    app.world.attach(CameraId(1), settings(512.0, 1.0));
    app.render.as_mut().unwrap().views.push(view(1));
    let first = app.update();
    let second = app.update();
    match (first[0], second[0]) {
        (NodeOutcome::Drawn(a), NodeOutcome::Drawn(b)) => {
            assert_eq!(a.destination, TextureId(11));
            assert_eq!(b.destination, TextureId(10));
            assert_eq!(b.bind_group.source, TextureId(11));
            assert_eq!(a.dynamic_offset, b.dynamic_offset);
        }
        other => panic!("expected two draws, got {:?}", other),
    }
}

#[test]
fn settings_changes_reach_the_next_frame() {
    let mut app = running_app();
    app.world.attach(CameraId(1), settings(512.0, 1.0));
    app.render.as_mut().unwrap().views.push(view(1));
    app.update();
    assert_eq!(
        app.render.as_ref().unwrap().uniforms.binding(CameraId(1)).unwrap().settings,
        settings(512.0, 1.0)
    );
    app.world.attach(CameraId(1), settings(8.0, 0.25));
    app.update();
    assert_eq!(
        app.render.as_ref().unwrap().uniforms.binding(CameraId(1)).unwrap().settings,
        settings(8.0, 0.25)
    );
    app.world.detach(CameraId(1));
    assert_eq!(app.update(), vec![NodeOutcome::Skipped(SkipReason::MissingUniform)]);
}
