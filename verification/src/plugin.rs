//! The two sides of the host and the plugin that wires the effect into
//! them: the simulation side owns the settings, the render side owns what a
//! frame is drawn from, and one copy per frame leads from the first to the
//! second.
use crate::graph::{
    is_execution_order, lemma_edge_orders, Edge, GraphError, GraphView, NodeLabel, RenderGraph,
};
use crate::node::{
    effect_pass, node_outcome, NodeOutcome, NodeState, PostProcessNode, RenderView, SkipReason,
};
use crate::pipeline::{
    effect_descriptor, effect_layout, effect_sampler, queued, queued_id, resolved, PipelineCache,
    PipelineHandle, PostProcessPipeline, SamplerDescriptor, TextureFormat,
};
use crate::stager::{
    fits, lemma_no_uniform_without_record, lemma_one_uniform_per_camera, staged_from, stride_for,
    uniform_of, StagedUniform, UniformStager,
};
use crate::world::{distinct_cameras, has_camera, index_of, CameraRecord, SettingsWorld};
use vstd::prelude::*;

verus! {

/// What registering the effect's node leads to: the graph with the node
/// placed after tone mapping and before the end of post-processing, or the
/// refusal of a second node of that name, or of a graph that lacks one of
/// the two neighbours.
pub open spec fn registered(g: GraphView) -> Result<GraphView, GraphError> {
    if g.nodes.contains(NodeLabel::PostProcess) {
        Err(GraphError::NodeAlreadyExists(NodeLabel::PostProcess))
    } else if !g.nodes.contains(NodeLabel::Tonemapping) {
        Err(GraphError::InvalidNode(NodeLabel::Tonemapping))
    } else if !g.nodes.contains(NodeLabel::EndMainPassPostProcessing) {
        Err(GraphError::InvalidNode(NodeLabel::EndMainPassPostProcessing))
    } else {
        Ok(
            g.with_node(NodeLabel::PostProcess).with_edge(
                NodeLabel::Tonemapping,
                NodeLabel::PostProcess,
            ).with_edge(NodeLabel::PostProcess, NodeLabel::EndMainPassPostProcessing),
        )
    }
}

/// Inserts the effect's node into `graph`, with an edge from tone mapping
/// and an edge to the end of post-processing. Either all of it happens or
/// the graph stays as it is.
pub fn register_node(graph: &mut RenderGraph) -> (r: Result<(), GraphError>)
    requires
        old(graph).wf(),
    ensures
        final(graph).wf(),
        match registered(old(graph)@) {
            Ok(g) => r is Ok && final(graph)@ == g,
            Err(error) => r == Err::<(), GraphError>(error) && final(graph)@ == old(graph)@,
        },
{
    if graph.has_node(NodeLabel::PostProcess) {
        return Err(GraphError::NodeAlreadyExists(NodeLabel::PostProcess));
    }
    if !graph.has_node(NodeLabel::Tonemapping) {
        return Err(GraphError::InvalidNode(NodeLabel::Tonemapping));
    }
    if !graph.has_node(NodeLabel::EndMainPassPostProcessing) {
        return Err(GraphError::InvalidNode(NodeLabel::EndMainPassPostProcessing));
    }
    proof {
        lemma_registration_steps(graph@);
    }
    graph.add_node(NodeLabel::PostProcess)?;
    graph.add_node_edge(NodeLabel::Tonemapping, NodeLabel::PostProcess)?;
    graph.add_node_edge(NodeLabel::PostProcess, NodeLabel::EndMainPassPostProcessing)?;
    Ok(())
}

/// On a graph that has both neighbours and not yet the effect's node, each
/// of the three steps of a registration is accepted.
pub proof fn lemma_registration_steps(g: GraphView)
    requires
        g.wf(),
        registered(g) is Ok,
    ensures
        g.add_node(NodeLabel::PostProcess) == Ok::<GraphView, GraphError>(
            g.with_node(NodeLabel::PostProcess),
        ),
        g.with_node(NodeLabel::PostProcess).add_edge(
            NodeLabel::Tonemapping,
            NodeLabel::PostProcess,
        ) == Ok::<GraphView, GraphError>(
            g.with_node(NodeLabel::PostProcess).with_edge(
                NodeLabel::Tonemapping,
                NodeLabel::PostProcess,
            ),
        ),
        g.with_node(NodeLabel::PostProcess).with_edge(
            NodeLabel::Tonemapping,
            NodeLabel::PostProcess,
        ).add_edge(NodeLabel::PostProcess, NodeLabel::EndMainPassPostProcessing) == registered(g),
{
    let g1 = g.with_node(NodeLabel::PostProcess);
    let g2 = g1.with_edge(NodeLabel::Tonemapping, NodeLabel::PostProcess);
    let t = g.nodes.index_of(NodeLabel::Tonemapping);
    let e = g.nodes.index_of(NodeLabel::EndMainPassPostProcessing);
    let p = g.nodes.len() as int;
    assert(g1.nodes[t] == NodeLabel::Tonemapping);
    assert(g1.nodes[e] == NodeLabel::EndMainPassPostProcessing);
    assert(g1.nodes[p] == NodeLabel::PostProcess);
    assert forall|k: int| 0 <= k < g.edges.len() implies (#[trigger] g.edges[k]).before
        != NodeLabel::PostProcess && g.edges[k].after != NodeLabel::PostProcess by {
        assert(g.nodes.contains(g.edges[k].before));
        assert(g.nodes.contains(g.edges[k].after));
    }
    assert(!g1.edges.contains(
        Edge { before: NodeLabel::Tonemapping, after: NodeLabel::PostProcess },
    ));
    assert forall|k: int| 0 <= k < g2.edges.len() implies g2.edges[k] != (Edge {
        before: NodeLabel::PostProcess,
        after: NodeLabel::EndMainPassPostProcessing,
    }) by {
        if k < g.edges.len() {
            assert(g2.edges[k] == g.edges[k]);
        }
    }
}

/// The render side: everything a frame is drawn from.
pub struct RenderApp {
    /// The render graph of the main pass.
    pub graph: RenderGraph,
    /// The compiled pipelines.
    pub pipelines: PipelineCache,
    /// The effect's resources, once it is set up.
    pub effect: Option<PostProcessPipeline>,
    /// The frame's copy of the settings.
    pub uniforms: UniformStager,
    /// The effect's node.
    pub node: PostProcessNode,
    /// The views of the frame.
    pub views: Vec<RenderView>,
    /// The colour format of the views' output.
    pub format: TextureFormat,
}

/// The view after the node ran for it: its target swapped where the node
/// drew, untouched where it skipped.
pub open spec fn view_after(view: RenderView, outcome: NodeOutcome) -> RenderView {
    match outcome {
        NodeOutcome::Drawn(_) => RenderView {
            camera: view.camera,
            target: Some(view.target->0.swapped()),
        },
        NodeOutcome::Skipped(_) => view,
    }
}

impl RenderApp {
    /// The invariants of the parts.
    pub open spec fn wf(&self) -> bool {
        &&& self.graph.wf()
        &&& self.pipelines.wf()
        &&& self.uniforms.wf()
    }

    /// Whether the effect takes part in a frame: its node is in the graph
    /// and its resources are set up.
    pub open spec fn active(&self) -> bool {
        self.graph@.nodes.contains(NodeLabel::PostProcess) && self.effect is Some
    }

    /// The node's outcome for the view `view` with what the render side
    /// holds.
    pub open spec fn outcome_for(&self, view: RenderView) -> NodeOutcome {
        node_outcome(
            resolved(self.pipelines@, self.effect->0.pipeline_id),
            uniform_of(self.uniforms@.staged, view.camera),
            view.target,
            self.effect->0.sampler,
        )
    }

    /// A render side for a device with the given offset alignment and
    /// output format, with an empty graph, no pipeline and no view. `None`
    /// exactly when `alignment` is zero.
    pub fn new(alignment: u32, format: TextureFormat) -> (r: Option<RenderApp>)
        ensures
            r is Some <==> alignment > 0,
            r is Some ==> {
                let app = r->0;
                &&& app.wf()
                &&& app.graph@.nodes.len() == 0
                &&& app.graph@.edges.len() == 0
                &&& app.pipelines@.len() == 0
                &&& app.effect is None
                &&& app.uniforms@.alignment == alignment
                &&& app.uniforms@.staged.len() == 0
                &&& app.node.state_view() == NodeState::Idle
                &&& app.views@.len() == 0
                &&& app.format == format
            },
    {
        match UniformStager::new(alignment) {
            None => None,
            Some(uniforms) => Some(
                RenderApp {
                    graph: RenderGraph::new(),
                    pipelines: PipelineCache::new(),
                    effect: None,
                    uniforms,
                    node: PostProcessNode::new(),
                    views: Vec::new(),
                    format,
                },
            ),
        }
    }

    /// The graph-execution phase of a frame, as far as the effect goes: runs
    /// the effect's node once for every view, in order, and returns what it
    /// did for each. Where the effect takes no part in the frame, no view is
    /// looked at.
    pub fn run_graph(&mut self) -> (outcomes: Vec<NodeOutcome>)
        requires
            old(self).wf(),
        ensures
            final(self).wf(),
            final(self).graph@ == old(self).graph@,
            final(self).pipelines@ == old(self).pipelines@,
            final(self).uniforms@ == old(self).uniforms@,
            final(self).effect == old(self).effect,
            final(self).format == old(self).format,
            final(self).views@.len() == old(self).views@.len(),
            !old(self).active() ==> outcomes@.len() == 0 && final(self).views@ == old(self).views@
                && final(self).node.state_view() == old(self).node.state_view(),
            old(self).active() ==> {
                &&& outcomes@.len() == old(self).views@.len()
                &&& forall|i: int|
                    0 <= i < outcomes@.len() ==> #[trigger] outcomes@[i] == old(self).outcome_for(
                        old(self).views@[i],
                    )
                &&& forall|i: int|
                    0 <= i < outcomes@.len() ==> #[trigger] final(self).views@[i] == view_after(
                        old(self).views@[i],
                        outcomes@[i],
                    )
                &&& old(self).views@.len() > 0 ==> final(self).node.state_view()
                    == NodeState::Idle
            },
    {
        let mut outcomes: Vec<NodeOutcome> = Vec::new();
        if !self.graph.has_node(NodeLabel::PostProcess) {
            return outcomes;
        }
        let effect = match &self.effect {
            Some(effect) => effect,
            None => {
                return outcomes;
            },
        };
        let n = self.views.len();
        let mut i: usize = 0;
        while i < n
            invariant
                self.wf(),
                old(self).active(),
                *effect == old(self).effect->0,
                self.graph@ == old(self).graph@,
                self.pipelines@ == old(self).pipelines@,
                self.uniforms@ == old(self).uniforms@,
                self.effect == old(self).effect,
                self.format == old(self).format,
                n == old(self).views@.len(),
                self.views@.len() == n,
                i <= n,
                outcomes@.len() == i,
                forall|k: int|
                    0 <= k < i ==> #[trigger] outcomes@[k] == old(self).outcome_for(
                        old(self).views@[k],
                    ),
                forall|k: int|
                    0 <= k < i ==> #[trigger] self.views@[k] == view_after(
                        old(self).views@[k],
                        outcomes@[k],
                    ),
                forall|k: int| i <= k < n ==> #[trigger] self.views@[k] == old(self).views@[k],
                i > 0 ==> self.node.state_view() == NodeState::Idle,
                i == 0 ==> self.node.state_view() == old(self).node.state_view(),
            decreases n - i,
        {
            let mut view = self.views[i];
            let outcome = self.node.run(&mut view, &self.pipelines, effect, &self.uniforms);
            self.views[i] = view;
            outcomes.push(outcome);
            i += 1;
        }
        outcomes
    }
}

/// The host: the simulation side, and the render side where there is one.
pub struct App {
    /// The simulation side's settings records.
    pub world: SettingsWorld,
    /// The render side; absent where the host runs without rendering.
    pub render: Option<RenderApp>,
}

/// What the frame's extraction stages from `records`: a uniform for every
/// record where they all fit within the reach of a 32-bit offset, else
/// nothing.
pub open spec fn extracted(records: Seq<CameraRecord>, alignment: u32) -> Seq<StagedUniform> {
    if fits(records.len(), stride_for(alignment as int)) {
        staged_from(records, stride_for(alignment as int))
    } else {
        Seq::<StagedUniform>::empty()
    }
}

impl App {
    /// The invariants of the parts.
    pub open spec fn wf(&self) -> bool {
        &&& self.world.wf()
        &&& self.render is Some ==> self.render->0.wf()
    }

    /// A host with an empty simulation side.
    pub fn new(render: Option<RenderApp>) -> (app: App)
        requires
            render is Some ==> render->0.wf(),
        ensures
            app.wf(),
            app.world@.len() == 0,
            app.render == render,
    {
        App { world: SettingsWorld::new(), render }
    }

    /// One frame. First the extraction: the settings records are copied to
    /// the render side, once, after the simulation is done with them. Then
    /// the graph runs and reads what was staged. Returns what the effect's
    /// node did for each view; without a render side that is nothing.
    pub fn update(&mut self) -> (outcomes: Vec<NodeOutcome>)
        requires
            old(self).wf(),
        ensures
            final(self).wf(),
            final(self).world@ == old(self).world@,
            final(self).render is Some <==> old(self).render is Some,
            old(self).render is None ==> outcomes@.len() == 0,
            old(self).render is Some ==> {
                let before = old(self).render->0;
                let after = final(self).render->0;
                &&& after.graph@ == before.graph@
                &&& after.pipelines@ == before.pipelines@
                &&& after.effect == before.effect
                &&& after.format == before.format
                &&& after.uniforms@.alignment == before.uniforms@.alignment
                &&& after.uniforms@.staged == extracted(
                    old(self).world@,
                    before.uniforms@.alignment,
                )
                &&& after.views@.len() == before.views@.len()
                &&& !before.active() ==> outcomes@.len() == 0 && after.views@ == before.views@
                &&& before.active() ==> {
                    &&& outcomes@.len() == before.views@.len()
                    &&& forall|i: int|
                        0 <= i < outcomes@.len() ==> #[trigger] outcomes@[i] == node_outcome(
                            resolved(before.pipelines@, before.effect->0.pipeline_id),
                            uniform_of(after.uniforms@.staged, before.views@[i].camera),
                            before.views@[i].target,
                            before.effect->0.sampler,
                        )
                    &&& forall|i: int|
                        0 <= i < outcomes@.len() ==> #[trigger] after.views@[i] == view_after(
                            before.views@[i],
                            outcomes@[i],
                        )
                }
            },
    {
        match &mut self.render {
            None => Vec::new(),
            Some(render) => {
                let _ = render.uniforms.extract(&self.world);
                render.run_graph()
            },
        }
    }
}

/// Wires the effect into a host.
#[derive(Clone, Copy, Debug)]
pub struct PostProcessPlugin;

impl PostProcessPlugin {
    /// Registers the effect's node in the host's render graph, after tone
    /// mapping and before the end of post-processing. A host without a
    /// render side is left alone. A graph that already has the node, or
    /// lacks a neighbour, is left as it is and the refusal is returned.
    pub fn build(&self, app: &mut App) -> (r: Result<(), GraphError>)
        requires
            old(app).wf(),
        ensures
            final(app).wf(),
            final(app).world@ == old(app).world@,
            final(app).render is Some <==> old(app).render is Some,
            old(app).render is None ==> r is Ok,
            old(app).render is Some ==> {
                let before = old(app).render->0;
                let after = final(app).render->0;
                &&& match registered(before.graph@) {
                    Ok(g) => r is Ok && after.graph@ == g,
                    Err(error) => r == Err::<(), GraphError>(error) && after.graph@
                        == before.graph@,
                }
                &&& after.pipelines@ == before.pipelines@
                &&& after.effect == before.effect
                &&& after.uniforms@ == before.uniforms@
                &&& after.node.state_view() == before.node.state_view()
                &&& after.views@ == before.views@
                &&& after.format == before.format
            },
    {
        match &mut app.render {
            None => Ok(()),
            Some(render) => register_node(&mut render.graph),
        }
    }

    /// Sets the effect's resources up on the render side, for the fragment
    /// shader `shader`: layout, sampler, and the pipeline, which is queued
    /// and compiled later. A host without a render side, or one whose
    /// effect is set up already, is left alone.
    pub fn finish(&self, app: &mut App, shader: Vec<u8>)
        requires
            old(app).wf(),
        ensures
            final(app).wf(),
            final(app).world@ == old(app).world@,
            final(app).render is Some <==> old(app).render is Some,
            old(app).render is Some ==> {
                let before = old(app).render->0;
                let after = final(app).render->0;
                let wanted = effect_descriptor(shader@, before.format);
                &&& after.graph@ == before.graph@
                &&& after.uniforms@ == before.uniforms@
                &&& after.node.state_view() == before.node.state_view()
                &&& after.views@ == before.views@
                &&& after.format == before.format
                &&& before.effect is Some ==> after.effect == before.effect && after.pipelines@
                    == before.pipelines@
                &&& before.effect is None ==> {
                    &&& after.effect is Some
                    &&& after.pipelines@ == queued(before.pipelines@, wanted)
                    &&& after.effect->0.pipeline_id.0 == queued_id(before.pipelines@, wanted)
                    &&& after.effect->0.layout@ == effect_layout()
                    &&& after.effect->0.sampler == effect_sampler()
                }
            },
    {
        match &mut app.render {
            None => {},
            Some(render) => {
                if render.effect.is_none() {
                    let effect = PostProcessPipeline::initialize(
                        &mut render.pipelines,
                        shader,
                        render.format,
                    );
                    render.effect = Some(effect);
                }
            },
        }
    }
}

/// Registering the effect's node a second time is refused as a second node
/// of that name, and the graph of the first registration, which is well
/// formed and so holds the node once, stays as it is.
pub proof fn lemma_second_registration_fails(g: GraphView)
    requires
        g.wf(),
        registered(g) is Ok,
    ensures
        registered(g)->Ok_0.wf(),
        registered(registered(g)->Ok_0) == Err::<GraphView, GraphError>(
            GraphError::NodeAlreadyExists(NodeLabel::PostProcess),
        ),
{
    let g1 = g.with_node(NodeLabel::PostProcess);
    let g2 = g1.with_edge(NodeLabel::Tonemapping, NodeLabel::PostProcess);
    let g3 = registered(g)->Ok_0;
    lemma_registration_steps(g);
    let t = g.nodes.index_of(NodeLabel::Tonemapping);
    let e = g.nodes.index_of(NodeLabel::EndMainPassPostProcessing);
    let p = g.nodes.len() as int;
    assert(g3.nodes[t] == NodeLabel::Tonemapping);
    assert(g3.nodes[e] == NodeLabel::EndMainPassPostProcessing);
    assert(g3.nodes[p] == NodeLabel::PostProcess);
    assert forall|k: int| 0 <= k < g3.edges.len() implies g3.nodes.contains(
        (#[trigger] g3.edges[k]).before,
    ) && g3.nodes.contains(g3.edges[k].after) by {
        if k < g.edges.len() {
            let a = g.nodes.index_of(g.edges[k].before);
            let b = g.nodes.index_of(g.edges[k].after);
            assert(g3.nodes[a] == g.edges[k].before);
            assert(g3.nodes[b] == g.edges[k].after);
        }
    }
    assert forall|a: int, b: int|
        0 <= a < g3.edges.len() && 0 <= b < g3.edges.len() && a != b implies g3.edges[a]
        != g3.edges[b] by {
        if a < g.edges.len() {
            assert(g.nodes.contains(g.edges[a].before) && g.nodes.contains(g.edges[a].after));
        }
        if b < g.edges.len() {
            assert(g.nodes.contains(g.edges[b].before) && g.nodes.contains(g.edges[b].after));
        }
    }
}

/// Once the node is registered, every order of execution of the graph runs
/// it strictly after tone mapping and strictly before the end of
/// post-processing.
pub proof fn lemma_effect_runs_between(g: GraphView, order: Seq<NodeLabel>)
    requires
        g.wf(),
        registered(g) is Ok,
        is_execution_order(registered(g)->Ok_0, order),
    ensures
        order.contains(NodeLabel::Tonemapping),
        order.contains(NodeLabel::PostProcess),
        order.contains(NodeLabel::EndMainPassPostProcessing),
        order.index_of(NodeLabel::Tonemapping) < order.index_of(NodeLabel::PostProcess),
        order.index_of(NodeLabel::PostProcess) < order.index_of(
            NodeLabel::EndMainPassPostProcessing,
        ),
{
    let g3 = registered(g)->Ok_0;
    let t = g.nodes.index_of(NodeLabel::Tonemapping);
    let e = g.nodes.index_of(NodeLabel::EndMainPassPostProcessing);
    let p = g.nodes.len() as int;
    assert(g3.nodes[t] == NodeLabel::Tonemapping);
    assert(g3.nodes[e] == NodeLabel::EndMainPassPostProcessing);
    assert(g3.nodes[p] == NodeLabel::PostProcess);
    let first = g.edges.len() as int;
    assert(g3.edges[first] == Edge {
        before: NodeLabel::Tonemapping,
        after: NodeLabel::PostProcess,
    });
    assert(g3.edges[first + 1] == Edge {
        before: NodeLabel::PostProcess,
        after: NodeLabel::EndMainPassPostProcessing,
    });
    lemma_edge_orders(g3, order, NodeLabel::Tonemapping, NodeLabel::PostProcess);
    lemma_edge_orders(g3, order, NodeLabel::PostProcess, NodeLabel::EndMainPassPostProcessing);
}

/// In a frame in which the pipeline is ready, a view whose camera carries a
/// settings record, and which has a target, gets exactly one pass: a draw
/// of three vertices and one instance into the view's destination texture,
/// with the uniform bound at the camera's slot, which is a multiple of the
/// device's alignment.
pub proof fn lemma_camera_with_record_draws(
    records: Seq<CameraRecord>,
    alignment: u32,
    pipeline: PipelineHandle,
    sampler: SamplerDescriptor,
    view: RenderView,
)
    requires
        distinct_cameras(records),
        alignment > 0,
        fits(records.len(), stride_for(alignment as int)),
        has_camera(records, view.camera),
        view.target is Some,
    ensures
        ({
            let staged = extracted(records, alignment);
            let outcome = node_outcome(
                Some(pipeline),
                uniform_of(staged, view.camera),
                view.target,
                sampler,
            );
            let slot = index_of(records, view.camera);
            &&& outcome is Drawn
            &&& outcome->Drawn_0 == effect_pass(
                pipeline,
                sampler,
                staged[slot],
                view.target->0.frame_textures(),
            )
            &&& outcome->Drawn_0.vertex_count == 3
            &&& outcome->Drawn_0.instance_count == 1
            &&& outcome->Drawn_0.destination == view.target->0.spare
            &&& outcome->Drawn_0.bind_group.source == view.target->0.main
            &&& outcome->Drawn_0.dynamic_offset == slot * stride_for(alignment as int)
            &&& outcome->Drawn_0.dynamic_offset % alignment == 0
            &&& staged[slot].settings == records[slot].settings
            &&& view_after(view, outcome).target == Some(view.target->0.swapped())
        }),
{
    lemma_one_uniform_per_camera(records, alignment, view.camera);
}

/// A view whose camera carries no settings record gets no pass, whatever
/// else holds: the node skips it, and the view stays as it is.
pub proof fn lemma_camera_without_record_skips(
    records: Seq<CameraRecord>,
    alignment: u32,
    pipeline: Option<PipelineHandle>,
    sampler: SamplerDescriptor,
    view: RenderView,
)
    requires
        !has_camera(records, view.camera),
    ensures
        ({
            let outcome = node_outcome(
                pipeline,
                uniform_of(extracted(records, alignment), view.camera),
                view.target,
                sampler,
            );
            &&& outcome == NodeOutcome::Skipped(
                if pipeline is Some {
                    SkipReason::MissingUniform
                } else {
                    SkipReason::PipelineUnready
                },
            )
            &&& view_after(view, outcome) == view
        }),
{
    lemma_no_uniform_without_record(records, stride_for(alignment as int), view.camera);
}

/// While the pipeline is not ready no view gets a pass.
pub proof fn lemma_unready_pipeline_skips(
    uniform: Option<StagedUniform>,
    sampler: SamplerDescriptor,
    view: RenderView,
)
    ensures
        node_outcome(None, uniform, view.target, sampler) == NodeOutcome::Skipped(
            SkipReason::PipelineUnready,
        ),
{
}

} // verus!
