//! The render-graph node of the effect: what it decides, once per view and
//! frame, from what the render side holds.
use crate::pipeline::{
    resolved, PipelineCache, PipelineHandle, PostProcessPipeline, SamplerDescriptor,
};
use crate::settings::{CameraId, SETTINGS_SIZE};
use crate::stager::{uniform_of, StagedUniform, UniformStager};
use vstd::prelude::*;

verus! {

/// Names a texture of the render side.
#[derive(Clone, Copy, Debug, PartialEq, Eq, Structural)]
pub struct TextureId(pub u64);

/// The two textures of one pass: the one it reads, which the pass before it
/// wrote, and the one it writes.
#[derive(Clone, Copy, Debug, PartialEq, Eq, Structural)]
pub struct FrameTextures {
    pub source: TextureId,
    pub destination: TextureId,
}

/// The pair of textures a view swaps between: `main` holds the view's
/// current colour, `spare` is free to be written.
#[derive(Clone, Copy, Debug, PartialEq, Eq, Structural)]
pub struct ViewTarget {
    pub main: TextureId,
    pub spare: TextureId,
}

impl ViewTarget {
    /// The target after a post-processing write: what was spare is main.
    pub open spec fn swapped(self) -> ViewTarget {
        ViewTarget { main: self.spare, spare: self.main }
    }

    /// The textures of a post-processing write on this target.
    pub open spec fn frame_textures(self) -> FrameTextures {
        FrameTextures { source: self.main, destination: self.spare }
    }

    /// Starts a post-processing write: hands out the current colour as the
    /// source and the spare texture as the destination, and makes the
    /// destination the view's current colour for the passes that follow.
    pub fn post_process_write(&mut self) -> (textures: FrameTextures)
        ensures
            textures == old(self).frame_textures(),
            *final(self) == old(self).swapped(),
    {
        let textures = FrameTextures { source: self.main, destination: self.spare };
        self.main = textures.destination;
        self.spare = textures.source;
        textures
    }
}

/// One view of the frame: the camera it belongs to and its target, where
/// one could be had.
#[derive(Clone, Copy, Debug, PartialEq, Eq, Structural)]
pub struct RenderView {
    pub camera: CameraId,
    pub target: Option<ViewTarget>,
}

/// What becomes of a colour attachment's content when a pass begins.
#[derive(Clone, Copy, Debug, PartialEq, Eq, Structural)]
pub enum LoadOp {
    Load,
    Clear,
}

/// The resources bound for one draw, in binding order.
#[derive(Clone, Copy, Debug, PartialEq, Eq, Structural)]
pub struct BindGroup {
    /// Binding 0: the texture that is sampled.
    pub source: TextureId,
    /// Binding 1: the sampler.
    pub sampler: SamplerDescriptor,
    /// Binding 2: number of bytes of the uniform buffer that are bound,
    /// counted from the dynamic offset.
    pub uniform_size: u64,
}

/// One render pass with its single draw.
#[derive(Clone, Copy, Debug, PartialEq, Eq, Structural)]
pub struct RenderPass {
    pub pipeline: PipelineHandle,
    pub bind_group: BindGroup,
    /// Offset into the frame's uniform buffer at which binding 2 starts.
    pub dynamic_offset: u32,
    /// The one colour attachment.
    pub destination: TextureId,
    pub load: LoadOp,
    pub depth_stencil: bool,
    pub first_vertex: u32,
    pub vertex_count: u32,
    pub first_instance: u32,
    pub instance_count: u32,
}

/// Why a view went without the effect in a frame. None of these is an error.
#[derive(Clone, Copy, Debug, PartialEq, Eq, Structural)]
pub enum SkipReason {
    /// The pipeline is not compiled yet, or never will be.
    PipelineUnready,
    /// The view's camera has no staged uniform.
    MissingUniform,
    /// The view's textures could not be had.
    MissingTextures,
}

/// What the node did for a view.
#[derive(Clone, Copy, Debug, PartialEq, Eq, Structural)]
pub enum NodeOutcome {
    Skipped(SkipReason),
    Drawn(RenderPass),
}

/// The pass of the effect: one full-screen triangle, three vertices and one
/// instance, drawn with `pipeline` into the destination, which is neither
/// cleared nor depth-tested, reading the source through `sampler` and the
/// settings in `uniform`'s slot.
pub open spec fn effect_pass(
    pipeline: PipelineHandle,
    sampler: SamplerDescriptor,
    uniform: StagedUniform,
    textures: FrameTextures,
) -> RenderPass {
    RenderPass {
        pipeline,
        bind_group: BindGroup {
            source: textures.source,
            sampler,
            uniform_size: SETTINGS_SIZE as u64,
        },
        dynamic_offset: uniform.offset,
        destination: textures.destination,
        load: LoadOp::Load,
        depth_stencil: false,
        first_vertex: 0,
        vertex_count: 3,
        first_instance: 0,
        instance_count: 1,
    }
}

/// The node's decision for one view: it draws exactly when the pipeline is
/// ready, the camera has a staged uniform and the view has a target; else
/// it skips, naming the first of these that is missing.
pub open spec fn node_outcome(
    pipeline: Option<PipelineHandle>,
    uniform: Option<StagedUniform>,
    target: Option<ViewTarget>,
    sampler: SamplerDescriptor,
) -> NodeOutcome {
    match pipeline {
        None => NodeOutcome::Skipped(SkipReason::PipelineUnready),
        Some(handle) => match uniform {
            None => NodeOutcome::Skipped(SkipReason::MissingUniform),
            Some(staged) => match target {
                None => NodeOutcome::Skipped(SkipReason::MissingTextures),
                Some(view) => NodeOutcome::Drawn(
                    effect_pass(handle, sampler, staged, view.frame_textures()),
                ),
            },
        },
    }
}

/// Plans the pass of the effect from what was resolved for a view.
pub fn plan_pass(
    pipeline: PipelineHandle,
    sampler: SamplerDescriptor,
    uniform: StagedUniform,
    textures: FrameTextures,
) -> (pass: RenderPass)
    ensures
        pass == effect_pass(pipeline, sampler, uniform, textures),
{
    RenderPass {
        pipeline,
        bind_group: BindGroup {
            source: textures.source,
            sampler,
            uniform_size: SETTINGS_SIZE as u64,
        },
        dynamic_offset: uniform.offset,
        destination: textures.destination,
        load: LoadOp::Load,
        depth_stencil: false,
        first_vertex: 0,
        vertex_count: 3,
        first_instance: 0,
        instance_count: 1,
    }
}

/// Where the node stands within a frame.
#[derive(Clone, Copy, Debug, PartialEq, Eq, Structural)]
pub enum NodeState {
    /// Between frames.
    Idle,
    /// In a frame, the pipeline not resolved yet.
    PipelineUnready,
    /// In a frame, the pipeline resolved.
    Executing,
}

/// What moves the node from one state to the next.
#[derive(Clone, Copy, Debug, PartialEq, Eq, Structural)]
pub enum NodeEvent {
    /// The graph runs the node for a view.
    FrameStarted,
    /// The pipeline was found ready.
    PipelineReady,
    /// Something the draw needs is missing.
    Skipped,
    /// The pass with the draw has ended.
    PassEnded,
}

impl NodeState {
    /// The state that follows `self` on `event`. A frame's start leads to
    /// `PipelineUnready` from anywhere, since nothing is kept from one frame
    /// to the next; a ready pipeline leads from there to `Executing`; a skip
    /// or the pass's end leads back to `Idle`. An event that a state does
    /// not expect leaves it as it is.
    pub open spec fn after(self, event: NodeEvent) -> NodeState {
        match (self, event) {
            (_, NodeEvent::FrameStarted) => NodeState::PipelineUnready,
            (NodeState::PipelineUnready, NodeEvent::PipelineReady) => NodeState::Executing,
            (NodeState::PipelineUnready, NodeEvent::Skipped) => NodeState::Idle,
            (NodeState::Executing, NodeEvent::Skipped) => NodeState::Idle,
            (NodeState::Executing, NodeEvent::PassEnded) => NodeState::Idle,
            (state, _) => state,
        }
    }

    /// The state that follows `self` on `event`.
    pub fn next(self, event: NodeEvent) -> (state: NodeState)
        ensures
            state == self.after(event),
    {
        match event {
            NodeEvent::FrameStarted => NodeState::PipelineUnready,
            NodeEvent::PipelineReady => match self {
                NodeState::PipelineUnready => NodeState::Executing,
                _ => self,
            },
            NodeEvent::Skipped => NodeState::Idle,
            NodeEvent::PassEnded => match self {
                NodeState::Executing => NodeState::Idle,
                _ => self,
            },
        }
    }
}

/// The events of one run of the node, in order, for a given outcome.
pub open spec fn run_events(outcome: NodeOutcome) -> Seq<NodeEvent> {
    match outcome {
        NodeOutcome::Skipped(SkipReason::PipelineUnready) => seq![
            NodeEvent::FrameStarted,
            NodeEvent::Skipped,
        ],
        NodeOutcome::Skipped(_) => seq![
            NodeEvent::FrameStarted,
            NodeEvent::PipelineReady,
            NodeEvent::Skipped,
        ],
        NodeOutcome::Drawn(_) => seq![
            NodeEvent::FrameStarted,
            NodeEvent::PipelineReady,
            NodeEvent::PassEnded,
        ],
    }
}

/// The state reached from `state` through `events`.
pub open spec fn after_all(state: NodeState, events: Seq<NodeEvent>) -> NodeState
    decreases events.len(),
{
    if events.len() == 0 {
        state
    } else {
        after_all(state.after(events[0]), events.drop_first())
    }
}

/// The render-graph node of the effect.
#[derive(Debug)]
pub struct PostProcessNode {
    state: NodeState,
}

impl PostProcessNode {
    /// Where the node stands.
    pub closed spec fn state_view(&self) -> NodeState {
        self.state
    }

    /// A node between frames.
    pub fn new() -> (node: PostProcessNode)
        ensures
            node.state_view() == NodeState::Idle,
    {
        PostProcessNode { state: NodeState::Idle }
    }

    /// Where the node stands.
    pub fn state(&self) -> (state: NodeState)
        ensures
            state == self.state_view(),
    {
        self.state
    }

    /// Moves the node on `event`.
    pub fn advance(&mut self, event: NodeEvent)
        ensures
            final(self).state_view() == old(self).state_view().after(event),
    {
        self.state = self.state.next(event);
    }

    /// Runs the node for `view` in the current frame.
    ///
    /// The node draws exactly when `effect`'s pipeline is ready in
    /// `pipelines`, the view's camera has a uniform in `uniforms`, and the
    /// view has a target. The pass then reads the view's current colour and
    /// writes its spare texture, which becomes the view's current colour.
    /// In every other case the view is left untouched and the reason is
    /// returned; that is no error. Whatever state the node was left in, it
    /// starts afresh and is idle again when the run ends.
    pub fn run(
        &mut self,
        view: &mut RenderView,
        pipelines: &PipelineCache,
        effect: &PostProcessPipeline,
        uniforms: &UniformStager,
    ) -> (outcome: NodeOutcome)
        requires
            uniforms.wf(),
        ensures
            outcome == node_outcome(
                resolved(pipelines@, effect.pipeline_id),
                uniform_of(uniforms@.staged, old(view).camera),
                old(view).target,
                effect.sampler,
            ),
            final(view).camera == old(view).camera,
            final(view).target == (match outcome {
                NodeOutcome::Drawn(_) => Some(old(view).target->0.swapped()),
                NodeOutcome::Skipped(_) => old(view).target,
            }),
            final(self).state_view() == NodeState::Idle,
            final(self).state_view() == after_all(old(self).state_view(), run_events(outcome)),
    {
        let ghost start = self.state;
        self.advance(NodeEvent::FrameStarted);
        let pipeline = match pipelines.get_render_pipeline(effect.pipeline_id) {
            Some(pipeline) => pipeline,
            None => {
                self.advance(NodeEvent::Skipped);
                let outcome = NodeOutcome::Skipped(SkipReason::PipelineUnready);
                proof {
                    lemma_run_ends_idle(start, outcome);
                }
                return outcome;
            },
        };
        self.advance(NodeEvent::PipelineReady);
        let uniform = match uniforms.binding(view.camera) {
            Some(uniform) => uniform,
            None => {
                self.advance(NodeEvent::Skipped);
                let outcome = NodeOutcome::Skipped(SkipReason::MissingUniform);
                proof {
                    lemma_run_ends_idle(start, outcome);
                }
                return outcome;
            },
        };
        let mut target = match view.target {
            Some(target) => target,
            None => {
                self.advance(NodeEvent::Skipped);
                let outcome = NodeOutcome::Skipped(SkipReason::MissingTextures);
                proof {
                    lemma_run_ends_idle(start, outcome);
                }
                return outcome;
            },
        };
        let textures = target.post_process_write();
        view.target = Some(target);
        let pass = plan_pass(pipeline, effect.sampler, uniform, textures);
        self.advance(NodeEvent::PassEnded);
        let outcome = NodeOutcome::Drawn(pass);
        proof {
            lemma_run_ends_idle(start, outcome);
        }
        outcome
    }
}

/// Whatever the outcome and wherever the node stood before, the events of a
/// run lead it back to `Idle`.
pub proof fn lemma_run_ends_idle(start: NodeState, outcome: NodeOutcome)
    ensures
        after_all(start, run_events(outcome)) == NodeState::Idle,
{
    let events = run_events(outcome);
    reveal_with_fuel(after_all, 4);
    let rest = events.drop_first();
    assert(rest[0] == events[1]);
    let tail = rest.drop_first();
    if events.len() == 3 {
        assert(tail[0] == events[2]);
        assert(tail.drop_first().len() == 0);
    } else {
        assert(tail.len() == 0);
    }
}

} // verus!
