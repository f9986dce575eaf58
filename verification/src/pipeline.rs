//! The fixed GPU pipeline of the effect, described as plain data, and the
//! cache that compiles each distinct description once and hands it out by
//! identifier.
use crate::settings::SETTINGS_SIZE;
use vstd::prelude::*;

verus! {

/// Name of the fragment program's entry point.
pub const FRAGMENT_ENTRY_POINT: &'static str = "fragment";

/// Colour formats a view's output can have.
#[derive(Clone, Copy, Debug, PartialEq, Eq, Structural)]
pub enum TextureFormat {
    Rgba8UnormSrgb,
    Bgra8UnormSrgb,
    Rgba16Float,
}

/// What a binding of the effect's bind group holds.
#[derive(Clone, Copy, Debug, PartialEq, Eq, Structural)]
pub enum BindingKind {
    /// A sampled two-dimensional texture of filterable floats.
    SampledTexture,
    /// A sampler that may filter.
    FilteringSampler,
    /// A uniform buffer of at least `min_size` bytes, bound at an offset
    /// that is given with each draw.
    DynamicUniform { min_size: u64 },
}

/// Shader stages that can see a binding.
#[derive(Clone, Copy, Debug, PartialEq, Eq, Structural)]
pub enum ShaderStage {
    Vertex,
    Fragment,
}

/// One entry of a bind-group layout.
#[derive(Clone, Copy, Debug, PartialEq, Eq, Structural)]
pub struct LayoutEntry {
    pub binding: u32,
    pub visibility: ShaderStage,
    pub kind: BindingKind,
}

/// How a sampler treats coordinates outside the texture.
#[derive(Clone, Copy, Debug, PartialEq, Eq, Structural)]
pub enum AddressMode {
    ClampToEdge,
    Repeat,
    MirrorRepeat,
}

/// How a sampler picks a colour between texels.
#[derive(Clone, Copy, Debug, PartialEq, Eq, Structural)]
pub enum FilterMode {
    Nearest,
    Linear,
}

/// A texture sampler.
#[derive(Clone, Copy, Debug, PartialEq, Eq, Structural)]
pub struct SamplerDescriptor {
    pub address_mode: AddressMode,
    pub mag_filter: FilterMode,
    pub min_filter: FilterMode,
}

/// The ready pipeline state object, as the driver names it.
#[derive(Clone, Copy, Debug, PartialEq, Eq, Structural)]
pub struct PipelineHandle(pub u64);

/// Names a pipeline in the cache.
#[derive(Clone, Copy, Debug, PartialEq, Eq, Structural)]
pub struct CachedPipelineId(pub usize);

/// Why a pipeline could not be built. Either is a configuration error that
/// no later frame repairs.
#[derive(Clone, Copy, Debug, PartialEq, Eq, Structural)]
pub enum CompileError {
    /// The shader did not compile.
    Shader,
    /// The bind-group layout could not be constructed.
    Layout,
}

/// Where the compilation of a pipeline stands.
#[derive(Clone, Copy, Debug, PartialEq, Eq, Structural)]
pub enum PipelineState {
    Pending,
    Ready(PipelineHandle),
    Failed(CompileError),
}

/// The three bindings of the effect, in binding order: the scene colour, a
/// filtering sampler, and the settings record at a dynamic offset. All are
/// seen by the fragment stage only.
pub open spec fn effect_layout() -> Seq<LayoutEntry> {
    seq![
        LayoutEntry {
            binding: 0,
            visibility: ShaderStage::Fragment,
            kind: BindingKind::SampledTexture,
        },
        LayoutEntry {
            binding: 1,
            visibility: ShaderStage::Fragment,
            kind: BindingKind::FilteringSampler,
        },
        LayoutEntry {
            binding: 2,
            visibility: ShaderStage::Fragment,
            kind: BindingKind::DynamicUniform { min_size: SETTINGS_SIZE as u64 },
        },
    ]
}

/// The sampler of the effect: clamped at the edges, nearest texel.
pub open spec fn effect_sampler() -> SamplerDescriptor {
    SamplerDescriptor {
        address_mode: AddressMode::ClampToEdge,
        mag_filter: FilterMode::Nearest,
        min_filter: FilterMode::Nearest,
    }
}

/// A pipeline description as plain values.
pub struct DescriptorView {
    pub shader: Seq<u8>,
    pub layout: Seq<LayoutEntry>,
    pub vertex_buffers: u32,
    pub target_format: TextureFormat,
    pub blend: bool,
    pub depth_stencil: bool,
    pub sample_count: u32,
}

/// The effect's pipeline for a given fragment shader and output format: the
/// effect's layout, a vertex stage that takes no buffers, one colour target
/// of the given format written without blending, no depth or stencil, one
/// sample per pixel.
pub open spec fn effect_descriptor(shader: Seq<u8>, format: TextureFormat) -> DescriptorView {
    DescriptorView {
        shader,
        layout: effect_layout(),
        vertex_buffers: 0,
        target_format: format,
        blend: false,
        depth_stencil: false,
        sample_count: 1,
    }
}

/// Everything the driver needs to compile a render pipeline.
#[derive(Debug)]
pub struct PipelineDescriptor {
    /// Source of the fragment shader.
    pub shader: Vec<u8>,
    /// Layout of bind group 0.
    pub layout: Vec<LayoutEntry>,
    /// Number of vertex buffers the vertex stage reads.
    pub vertex_buffers: u32,
    /// Format of the one colour target.
    pub target_format: TextureFormat,
    /// Whether the output is blended with what the target holds.
    pub blend: bool,
    /// Whether a depth or stencil attachment is used.
    pub depth_stencil: bool,
    /// Samples per pixel.
    pub sample_count: u32,
}

impl View for PipelineDescriptor {
    type V = DescriptorView;

    open spec fn view(&self) -> DescriptorView {
        DescriptorView {
            shader: self.shader@,
            layout: self.layout@,
            vertex_buffers: self.vertex_buffers,
            target_format: self.target_format,
            blend: self.blend,
            depth_stencil: self.depth_stencil,
            sample_count: self.sample_count,
        }
    }
}

/// The effect's bind-group layout.
pub fn build_layout() -> (layout: Vec<LayoutEntry>)
    ensures
        layout@ == effect_layout(),
{
    let mut layout: Vec<LayoutEntry> = Vec::new();
    layout.push(
        LayoutEntry {
            binding: 0,
            visibility: ShaderStage::Fragment,
            kind: BindingKind::SampledTexture,
        },
    );
    layout.push(
        LayoutEntry {
            binding: 1,
            visibility: ShaderStage::Fragment,
            kind: BindingKind::FilteringSampler,
        },
    );
    layout.push(
        LayoutEntry {
            binding: 2,
            visibility: ShaderStage::Fragment,
            kind: BindingKind::DynamicUniform { min_size: SETTINGS_SIZE as u64 },
        },
    );
    assert(layout@ =~= effect_layout());
    layout
}

/// The effect's sampler.
pub fn build_sampler() -> (sampler: SamplerDescriptor)
    ensures
        sampler == effect_sampler(),
{
    SamplerDescriptor {
        address_mode: AddressMode::ClampToEdge,
        mag_filter: FilterMode::Nearest,
        min_filter: FilterMode::Nearest,
    }
}

impl PipelineDescriptor {
    /// The effect's pipeline description for `shader` and `format`.
    pub fn effect(shader: Vec<u8>, format: TextureFormat) -> (d: PipelineDescriptor)
        ensures
            d@ == effect_descriptor(shader@, format),
    {
        PipelineDescriptor {
            shader,
            layout: build_layout(),
            vertex_buffers: 0,
            target_format: format,
            blend: false,
            depth_stencil: false,
            sample_count: 1,
        }
    }

    /// Whether two descriptions describe the same pipeline.
    pub fn same_as(&self, other: &PipelineDescriptor) -> (r: bool)
        ensures
            r == (self@ == other@),
    {
        if self.vertex_buffers != other.vertex_buffers || self.target_format != other.target_format
            || self.blend != other.blend || self.depth_stencil != other.depth_stencil
            || self.sample_count != other.sample_count {
            return false;
        }
        if self.shader.len() != other.shader.len() || self.layout.len() != other.layout.len() {
            return false;
        }
        let mut i: usize = 0;
        while i < self.shader.len()
            invariant
                i <= self.shader@.len(),
                self.shader@.len() == other.shader@.len(),
                forall|k: int| 0 <= k < i ==> self.shader@[k] == other.shader@[k],
            decreases self.shader.len() - i,
        {
            if self.shader[i] != other.shader[i] {
                return false;
            }
            i += 1;
        }
        let mut j: usize = 0;
        while j < self.layout.len()
            invariant
                j <= self.layout@.len(),
                self.layout@.len() == other.layout@.len(),
                forall|k: int| 0 <= k < j ==> self.layout@[k] == other.layout@[k],
            decreases self.layout.len() - j,
        {
            if self.layout[j] != other.layout[j] {
                return false;
            }
            j += 1;
        }
        assert(self.shader@ =~= other.shader@);
        assert(self.layout@ =~= other.layout@);
        true
    }
}

/// One pipeline of the cache, as plain values.
pub struct CacheSlot {
    pub descriptor: DescriptorView,
    pub state: PipelineState,
}

/// Some slot holds the description `d`.
pub open spec fn has_descriptor(slots: Seq<CacheSlot>, d: DescriptorView) -> bool {
    exists|i: int| 0 <= i < slots.len() && slots[i].descriptor == d
}

/// The slot that holds the description `d`, where one does.
pub open spec fn slot_of(slots: Seq<CacheSlot>, d: DescriptorView) -> int {
    choose|i: int| 0 <= i < slots.len() && slots[i].descriptor == d
}

/// No description occupies two slots.
pub open spec fn distinct_descriptors(slots: Seq<CacheSlot>) -> bool {
    forall|i: int, j: int| 0 <= i < j < slots.len() ==> slots[i].descriptor != slots[j].descriptor
}

/// The handle that `id` resolves to: that of its slot once the slot is
/// ready, nothing before that, after a failure, or for an unknown `id`.
pub open spec fn resolved(slots: Seq<CacheSlot>, id: CachedPipelineId) -> Option<PipelineHandle> {
    if id.0 < slots.len() {
        match slots[id.0 as int].state {
            PipelineState::Ready(handle) => Some(handle),
            _ => None,
        }
    } else {
        None
    }
}

/// The cache after `d` was queued: unchanged where `d` has a slot, else with
/// a new pending slot for it at the end.
pub open spec fn queued(slots: Seq<CacheSlot>, d: DescriptorView) -> Seq<CacheSlot> {
    if has_descriptor(slots, d) {
        slots
    } else {
        slots.push(CacheSlot { descriptor: d, state: PipelineState::Pending })
    }
}

/// The identifier under which `d` is found after it was queued.
pub open spec fn queued_id(slots: Seq<CacheSlot>, d: DescriptorView) -> int {
    if has_descriptor(slots, d) {
        slot_of(slots, d)
    } else {
        slots.len() as int
    }
}

/// Among distinct descriptions, a slot found for `d` is the one `slot_of`
/// names.
pub proof fn lemma_slot_unique(slots: Seq<CacheSlot>, d: DescriptorView, i: int)
    requires
        distinct_descriptors(slots),
        0 <= i < slots.len(),
        slots[i].descriptor == d,
    ensures
        has_descriptor(slots, d),
        slot_of(slots, d) == i,
{
    let j = slot_of(slots, d);
    assert(0 <= j < slots.len() && slots[j].descriptor == d);
    if j < i {
        assert(slots[j].descriptor != slots[i].descriptor);
    } else if i < j {
        assert(slots[i].descriptor != slots[j].descriptor);
    }
}

struct CacheEntry {
    descriptor: PipelineDescriptor,
    state: PipelineState,
}

/// The pipelines of the render side. A description is compiled by the driver
/// in its own time; the cache records where each compilation stands and
/// never blocks on one.
pub struct PipelineCache {
    entries: Vec<CacheEntry>,
}

impl View for PipelineCache {
    type V = Seq<CacheSlot>;

    closed spec fn view(&self) -> Seq<CacheSlot> {
        Seq::new(
            self.entries@.len(),
            |i: int|
                CacheSlot {
                    descriptor: self.entries@[i].descriptor@,
                    state: self.entries@[i].state,
                },
        )
    }
}

impl PipelineCache {
    /// The cache's invariant: one slot per distinct description.
    pub open spec fn wf(&self) -> bool {
        distinct_descriptors(self@)
    }

    /// A cache without pipelines.
    pub fn new() -> (cache: PipelineCache)
        ensures
            cache.wf(),
            cache@.len() == 0,
    {
        PipelineCache { entries: Vec::new() }
    }

    /// Number of pipelines, whatever their state.
    pub fn len(&self) -> (n: usize)
        ensures
            n == self@.len(),
    {
        self.entries.len()
    }

    /// Asks for the pipeline that `descriptor` describes and returns its
    /// identifier at once. A description that the cache already holds keeps
    /// its slot and its state: nothing is compiled twice.
    pub fn queue_render_pipeline(&mut self, descriptor: PipelineDescriptor) -> (id:
        CachedPipelineId)
        requires
            old(self).wf(),
        ensures
            final(self).wf(),
            final(self)@ == queued(old(self)@, descriptor@),
            id.0 == queued_id(old(self)@, descriptor@),
            id.0 < final(self)@.len(),
            final(self)@[id.0 as int].descriptor == descriptor@,
    {
        let mut i: usize = 0;
        while i < self.entries.len()
            invariant
                self.wf(),
                i <= self.entries@.len(),
                self@.len() == self.entries@.len(),
                forall|k: int| 0 <= k < i ==> self@[k].descriptor != descriptor@,
            decreases self.entries.len() - i,
        {
            if self.entries[i].descriptor.same_as(&descriptor) {
                proof {
                    lemma_slot_unique(self@, descriptor@, i as int);
                }
                return CachedPipelineId(i);
            }
            i += 1;
        }
        let id = CachedPipelineId(self.entries.len());
        let ghost before = self@;
        let ghost wanted = descriptor@;
        self.entries.push(CacheEntry { descriptor, state: PipelineState::Pending });
        proof {
            assert(self@ =~= before.push(
                CacheSlot { descriptor: wanted, state: PipelineState::Pending },
            ));
        }
        id
    }

    /// The ready pipeline behind `id`; nothing while it is being compiled,
    /// after its compilation failed, or where `id` names no pipeline.
    pub fn get_render_pipeline(&self, id: CachedPipelineId) -> (r: Option<PipelineHandle>)
        ensures
            r == resolved(self@, id),
    {
        if id.0 < self.entries.len() {
            match self.entries[id.0].state {
                PipelineState::Ready(handle) => Some(handle),
                _ => None,
            }
        } else {
            None
        }
    }

    /// Where the compilation behind `id` stands.
    pub fn state(&self, id: CachedPipelineId) -> (r: Option<PipelineState>)
        ensures
            r == (if id.0 < self@.len() {
                Some(self@[id.0 as int].state)
            } else {
                None
            }),
    {
        if id.0 < self.entries.len() {
            Some(self.entries[id.0].state)
        } else {
            None
        }
    }

    /// The configuration error behind `id`: why its compilation failed, or
    /// nothing where it did not fail, or not yet, or `id` names no pipeline.
    pub fn failure(&self, id: CachedPipelineId) -> (r: Option<CompileError>)
        ensures
            r == (if id.0 < self@.len() {
                match self@[id.0 as int].state {
                    PipelineState::Failed(error) => Some(error),
                    _ => None,
                }
            } else {
                None
            }),
    {
        if id.0 < self.entries.len() {
            match self.entries[id.0].state {
                PipelineState::Failed(error) => Some(error),
                _ => None,
            }
        } else {
            None
        }
    }

    /// The description behind `id`, for the driver to compile.
    pub fn descriptor(&self, id: CachedPipelineId) -> (r: Option<&PipelineDescriptor>)
        ensures
            r is Some <==> id.0 < self@.len(),
            r is Some ==> r->0@ == self@[id.0 as int].descriptor,
    {
        if id.0 < self.entries.len() {
            Some(&self.entries[id.0].descriptor)
        } else {
            None
        }
    }

    /// The first pipeline that still waits for the driver, if any does.
    pub fn next_pending(&self) -> (r: Option<CachedPipelineId>)
        ensures
            match r {
                Some(id) => {
                    &&& id.0 < self@.len()
                    &&& self@[id.0 as int].state == PipelineState::Pending
                    &&& forall|k: int| 0 <= k < id.0 ==> self@[k].state != PipelineState::Pending
                },
                None => forall|k: int| 0 <= k < self@.len() ==> self@[k].state
                    != PipelineState::Pending,
            },
    {
        let mut i: usize = 0;
        while i < self.entries.len()
            invariant
                i <= self.entries@.len(),
                self@.len() == self.entries@.len(),
                forall|k: int| 0 <= k < i ==> self@[k].state != PipelineState::Pending,
            decreases self.entries.len() - i,
        {
            match self.entries[i].state {
                PipelineState::Pending => {
                    return Some(CachedPipelineId(i));
                },
                _ => {},
            }
            i += 1;
        }
        None
    }

    /// Records how the driver's compilation of `id` ended. Only a pending
    /// pipeline takes the outcome; one that is ready or has failed stays as
    /// it is. Returns whether the outcome was taken.
    pub fn finish_compile(
        &mut self,
        id: CachedPipelineId,
        outcome: Result<PipelineHandle, CompileError>,
    ) -> (taken: bool)
        requires
            old(self).wf(),
        ensures
            final(self).wf(),
            taken <==> id.0 < old(self)@.len() && old(self)@[id.0 as int].state
                == PipelineState::Pending,
            taken ==> final(self)@ == old(self)@.update(
                id.0 as int,
                (CacheSlot {
                    descriptor: old(self)@[id.0 as int].descriptor,
                    state: match outcome {
                        Ok(handle) => PipelineState::Ready(handle),
                        Err(error) => PipelineState::Failed(error),
                    },
                }),
            ),
            !taken ==> final(self)@ == old(self)@,
    {
        if id.0 >= self.entries.len() {
            return false;
        }
        match self.entries[id.0].state {
            PipelineState::Pending => {},
            _ => {
                return false;
            },
        }
        let state = match outcome {
            Ok(handle) => PipelineState::Ready(handle),
            Err(error) => PipelineState::Failed(error),
        };
        let ghost before = self@;
        self.entries[id.0].state = state;
        proof {
            assert(self@ =~= before.update(
                id.0 as int,
                CacheSlot { descriptor: before[id.0 as int].descriptor, state },
            ));
        }
        true
    }
}

/// What the effect keeps once it is set up: its bind-group layout, its
/// sampler, and the identifier of its pipeline in the cache.
#[derive(Debug)]
pub struct PostProcessPipeline {
    pub layout: Vec<LayoutEntry>,
    pub sampler: SamplerDescriptor,
    pub pipeline_id: CachedPipelineId,
}

impl PostProcessPipeline {
    /// Sets the effect up for the fragment shader `shader` and the output
    /// format `format`: builds layout and sampler and queues the pipeline.
    /// Returns at once; the pipeline is compiled later. Setting the effect
    /// up again for the same shader and format names the same pipeline and
    /// leaves the cache as it is.
    pub fn initialize(cache: &mut PipelineCache, shader: Vec<u8>, format: TextureFormat) -> (p:
        PostProcessPipeline)
        requires
            old(cache).wf(),
        ensures
            final(cache).wf(),
            final(cache)@ == queued(old(cache)@, effect_descriptor(shader@, format)),
            p.pipeline_id.0 == queued_id(old(cache)@, effect_descriptor(shader@, format)),
            p.pipeline_id.0 < final(cache)@.len(),
            final(cache)@[p.pipeline_id.0 as int].descriptor == effect_descriptor(
                shader@,
                format,
            ),
            p.layout@ == effect_layout(),
            p.sampler == effect_sampler(),
    {
        let layout = build_layout();
        let sampler = build_sampler();
        let descriptor = PipelineDescriptor::effect(shader, format);
        let pipeline_id = cache.queue_render_pipeline(descriptor);
        PostProcessPipeline { layout, sampler, pipeline_id }
    }
}

/// Queuing is idempotent: a description queued a second time gets the
/// identifier it got the first time, and the cache is what it was after the
/// first.
pub proof fn lemma_queue_idempotent(slots: Seq<CacheSlot>, d: DescriptorView)
    requires
        distinct_descriptors(slots),
    ensures
        distinct_descriptors(queued(slots, d)),
        has_descriptor(queued(slots, d), d),
        queued(queued(slots, d), d) == queued(slots, d),
        queued_id(queued(slots, d), d) == queued_id(slots, d),
{
    let once = queued(slots, d);
    if has_descriptor(slots, d) {
    } else {
        let i = slots.len() as int;
        assert(once[i].descriptor == d);
        assert forall|a: int, b: int| 0 <= a < b < once.len() implies once[a].descriptor
            != once[b].descriptor by {
            if b < slots.len() {
                assert(once[a] == slots[a] && once[b] == slots[b]);
            } else {
                assert(once[a] == slots[a]);
            }
        }
        lemma_slot_unique(once, d, i);
    }
}

} // verus!
