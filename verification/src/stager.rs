//! Once-per-frame staging of the settings records into one shared uniform
//! buffer, each record in a slot of its own at an aligned offset.
use crate::settings::{CameraId, PostProcessSettings, SETTINGS_SIZE};
use crate::world::{distinct_cameras, has_camera, index_of, CameraRecord, SettingsWorld};
use vstd::arithmetic::div_mod::{lemma_fundamental_div_mod, lemma_mod_multiples_basic};
use vstd::prelude::*;

verus! {

/// The GPU-visible copy of one camera's settings for the frame at hand, and
/// the byte offset of its slot in the frame's uniform buffer.
#[derive(Clone, Copy, Debug, PartialEq, Eq, Structural)]
pub struct StagedUniform {
    pub camera: CameraId,
    pub settings: PostProcessSettings,
    pub offset: u32,
}

/// Why a record was not staged.
#[derive(Clone, Copy, Debug, PartialEq, Eq, Structural)]
pub enum StageError {
    /// The camera already has a uniform in this frame.
    DuplicateCamera,
    /// The slot would end beyond what a 32-bit offset can address.
    BufferTooLarge,
}

/// The distance between two slots: the record's size rounded up to the next
/// multiple of `alignment`.
pub open spec fn stride_for(alignment: int) -> int {
    ((SETTINGS_SIZE + alignment - 1) / alignment) * alignment
}

/// `n` zero bytes.
pub open spec fn padding(n: int) -> Seq<u8> {
    Seq::new(n as nat, |k: int| 0u8)
}

/// Whether `count` slots can be addressed: the last one ends within what a
/// 32-bit offset reaches.
pub open spec fn fits(count: nat, stride: int) -> bool {
    count == 0 || (count - 1) * stride + SETTINGS_SIZE <= u32::MAX
}

/// The frame's uniform buffer: the layout of the `i`-th uniform's settings
/// at offset `i * stride`, zeros between two of them, and nothing after the
/// last.
pub open spec fn frame_bytes(staged: Seq<StagedUniform>, stride: int) -> Seq<u8>
    decreases staged.len(),
{
    if staged.len() == 0 {
        Seq::<u8>::empty()
    } else {
        let front = frame_bytes(staged.drop_last(), stride);
        front + padding((staged.len() - 1) * stride - front.len())
            + staged.last().settings.bytes()
    }
}

/// Some staged uniform belongs to `camera`.
pub open spec fn has_uniform(staged: Seq<StagedUniform>, camera: CameraId) -> bool {
    exists|i: int| 0 <= i < staged.len() && staged[i].camera == camera
}

/// The uniform staged for `camera`, if any.
pub open spec fn uniform_of(staged: Seq<StagedUniform>, camera: CameraId) -> Option<
    StagedUniform,
> {
    if has_uniform(staged, camera) {
        Some(staged[choose|i: int| 0 <= i < staged.len() && staged[i].camera == camera])
    } else {
        None
    }
}

/// No camera has two staged uniforms.
pub open spec fn distinct_uniforms(staged: Seq<StagedUniform>) -> bool {
    forall|i: int, j: int| 0 <= i < j < staged.len() ==> staged[i].camera != staged[j].camera
}

/// What extraction makes of the simulation side's records: one uniform per
/// record, in the same order, the `i`-th in the `i`-th slot.
pub open spec fn staged_from(records: Seq<CameraRecord>, stride: int) -> Seq<StagedUniform> {
    Seq::new(
        records.len(),
        |i: int|
            StagedUniform {
                camera: records[i].camera,
                settings: records[i].settings,
                offset: (i * stride) as u32,
            },
    )
}

/// The stride holds a whole record, is a multiple of the alignment, and is
/// the least such number.
pub proof fn lemma_stride(alignment: int)
    requires
        alignment > 0,
    ensures
        stride_for(alignment) >= SETTINGS_SIZE,
        stride_for(alignment) < SETTINGS_SIZE + alignment,
        stride_for(alignment) % alignment == 0,
{
    let x = SETTINGS_SIZE + alignment - 1;
    let q = x / alignment;
    lemma_fundamental_div_mod(x, alignment);
    assert(x == alignment * q + x % alignment);
    assert(0 <= x % alignment < alignment);
    assert(q * alignment == alignment * q) by (nonlinear_arith);
    lemma_mod_multiples_basic(q, alignment);
}

/// Every multiple of the stride is a multiple of the alignment.
pub proof fn lemma_slot_aligned(alignment: int, i: int)
    requires
        alignment > 0,
    ensures
        (i * stride_for(alignment)) % alignment == 0,
{
    let q = (SETTINGS_SIZE + alignment - 1) / alignment;
    assert(i * (q * alignment) == (i * q) * alignment) by (nonlinear_arith);
    lemma_mod_multiples_basic(i * q, alignment);
}

/// The frame's buffer ends with the last uniform's layout.
pub proof fn lemma_frame_len(staged: Seq<StagedUniform>, stride: int)
    requires
        stride >= SETTINGS_SIZE,
    ensures
        frame_bytes(staged, stride).len() == (if staged.len() == 0 {
            0
        } else {
            (staged.len() - 1) * stride + SETTINGS_SIZE
        }),
    decreases staged.len(),
{
    if staged.len() > 0 {
        let front = staged.drop_last();
        lemma_frame_len(front, stride);
        crate::settings::lemma_layout_round_trip(staged.last().settings);
        if front.len() > 0 {
            assert((front.len() - 1) * stride + stride == front.len() * stride)
                by (nonlinear_arith);
        }
    }
}

/// The `i`-th slot of the frame's buffer starts at `i * stride` and holds
/// the layout of the `i`-th uniform's settings.
pub proof fn lemma_frame_slot(staged: Seq<StagedUniform>, stride: int, i: int)
    requires
        stride >= SETTINGS_SIZE,
        0 <= i < staged.len(),
    ensures
        0 <= i * stride,
        i * stride + SETTINGS_SIZE <= frame_bytes(staged, stride).len(),
        frame_bytes(staged, stride).subrange(i * stride, i * stride + SETTINGS_SIZE)
            == staged[i].settings.bytes(),
    decreases staged.len(),
{
    let front = staged.drop_last();
    let whole = frame_bytes(staged, stride);
    lemma_frame_len(staged, stride);
    lemma_frame_len(front, stride);
    crate::settings::lemma_layout_round_trip(staged[i].settings);
    assert(0 <= i * stride && i * stride <= (staged.len() - 1) * stride) by (nonlinear_arith)
        requires
            0 <= i < staged.len(),
            stride >= 16,
    ;
    if i < staged.len() - 1 {
        lemma_frame_slot(front, stride, i);
        assert(whole.subrange(i * stride, i * stride + SETTINGS_SIZE) =~= frame_bytes(
            front,
            stride,
        ).subrange(i * stride, i * stride + SETTINGS_SIZE));
    } else {
        if front.len() > 0 {
            assert((front.len() - 1) * stride + stride == front.len() * stride)
                by (nonlinear_arith);
        }
        assert(whole.subrange(i * stride, i * stride + SETTINGS_SIZE)
            =~= staged[i].settings.bytes());
    }
}

/// Among distinct uniforms, one found for `camera` is the one `uniform_of`
/// names.
pub proof fn lemma_uniform_unique(staged: Seq<StagedUniform>, camera: CameraId, i: int)
    requires
        distinct_uniforms(staged),
        0 <= i < staged.len(),
        staged[i].camera == camera,
    ensures
        uniform_of(staged, camera) == Some(staged[i]),
{
    let j = choose|j: int| 0 <= j < staged.len() && staged[j].camera == camera;
    assert(0 <= j < staged.len() && staged[j].camera == camera);
    if j < i {
        assert(staged[j].camera != staged[i].camera);
    } else if i < j {
        assert(staged[i].camera != staged[j].camera);
    }
}

/// What a stager holds, as plain values.
pub struct StagerState {
    /// The device's minimum uniform-buffer offset alignment.
    pub alignment: u32,
    /// The uniforms staged in the current frame, in slot order.
    pub staged: Seq<StagedUniform>,
    /// The bytes to upload for the current frame.
    pub buffer: Seq<u8>,
}

/// The render side's per-frame copy of the settings records.
pub struct UniformStager {
    alignment: u32,
    buffer: Vec<u8>,
    staged: Vec<StagedUniform>,
}

impl View for UniformStager {
    type V = StagerState;

    closed spec fn view(&self) -> StagerState {
        StagerState { alignment: self.alignment, staged: self.staged@, buffer: self.buffer@ }
    }
}

impl UniformStager {
    /// The stager's invariant: a positive alignment; one uniform per camera
    /// at most; the `i`-th uniform at offset `i * stride`; every slot
    /// within reach of a 32-bit offset; and the buffer made of exactly the
    /// staged uniforms.
    pub open spec fn wf(&self) -> bool {
        &&& self@.alignment > 0
        &&& distinct_uniforms(self@.staged)
        &&& forall|i: int|
            0 <= i < self@.staged.len() ==> (#[trigger] self@.staged[i]).offset == i * stride_for(
                self@.alignment as int,
            )
        &&& fits(self@.staged.len(), stride_for(self@.alignment as int))
        &&& self@.buffer == frame_bytes(self@.staged, stride_for(self@.alignment as int))
    }

    /// In every well-formed state each staged uniform sits at a multiple of
    /// the alignment, and the buffer holds its settings' layout there.
    pub proof fn lemma_slots_aligned(&self, i: int)
        requires
            self.wf(),
            0 <= i < self@.staged.len(),
        ensures
            self@.staged[i].offset % self@.alignment == 0,
            self@.staged[i].offset + SETTINGS_SIZE <= self@.buffer.len(),
            self@.buffer.subrange(
                self@.staged[i].offset as int,
                self@.staged[i].offset + SETTINGS_SIZE,
            ) == self@.staged[i].settings.bytes(),
    {
        lemma_stride(self@.alignment as int);
        lemma_slot_aligned(self@.alignment as int, i);
        lemma_frame_slot(self@.staged, stride_for(self@.alignment as int), i);
    }

    /// A stager for a device with the given offset alignment, with nothing
    /// staged. `None` exactly when `alignment` is zero.
    pub fn new(alignment: u32) -> (r: Option<UniformStager>)
        ensures
            r is Some <==> alignment > 0,
            r is Some ==> r->0.wf() && r->0@.alignment == alignment && r->0@.staged.len() == 0,
    {
        if alignment == 0 {
            return None;
        }
        let stager = UniformStager { alignment, buffer: Vec::new(), staged: Vec::new() };
        assert(stager@.buffer =~= frame_bytes(stager@.staged, stride_for(alignment as int)));
        Some(stager)
    }

    /// The device's offset alignment.
    pub fn alignment(&self) -> (a: u32)
        ensures
            a == self@.alignment,
    {
        self.alignment
    }

    /// The distance in bytes between two slots.
    pub fn stride(&self) -> (s: u64)
        requires
            self@.alignment > 0,
        ensures
            s == stride_for(self@.alignment as int),
    {
        let a: u64 = self.alignment as u64;
        proof {
            lemma_stride(a as int);
        }
        ((SETTINGS_SIZE as u64 + a - 1) / a) * a
    }

    /// Number of uniforms staged in the current frame.
    pub fn len(&self) -> (n: usize)
        ensures
            n == self@.staged.len(),
    {
        self.staged.len()
    }

    /// The bytes to upload for the current frame, in one transfer.
    pub fn buffer(&self) -> (b: &Vec<u8>)
        ensures
            b@ == self@.buffer,
    {
        &self.buffer
    }

    /// The uniform in slot `i`.
    pub fn uniform(&self, i: usize) -> (r: Option<StagedUniform>)
        ensures
            r == (if i < self@.staged.len() {
                Some(self@.staged[i as int])
            } else {
                None
            }),
    {
        if i < self.staged.len() {
            Some(self.staged[i])
        } else {
            None
        }
    }

    /// The uniform staged for `camera` in the current frame, if any.
    pub fn binding(&self, camera: CameraId) -> (r: Option<StagedUniform>)
        requires
            self.wf(),
        ensures
            r == uniform_of(self@.staged, camera),
    {
        let mut i: usize = 0;
        while i < self.staged.len()
            invariant
                self.wf(),
                i <= self.staged@.len(),
                forall|k: int| 0 <= k < i ==> self.staged@[k].camera != camera,
            decreases self.staged.len() - i,
        {
            if self.staged[i].camera == camera {
                proof {
                    lemma_uniform_unique(self@.staged, camera, i as int);
                }
                return Some(self.staged[i]);
            }
            i += 1;
        }
        None
    }

    /// Starts a frame: what the last frame staged is dropped.
    pub fn begin_frame(&mut self)
        requires
            old(self)@.alignment > 0,
        ensures
            final(self).wf(),
            final(self)@.alignment == old(self)@.alignment,
            final(self)@.staged.len() == 0,
            final(self)@.buffer.len() == 0,
    {
        self.buffer.clear();
        self.staged.clear();
        assert(self@.buffer =~= frame_bytes(self@.staged, stride_for(self@.alignment as int)));
    }

    // Appends one uniform; the caller has checked that it is free to do so.
    fn push_slot(&mut self, camera: CameraId, settings: PostProcessSettings) -> (offset: u32)
        requires
            old(self).wf(),
            !has_uniform(old(self)@.staged, camera),
            fits(old(self)@.staged.len() + 1, stride_for(old(self)@.alignment as int)),
        ensures
            final(self).wf(),
            final(self)@.alignment == old(self)@.alignment,
            offset == old(self)@.staged.len() * stride_for(old(self)@.alignment as int),
            final(self)@.staged == old(self)@.staged.push(
                (StagedUniform { camera, settings, offset }),
            ),
    {
        let stride = self.stride();
        let ghost before = self@;
        let ghost count = before.staged.len() as int;
        proof {
            lemma_stride(self@.alignment as int);
            lemma_frame_len(self@.staged, stride as int);
            if count > 0 {
                assert((count - 1) * stride + stride == count * stride) by (nonlinear_arith);
            }
            assert(0 * stride == 0);
        }
        let start: u64 = if self.staged.len() == 0 {
            0
        } else {
            (self.buffer.len() - SETTINGS_SIZE) as u64 + stride
        };
        assert(start == count * stride);
        while (self.buffer.len() as u64) < start
            invariant
                self.alignment == before.alignment,
                self.staged@ == before.staged,
                before.buffer.len() <= self.buffer@.len() <= start,
                start + SETTINGS_SIZE <= u32::MAX,
                self.buffer@ == before.buffer + padding(
                    self.buffer@.len() - before.buffer.len(),
                ),
            decreases start - self.buffer@.len(),
        {
            self.buffer.push(0u8);
            assert(self.buffer@ =~= before.buffer + padding(
                self.buffer@.len() - before.buffer.len(),
            ));
        }
        assert(self.buffer@.len() == start);
        let offset = start as u32;
        settings.write_into(&mut self.buffer);
        let uniform = StagedUniform { camera, settings, offset };
        self.staged.push(uniform);
        proof {
            let staged = self@.staged;
            assert(staged.drop_last() =~= before.staged);
            assert(staged.last() == uniform);
            assert(self@.buffer =~= frame_bytes(staged, stride as int));
            assert forall|i: int| 0 <= i < staged.len() implies (#[trigger] staged[i]).offset == i
                * stride_for(self@.alignment as int) by {
                if i < before.staged.len() {
                    assert(staged[i] == before.staged[i]);
                }
            }
            assert forall|i: int, j: int| 0 <= i < j < staged.len() implies staged[i].camera
                != staged[j].camera by {
                if j < before.staged.len() {
                    assert(staged[i] == before.staged[i] && staged[j] == before.staged[j]);
                } else {
                    assert(staged[i] == before.staged[i]);
                }
            }
        }
        offset
    }

    /// Stages one record in the next free slot and returns the slot's offset.
    /// Fails, and changes nothing, where the camera already has a uniform in
    /// this frame or the slot would end beyond the reach of a 32-bit offset.
    pub fn stage(&mut self, camera: CameraId, settings: PostProcessSettings) -> (r: Result<
        u32,
        StageError,
    >)
        requires
            old(self).wf(),
        ensures
            final(self).wf(),
            final(self)@.alignment == old(self)@.alignment,
            match r {
                Ok(offset) => {
                    &&& !has_uniform(old(self)@.staged, camera)
                    &&& fits(old(self)@.staged.len() + 1, stride_for(old(self)@.alignment as int))
                    &&& offset == old(self)@.staged.len() * stride_for(
                        old(self)@.alignment as int,
                    )
                    &&& offset % old(self)@.alignment == 0
                    &&& final(self)@.staged == old(self)@.staged.push(
                        (StagedUniform { camera, settings, offset }),
                    )
                },
                Err(StageError::DuplicateCamera) => {
                    &&& has_uniform(old(self)@.staged, camera)
                    &&& final(self)@ == old(self)@
                },
                Err(StageError::BufferTooLarge) => {
                    &&& !has_uniform(old(self)@.staged, camera)
                    &&& !fits(
                        old(self)@.staged.len() + 1,
                        stride_for(old(self)@.alignment as int),
                    )
                    &&& final(self)@ == old(self)@
                },
            },
    {
        if self.binding(camera).is_some() {
            return Err(StageError::DuplicateCamera);
        }
        let stride = self.stride();
        let ghost count = self@.staged.len() as int;
        proof {
            lemma_stride(self@.alignment as int);
            lemma_frame_len(self@.staged, stride as int);
            lemma_slot_aligned(self@.alignment as int, count);
            if count > 0 {
                assert((count - 1) * stride + stride == count * stride) by (nonlinear_arith);
            }
            assert(0 * stride == 0);
        }
        let start: u64 = if self.staged.len() == 0 {
            0
        } else {
            (self.buffer.len() - SETTINGS_SIZE) as u64 + stride
        };
        assert(start == count * stride);
        if start + SETTINGS_SIZE as u64 > u32::MAX as u64 {
            return Err(StageError::BufferTooLarge);
        }
        Ok(self.push_slot(camera, settings))
    }

    /// The once-per-frame copy from the simulation side: drops the last
    /// frame's staging and stages every record of `world`, in order.
    /// Fails where the records do not all fit within the reach of a 32-bit
    /// offset; nothing is staged then.
    pub fn extract(&mut self, world: &SettingsWorld) -> (r: Result<(), StageError>)
        requires
            old(self).wf(),
            world.wf(),
        ensures
            final(self).wf(),
            final(self)@.alignment == old(self)@.alignment,
            r is Ok <==> fits(world@.len(), stride_for(old(self)@.alignment as int)),
            r is Ok ==> final(self)@.staged == staged_from(
                world@,
                stride_for(old(self)@.alignment as int),
            ),
            r is Err ==> r == Err::<(), StageError>(StageError::BufferTooLarge)
                && final(self)@.staged.len() == 0,
            forall|i: int|
                0 <= i < final(self)@.staged.len() ==> (#[trigger] final(self)@.staged[i]).offset
                    % final(self)@.alignment == 0,
    {
        self.begin_frame();
        let records = world.records();
        let n = records.len();
        let stride = self.stride();
        proof {
            lemma_stride(self@.alignment as int);
        }
        if n > 0 {
            let limit: u64 = ((u32::MAX - 16) as u64) / stride;
            proof {
                let m = (u32::MAX - 16) as int;
                let q = limit as int;
                let s = stride as int;
                let c = n - 1;
                lemma_fundamental_div_mod(m, s);
                assert(m == s * q + m % s);
                if c <= q {
                    assert(c * s <= s * q) by (nonlinear_arith)
                        requires
                            0 <= c <= q,
                            s > 0,
                    ;
                } else {
                    assert(c * s >= s * q + s) by (nonlinear_arith)
                        requires
                            c >= q + 1,
                            s > 0,
                    ;
                }
            }
            if (n - 1) as u64 > limit {
                return Err(StageError::BufferTooLarge);
            }
        }
        let mut i: usize = 0;
        while i < n
            invariant
                self.wf(),
                world.wf(),
                records@ == world@,
                n == world@.len(),
                i <= n,
                self@.alignment == old(self)@.alignment,
                stride == stride_for(self@.alignment as int),
                stride >= SETTINGS_SIZE,
                fits(n as nat, stride as int),
                self@.staged == staged_from(world@, stride as int).take(i as int),
            decreases n - i,
        {
            let record = records[i];
            let ghost before = self@.staged;
            proof {
                assert(i * stride <= (n - 1) * stride) by (nonlinear_arith)
                    requires
                        i <= n - 1,
                        stride >= 0,
                ;
                assert forall|k: int| 0 <= k < before.len() implies before[k].camera
                    != world@[i as int].camera by {
                    assert(before[k].camera == world@[k].camera);
                }
            }
            self.push_slot(record.camera, record.settings);
            assert(self@.staged =~= staged_from(world@, stride as int).take(i + 1));
            i += 1;
        }
        assert(self@.staged =~= staged_from(world@, stride as int));
        proof {
            assert forall|i: int| 0 <= i < self@.staged.len() implies (#[trigger] self@.staged[i]).offset
                % self@.alignment == 0 by {
                lemma_slot_aligned(self@.alignment as int, i);
            }
        }
        Ok(())
    }
}

/// After extraction every camera that carries a settings record has exactly
/// one staged uniform; it holds that record's settings, and its offset is a
/// multiple of the device's alignment.
pub proof fn lemma_one_uniform_per_camera(
    records: Seq<CameraRecord>,
    alignment: u32,
    camera: CameraId,
)
    requires
        distinct_cameras(records),
        alignment > 0,
        fits(records.len(), stride_for(alignment as int)),
        has_camera(records, camera),
    ensures
        ({
            let staged = staged_from(records, stride_for(alignment as int));
            let i = index_of(records, camera);
            &&& staged.len() == records.len()
            &&& 0 <= i < staged.len()
            &&& staged[i].camera == camera
            &&& staged[i].settings == records[i].settings
            &&& staged[i].offset == i * stride_for(alignment as int)
            &&& staged[i].offset % alignment == 0
            &&& forall|j: int| 0 <= j < staged.len() && staged[j].camera == camera ==> j == i
            &&& uniform_of(staged, camera) == Some(staged[i])
        }),
{
    let stride = stride_for(alignment as int);
    let staged = staged_from(records, stride);
    let i = index_of(records, camera);
    lemma_stride(alignment as int);
    lemma_slot_aligned(alignment as int, i);
    assert(0 <= i * stride <= (records.len() - 1) * stride) by (nonlinear_arith)
        requires
            0 <= i < records.len(),
            stride >= 0,
    ;
    assert forall|j: int| 0 <= j < staged.len() && staged[j].camera == camera implies j == i by {
        crate::world::lemma_index_unique(records, camera, j);
    }
    assert forall|a: int, b: int| 0 <= a < b < staged.len() implies staged[a].camera
        != staged[b].camera by {
        assert(records[a].camera != records[b].camera);
    }
    lemma_uniform_unique(staged, camera, i);
}

/// A camera without a settings record has no staged uniform after extraction.
pub proof fn lemma_no_uniform_without_record(
    records: Seq<CameraRecord>,
    stride: int,
    camera: CameraId,
)
    requires
        !has_camera(records, camera),
    ensures
        !has_uniform(staged_from(records, stride), camera),
        uniform_of(staged_from(records, stride), camera).is_none(),
{
    let staged = staged_from(records, stride);
    assert forall|i: int| 0 <= i < staged.len() implies staged[i].camera != camera by {
        assert(staged[i].camera == records[i].camera);
    }
}

} // verus!
