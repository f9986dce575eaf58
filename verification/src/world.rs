//! The simulation-side arena: which camera carries which settings record.
use crate::settings::{CameraId, PostProcessSettings};
use vstd::prelude::*;

verus! {

/// A camera together with the settings record attached to it.
#[derive(Clone, Copy, Debug, PartialEq, Eq, Structural)]
pub struct CameraRecord {
    pub camera: CameraId,
    pub settings: PostProcessSettings,
}

/// No camera occurs twice.
pub open spec fn distinct_cameras(records: Seq<CameraRecord>) -> bool {
    forall|i: int, j: int| 0 <= i < j < records.len() ==> records[i].camera != records[j].camera
}

/// Some record belongs to `camera`.
pub open spec fn has_camera(records: Seq<CameraRecord>, camera: CameraId) -> bool {
    exists|i: int| 0 <= i < records.len() && records[i].camera == camera
}

/// The place of `camera`'s record, where it has one.
pub open spec fn index_of(records: Seq<CameraRecord>, camera: CameraId) -> int {
    choose|i: int| 0 <= i < records.len() && records[i].camera == camera
}

/// The settings attached to `camera`, if any.
pub open spec fn settings_of(records: Seq<CameraRecord>, camera: CameraId) -> Option<
    PostProcessSettings,
> {
    if has_camera(records, camera) {
        Some(records[index_of(records, camera)].settings)
    } else {
        None
    }
}

/// Among distinct cameras, a record found for `camera` is the one at
/// `index_of`.
pub proof fn lemma_index_unique(records: Seq<CameraRecord>, camera: CameraId, i: int)
    requires
        distinct_cameras(records),
        0 <= i < records.len(),
        records[i].camera == camera,
    ensures
        has_camera(records, camera),
        index_of(records, camera) == i,
{
    let j = index_of(records, camera);
    assert(0 <= j < records.len() && records[j].camera == camera);
    if j < i {
        assert(records[j].camera != records[i].camera);
    } else if i < j {
        assert(records[i].camera != records[j].camera);
    }
}

/// The settings records of the simulation side, one per camera at most, in
/// the order in which the cameras first got one.
pub struct SettingsWorld {
    records: Vec<CameraRecord>,
}

impl View for SettingsWorld {
    type V = Seq<CameraRecord>;

    closed spec fn view(&self) -> Seq<CameraRecord> {
        self.records@
    }
}

impl SettingsWorld {
    /// The arena's invariant: one record per camera.
    pub open spec fn wf(&self) -> bool {
        distinct_cameras(self@)
    }

    /// An arena without records.
    pub fn new() -> (w: SettingsWorld)
        ensures
            w.wf(),
            w@ == Seq::<CameraRecord>::empty(),
    {
        SettingsWorld { records: Vec::new() }
    }

    /// Number of cameras that carry a record.
    pub fn len(&self) -> (n: usize)
        ensures
            n == self@.len(),
    {
        self.records.len()
    }

    /// The records, in order.
    pub fn records(&self) -> (records: &Vec<CameraRecord>)
        ensures
            records@ == self@,
    {
        &self.records
    }

    fn position(&self, camera: CameraId) -> (r: Option<usize>)
        requires
            self.wf(),
        ensures
            r is Some <==> has_camera(self@, camera),
            r is Some ==> r->0 == index_of(self@, camera) && r->0 < self@.len(),
    {
        let mut i: usize = 0;
        while i < self.records.len()
            invariant
                self.wf(),
                i <= self.records@.len(),
                forall|k: int| 0 <= k < i ==> self.records@[k].camera != camera,
            decreases self.records.len() - i,
        {
            if self.records[i].camera == camera {
                proof {
                    lemma_index_unique(self@, camera, i as int);
                }
                return Some(i);
            }
            i += 1;
        }
        None
    }

    /// The settings attached to `camera`, if any.
    pub fn get(&self, camera: CameraId) -> (r: Option<PostProcessSettings>)
        requires
            self.wf(),
        ensures
            r == settings_of(self@, camera),
    {
        match self.position(camera) {
            Some(i) => Some(self.records[i].settings),
            None => None,
        }
    }

    /// Attaches `settings` to `camera` and returns what was attached before.
    /// A camera that had a record keeps its place; a new one goes last.
    pub fn attach(&mut self, camera: CameraId, settings: PostProcessSettings) -> (previous: Option<
        PostProcessSettings,
    >)
        requires
            old(self).wf(),
        ensures
            final(self).wf(),
            previous == settings_of(old(self)@, camera),
            has_camera(old(self)@, camera) ==> final(self)@ == old(self)@.update(
                index_of(old(self)@, camera),
                (CameraRecord { camera, settings }),
            ),
            !has_camera(old(self)@, camera) ==> final(self)@ == old(self)@.push(
                (CameraRecord { camera, settings }),
            ),
            settings_of(final(self)@, camera) == Some(settings),
    {
        let record = CameraRecord { camera, settings };
        match self.position(camera) {
            Some(i) => {
                let before = self.records[i].settings;
                self.records[i] = record;
                proof {
                    lemma_index_unique(self@, camera, i as int);
                }
                Some(before)
            },
            None => {
                self.records.push(record);
                proof {
                    lemma_index_unique(self@, camera, self@.len() - 1);
                }
                None
            },
        }
    }

    /// Takes `camera`'s record away and returns its settings; the other
    /// records keep their order.
    pub fn detach(&mut self, camera: CameraId) -> (removed: Option<PostProcessSettings>)
        requires
            old(self).wf(),
        ensures
            final(self).wf(),
            removed == settings_of(old(self)@, camera),
            has_camera(old(self)@, camera) ==> final(self)@ == old(self)@.remove(
                index_of(old(self)@, camera),
            ),
            !has_camera(old(self)@, camera) ==> final(self)@ == old(self)@,
            !has_camera(final(self)@, camera),
    {
        match self.position(camera) {
            Some(i) => {
                let record = self.records.remove(i);
                proof {
                    let before = old(self)@;
                    let after = self@;
                    assert forall|k: int| 0 <= k < after.len() implies after[k].camera
                        != camera by {
                        if k < i {
                            assert(after[k] == before[k]);
                        } else {
                            assert(after[k] == before[k + 1]);
                        }
                    }
                    assert forall|a: int, b: int| 0 <= a < b < after.len() implies after[a].camera
                        != after[b].camera by {
                        let a0 = if a < i { a } else { a + 1 };
                        let b0 = if b < i { b } else { b + 1 };
                        assert(after[a] == before[a0]);
                        assert(after[b] == before[b0]);
                    }
                }
                Some(record.settings)
            },
            None => None,
        }
    }
}

} // verus!
