//! The device: resource factory, submission queue, and the error channel
//! through which rejected submissions are reported.

use vstd::prelude::*;

use crate::encoder::CommandBuffer;
use crate::tracker::{replay_buffers, Tracker};
use crate::types::{
    BindGroup, Blas, CreateBlasDescriptor, CreateTlasDescriptor, GeometryDescriptor, Tlas,
    Violation,
};

verus! {

/// A device: owns the generation tracker, hands out acceleration-structure
/// handles, and queues submissions. All submissions for its queue go
/// through one exclusive `&mut self` bookkeeping point, so accepted
/// submissions are totally ordered.
pub struct Device {
    pub tracker: Tracker,
    pub errors: Vec<Violation>,
}

impl Device {
    /// Every top-level structure has a snapshot slot in the tracker.
    pub open spec fn wf(self) -> bool {
        self.tracker.wf()
    }

    /// A fresh device with no resources and no pending errors.
    pub fn new() -> (d: Device)
        ensures
            d.wf(),
            d.tracker@.blas == Seq::<u64>::empty(),
            d.tracker@.tlas == Seq::<u64>::empty(),
            d.errors@ == Seq::<Violation>::empty(),
    {
        Device { tracker: Tracker::new(), errors: Vec::new() }
    }

    /// Creates a bottom-level structure, unbuilt, owning the given
    /// geometry descriptors as its immutable size contract.
    pub fn create_blas(
        &mut self,
        desc: &CreateBlasDescriptor,
        sizes: Vec<GeometryDescriptor>,
    ) -> (blas: Blas)
        requires
            old(self).wf(),
        ensures
            final(self).wf(),
            blas.id == old(self).tracker@.blas.len(),
            blas.sizes@ == sizes@,
            blas.flags == desc.flags,
            blas.update_mode == desc.update_mode,
            final(self).tracker@.blas == old(self).tracker@.blas.push(0u64),
            final(self).tracker@.tlas == old(self).tracker@.tlas,
            final(self).tracker@.deps == old(self).tracker@.deps,
            final(self).errors@ == old(self).errors@,
    {
        let id = self.tracker.register_blas();
        Blas { id, sizes, flags: desc.flags, update_mode: desc.update_mode }
    }

    /// Creates a top-level structure, unbuilt with an empty dependency
    /// snapshot.
    pub fn create_tlas(&mut self, desc: &CreateTlasDescriptor) -> (tlas: Tlas)
        requires
            old(self).wf(),
        ensures
            final(self).wf(),
            tlas.id == old(self).tracker@.tlas.len(),
            tlas.max_instances == desc.max_instances,
            tlas.flags == desc.flags,
            tlas.update_mode == desc.update_mode,
            final(self).tracker@.blas == old(self).tracker@.blas,
            final(self).tracker@.tlas == old(self).tracker@.tlas.push(0u64),
            final(self).tracker@.deps == old(self).tracker@.deps.push(
                Seq::<(usize, u64)>::empty(),
            ),
            final(self).errors@ == old(self).errors@,
    {
        let id = self.tracker.register_tlas();
        Tlas {
            id,
            max_instances: desc.max_instances,
            flags: desc.flags,
            update_mode: desc.update_mode,
        }
    }

    /// Exposes a top-level structure to shader-visible binding tables.
    /// Binding performs no check.
    pub fn create_bind_group(&self, tlas: &Tlas) -> (bg: BindGroup)
        ensures
            bg.tlas_id == tlas.id,
    {
        BindGroup { tlas_id: tlas.id }
    }

    /// Submits an ordered batch of command buffers. The pass/fail decision
    /// is made here, before any work would be dispatched: a clean replay
    /// commits the tracker as the baseline for later submissions, and any
    /// violation rejects the submission as a whole, leaving the tracker
    /// untouched and delivering every violation through the error channel
    /// instead of a synchronous return value.
    pub fn submit(&mut self, buffers: &Vec<CommandBuffer>)
        requires
            old(self).wf(),
        ensures
            final(self).wf(),
            ({
                let outcome = replay_buffers(old(self).tracker@, buffers@);
                if outcome.1.len() == 0 {
                    final(self).tracker@ == outcome.0 && final(self).errors@ == old(self).errors@
                } else {
                    final(self).tracker@ == old(self).tracker@ && final(self).errors@ == old(self).errors@ + outcome.1
                }
            }),
    {
        let violations = self.tracker.validate_and_apply(buffers);
        let ghost settled = self.tracker@;
        let n = violations.len();
        let mut i: usize = 0;
        while i < n
            invariant
                i <= n,
                n == violations@.len(),
                self.errors@ == old(self).errors@ + violations@.take(i as int),
                self.tracker@ == settled,
                self.tracker.wf(),
            decreases n - i,
        {
            self.errors.push(violations[i]);
            proof {
                assert(self.errors@ =~= old(self).errors@ + violations@.take(i + 1 as int));
            }
            i = i + 1;
        }
        proof {
            assert(old(self).errors@ + violations@.take(n as int) =~= old(self).errors@
                + violations@);
            if n == 0 {
                assert(old(self).errors@ + violations@ =~= old(self).errors@);
            }
        }
    }

    /// Whether any rejected submission has an undelivered report.
    pub fn has_errors(&self) -> (b: bool)
        ensures
            b == (self.errors@.len() > 0),
    {
        self.errors.len() > 0
    }

    /// Takes the most recently reported violation off the error channel,
    /// or nothing when no rejection is pending.
    pub fn pop_error(&mut self) -> (r: Option<Violation>)
        ensures
            final(self).tracker == old(self).tracker,
            match r {
                Some(v) => {
                    &&& old(self).errors@.len() > 0
                    &&& v == old(self).errors@.last()
                    &&& final(self).errors@ == old(self).errors@.drop_last()
                },
                None => {
                    &&& old(self).errors@.len() == 0
                    &&& final(self).errors@ == old(self).errors@
                },
            },
    {
        self.errors.pop()
    }
}

} // verus!
