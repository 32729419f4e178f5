//! Build entry recording: the per-encoder operation log and its
//! encode-time, purely local validation.

use vstd::prelude::*;

use crate::types::{BindGroup, Blas, EncodeError, TlasInstance, TlasPackage, TriangleGeometry};

verus! {

/// One recorded operation. Entities are named by identity, not by value,
/// so a later mutation of the referenced resource is visible to the
/// validator at replay time.
pub enum BuildOp {
    /// Build or rebuild one bottom-level structure.
    BlasBuild { blas_id: usize },
    /// Build or rebuild one top-level structure against the listed
    /// bottom-level identities. `checked` is false for entries recorded
    /// through the unchecked path, whose dependency checks the caller
    /// asserts instead.
    TlasBuild { tlas_id: usize, deps: Vec<usize>, checked: bool },
    /// A dispatch that consumes the top-level structure.
    TlasUse { tlas_id: usize },
}

/// An ordered, immutable-once-finished sequence of recorded operations.
/// It has no effect until included in a submission.
pub struct CommandBuffer {
    pub ops: Vec<BuildOp>,
}

/// One bottom-level build request: the structure to build and the
/// geometries to build it from.
pub struct BlasBuildEntry {
    pub blas: Blas,
    pub geometries: Vec<TriangleGeometry>,
}

impl BlasBuildEntry {
    /// The encode-time structural check for one entry: one geometry per
    /// declared descriptor, each matching its descriptor.
    pub open spec fn structurally_ok(self) -> bool {
        &&& self.geometries@.len() == self.blas.sizes@.len()
        &&& forall|i: int|
            0 <= i < self.geometries@.len() ==> self.geometries@[i].matches(
                #[trigger] self.blas.sizes@[i],
            )
    }

    /// Runs the encode-time structural check.
    pub fn check(&self) -> (r: bool)
        ensures
            r == self.structurally_ok(),
    {
        if self.geometries.len() != self.blas.sizes.len() {
            return false;
        }
        let n = self.geometries.len();
        let mut i: usize = 0;
        while i < n
            invariant
                i <= n,
                n == self.geometries@.len(),
                n == self.blas.sizes@.len(),
                forall|j: int|
                    0 <= j < i ==> self.geometries@[j].matches(#[trigger] self.blas.sizes@[j]),
            decreases n - i,
        {
            if !self.geometries[i].check_against(&self.blas.sizes[i]) {
                return false;
            }
            i = i + 1;
        }
        true
    }
}

/// The bottom-level identities of the live instance slots of a package, in
/// slot order: the dependency list a top-level build records.
pub open spec fn live_deps(slots: Seq<Option<TlasInstance>>) -> Seq<usize>
    decreases slots.len(),
{
    if slots.len() == 0 {
        Seq::empty()
    } else {
        live_deps(slots.drop_last()) + (match slots.last() {
            Some(inst) => seq![inst.blas_id],
            None => Seq::<usize>::empty(),
        })
    }
}

/// What one recorded bottom-level operation says of its entry.
pub open spec fn records_blas_build(op: BuildOp, e: BlasBuildEntry) -> bool {
    op matches BuildOp::BlasBuild { blas_id } && blas_id == e.blas.id
}

/// What one recorded top-level operation says of its package.
pub open spec fn records_tlas_build(op: BuildOp, p: TlasPackage, checked: bool) -> bool {
    op matches BuildOp::TlasBuild { tlas_id, deps, checked: c } && tlas_id == p.tlas.id && deps@
        == live_deps(p.slots@) && c == checked
}

/// What the log looks like after a successful record call: the old log,
/// then one bottom-level operation per entry, then one top-level operation
/// per package, each in argument order.
pub open spec fn recorded(
    before: Seq<BuildOp>,
    after: Seq<BuildOp>,
    blas_entries: Seq<BlasBuildEntry>,
    tlas_packages: Seq<TlasPackage>,
    checked: bool,
) -> bool {
    &&& after.len() == before.len() + blas_entries.len() + tlas_packages.len()
    &&& forall|i: int| 0 <= i < before.len() ==> after[i] == before[i]
    &&& forall|i: int|
        0 <= i < blas_entries.len() ==> records_blas_build(
            #[trigger] after[before.len() + i],
            blas_entries[i],
        )
    &&& forall|i: int|
        0 <= i < tlas_packages.len() ==> records_tlas_build(
            #[trigger] after[before.len() + blas_entries.len() + i],
            tlas_packages[i],
            checked,
        )
}

/// Records build operations into a buffer-local ordered log. Only local,
/// structural validation happens here; no cross-buffer ordering check is
/// possible, since execution order is not yet known.
pub struct CommandEncoder {
    pub ops: Vec<BuildOp>,
}

impl CommandEncoder {
    /// A fresh encoder with an empty log.
    pub fn new() -> (e: CommandEncoder)
        ensures
            e.ops@ == Seq::<BuildOp>::empty(),
    {
        CommandEncoder { ops: Vec::new() }
    }

    /// Collects the dependency list of one package.
    fn collect_deps(package: &TlasPackage) -> (deps: Vec<usize>)
        ensures
            deps@ == live_deps(package.slots@),
    {
        let mut deps: Vec<usize> = Vec::new();
        let n = package.slots.len();
        let mut i: usize = 0;
        while i < n
            invariant
                i <= n,
                n == package.slots@.len(),
                deps@ == live_deps(package.slots@.take(i as int)),
            decreases n - i,
        {
            proof {
                assert(package.slots@.take(i + 1 as int).drop_last() =~= package.slots@.take(
                    i as int,
                ));
                assert(package.slots@.take(i + 1 as int).last() == package.slots@[i as int]);
            }
            match &package.slots[i] {
                Some(inst) => {
                    deps.push(inst.blas_id);
                },
                None => {},
            }
            i = i + 1;
        }
        proof {
            assert(package.slots@.take(n as int) =~= package.slots@);
        }
        deps
    }

    /// Shared recording body for the checked and unchecked calls.
    fn record(
        &mut self,
        blas_entries: &Vec<BlasBuildEntry>,
        tlas_packages: &Vec<TlasPackage>,
        checked: bool,
    ) -> (r: Result<(), EncodeError>)
        ensures
            match r {
                Ok(()) => {
                    &&& forall|i: int|
                        0 <= i < blas_entries@.len()
                            ==> (#[trigger] blas_entries@[i]).structurally_ok()
                    &&& recorded(
                        old(self).ops@,
                        final(self).ops@,
                        blas_entries@,
                        tlas_packages@,
                        checked,
                    )
                },
                Err(e) => {
                    &&& final(self).ops@ == old(self).ops@
                    &&& e matches EncodeError::StructuralMismatch { entry_index } && 0 <= entry_index
                        < blas_entries@.len() && !blas_entries@[entry_index as int].structurally_ok()
                        && (forall|j: int|
                        0 <= j < entry_index
                            ==> (#[trigger] blas_entries@[j]).structurally_ok())
                },
            },
    {
        let n_blas = blas_entries.len();
        let mut i: usize = 0;
        while i < n_blas
            invariant
                i <= n_blas,
                n_blas == blas_entries@.len(),
                forall|j: int| 0 <= j < i ==> (#[trigger] blas_entries@[j]).structurally_ok(),
            decreases n_blas - i,
        {
            if !blas_entries[i].check() {
                return Err(EncodeError::StructuralMismatch { entry_index: i });
            }
            i = i + 1;
        }
        let ghost before = self.ops@;
        let mut i: usize = 0;
        while i < n_blas
            invariant
                i <= n_blas,
                n_blas == blas_entries@.len(),
                self.ops@.len() == before.len() + i,
                forall|j: int| 0 <= j < before.len() ==> self.ops@[j] == before[j],
                forall|j: int|
                    0 <= j < i ==> records_blas_build(
                        #[trigger] self.ops@[before.len() + j],
                        blas_entries@[j],
                    ),
            decreases n_blas - i,
        {
            self.ops.push(BuildOp::BlasBuild { blas_id: blas_entries[i].blas.id });
            i = i + 1;
        }
        let n_tlas = tlas_packages.len();
        let mut i: usize = 0;
        while i < n_tlas
            invariant
                i <= n_tlas,
                n_tlas == tlas_packages@.len(),
                n_blas == blas_entries@.len(),
                self.ops@.len() == before.len() + n_blas + i,
                forall|j: int| 0 <= j < before.len() ==> self.ops@[j] == before[j],
                forall|j: int|
                    0 <= j < n_blas ==> records_blas_build(
                        #[trigger] self.ops@[before.len() + j],
                        blas_entries@[j],
                    ),
                forall|j: int|
                    0 <= j < i ==> records_tlas_build(
                        #[trigger] self.ops@[before.len() + n_blas + j],
                        tlas_packages@[j],
                        checked,
                    ),
            decreases n_tlas - i,
        {
            let deps = Self::collect_deps(&tlas_packages[i]);
            self.ops.push(
                BuildOp::TlasBuild { tlas_id: tlas_packages[i].tlas.id, deps, checked },
            );
            i = i + 1;
        }
        Ok(())
    }

    /// Records the given builds, dependency-checked at submission: one
    /// operation per entry, bottom-level entries first. Performs only the
    /// local structural check; on a mismatch nothing is recorded and the
    /// first offending entry is named. Empty entry lists always succeed
    /// and append nothing.
    pub fn build_acceleration_structures(
        &mut self,
        blas_entries: &Vec<BlasBuildEntry>,
        tlas_packages: &Vec<TlasPackage>,
    ) -> (r: Result<(), EncodeError>)
        ensures
            match r {
                Ok(()) => {
                    &&& forall|i: int|
                        0 <= i < blas_entries@.len()
                            ==> (#[trigger] blas_entries@[i]).structurally_ok()
                    &&& recorded(
                        old(self).ops@,
                        final(self).ops@,
                        blas_entries@,
                        tlas_packages@,
                        true,
                    )
                },
                Err(e) => {
                    &&& final(self).ops@ == old(self).ops@
                    &&& e matches EncodeError::StructuralMismatch { entry_index } && 0 <= entry_index
                        < blas_entries@.len() && !blas_entries@[entry_index as int].structurally_ok()
                        && (forall|j: int|
                        0 <= j < entry_index
                            ==> (#[trigger] blas_entries@[j]).structurally_ok())
                },
            },
    {
        self.record(blas_entries, tlas_packages, true)
    }

    /// The unchecked variant: recorded top-level builds are tagged so the
    /// validator skips their dependency checks, by caller assertion. The
    /// local structural check and the empty-input no-op guarantee still
    /// hold unconditionally.
    pub fn build_acceleration_structures_unchecked(
        &mut self,
        blas_entries: &Vec<BlasBuildEntry>,
        tlas_packages: &Vec<TlasPackage>,
    ) -> (r: Result<(), EncodeError>)
        ensures
            match r {
                Ok(()) => {
                    &&& forall|i: int|
                        0 <= i < blas_entries@.len()
                            ==> (#[trigger] blas_entries@[i]).structurally_ok()
                    &&& recorded(
                        old(self).ops@,
                        final(self).ops@,
                        blas_entries@,
                        tlas_packages@,
                        false,
                    )
                },
                Err(e) => {
                    &&& final(self).ops@ == old(self).ops@
                    &&& e matches EncodeError::StructuralMismatch { entry_index } && 0 <= entry_index
                        < blas_entries@.len() && !blas_entries@[entry_index as int].structurally_ok()
                        && (forall|j: int|
                        0 <= j < entry_index
                            ==> (#[trigger] blas_entries@[j]).structurally_ok())
                },
            },
    {
        self.record(blas_entries, tlas_packages, false)
    }

    /// Records a dispatch that consumes the bound top-level structure.
    /// Binding itself performs no check; the dependency checkpoint fires
    /// when the buffer holding this dispatch is submitted.
    pub fn dispatch(&mut self, bind_group: &BindGroup)
        ensures
            final(self).ops@ == old(self).ops@.push(
                BuildOp::TlasUse { tlas_id: bind_group.tlas_id },
            ),
    {
        self.ops.push(BuildOp::TlasUse { tlas_id: bind_group.tlas_id });
    }

    /// Finishes recording: the log becomes an immutable command buffer.
    pub fn finish(self) -> (cb: CommandBuffer)
        ensures
            cb.ops@ == self.ops@,
    {
        CommandBuffer { ops: self.ops }
    }
}

} // verus!
