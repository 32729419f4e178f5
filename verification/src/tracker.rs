//! Resource generation tracker and the submission-order validator.
//!
//! The tracker is the ground truth on build state: one monotonic generation
//! counter per resource (zero meaning never built) and, per `Tlas`, the
//! dependency snapshot taken at its last accepted build. Validation replays
//! the recorded operations of a submission in order against a working copy
//! and commits the copy only when no violation was found.
//!
//! Staleness is detected lazily, at the next use of a top-level structure,
//! by comparing its snapshot against the current generations; rebuilding a
//! dependency does not eagerly flag its dependents.

use vstd::prelude::*;

use crate::encoder::{BuildOp, CommandBuffer};
use crate::types::Violation;

verus! {

/// Mathematical state of the tracker: generations indexed by identity and
/// one dependency snapshot per top-level structure. Generation zero means
/// the resource was never built.
pub ghost struct TrackerModel {
    pub blas: Seq<u64>,
    pub tlas: Seq<u64>,
    pub deps: Seq<Seq<(usize, u64)>>,
}

impl TrackerModel {
    /// Every top-level structure has a snapshot slot.
    pub open spec fn wf(self) -> bool {
        self.tlas.len() == self.deps.len()
    }
}

/// The generation after one more successful build. The counter is
/// monotonic and saturates at its maximum rather than wrapping back to an
/// unbuilt-looking value.
pub open spec fn spec_bump(g: u64) -> u64 {
    if g == u64::MAX {
        g
    } else {
        (g + 1) as u64
    }
}

/// Violations produced by checking the dependency list of one top-level
/// build against the working generation table, in slot order. An identity
/// that does not resolve is its own failure; for a checked build an
/// unbuilt dependency is one too. An unchecked build skips the
/// dependency-state check by caller assertion.
pub open spec fn build_dep_violations(
    blas: Seq<u64>,
    tlas_id: usize,
    deps: Seq<usize>,
    checked: bool,
) -> Seq<Violation>
    decreases deps.len(),
{
    if deps.len() == 0 {
        Seq::empty()
    } else {
        build_dep_violations(blas, tlas_id, deps.drop_last(), checked) + build_dep_violation_of(
            blas,
            tlas_id,
            deps.last(),
            checked,
        )
    }
}

/// The violations one dependency of a top-level build contributes.
pub open spec fn build_dep_violation_of(
    blas: Seq<u64>,
    tlas_id: usize,
    d: usize,
    checked: bool,
) -> Seq<Violation> {
    if d >= blas.len() {
        seq![Violation::MissingBlas { blas_id: d }]
    } else if checked && blas[d as int] == 0 {
        seq![Violation::UnbuiltDependency { tlas_id, blas_id: d }]
    } else {
        Seq::empty()
    }
}

/// The dependency snapshot a successful top-level build records: for each
/// referenced `Blas`, its generation in the working table at this instant.
pub open spec fn snapshot_of(blas: Seq<u64>, deps: Seq<usize>) -> Seq<(usize, u64)> {
    deps.map(|i: int, d: usize| (d, blas[d as int]))
}

/// Violations produced by checking a recorded snapshot at use time, in
/// snapshot order: a dependency rebuilt since the snapshot was taken is
/// stale, and an identity that no longer resolves is its own failure.
pub open spec fn use_dep_violations(
    blas: Seq<u64>,
    tlas_id: usize,
    snapshot: Seq<(usize, u64)>,
) -> Seq<Violation>
    decreases snapshot.len(),
{
    if snapshot.len() == 0 {
        Seq::empty()
    } else {
        use_dep_violations(blas, tlas_id, snapshot.drop_last()) + use_dep_violation_of(
            blas,
            tlas_id,
            snapshot.last(),
        )
    }
}

/// The violations one snapshot entry contributes at use time.
pub open spec fn use_dep_violation_of(blas: Seq<u64>, tlas_id: usize, entry: (usize, u64)) -> Seq<
    Violation,
> {
    if entry.0 >= blas.len() {
        seq![Violation::MissingBlas { blas_id: entry.0 }]
    } else if blas[entry.0 as int] != entry.1 {
        seq![Violation::StaleDependency { tlas_id, blas_id: entry.0 }]
    } else {
        Seq::empty()
    }
}

/// One replay step: the state after the operation and the violations it
/// reports. A bottom-level build bumps its generation; a top-level build
/// with a clean dependency list records a fresh snapshot and bumps its
/// generation, and otherwise leaves the state untouched; a use never
/// mutates state.
pub open spec fn apply_op(m: TrackerModel, op: BuildOp) -> (TrackerModel, Seq<Violation>) {
    match op {
        BuildOp::BlasBuild { blas_id } => {
            if blas_id >= m.blas.len() {
                (m, seq![Violation::MissingBlas { blas_id }])
            } else {
                (
                    TrackerModel {
                        blas: m.blas.update(blas_id as int, spec_bump(m.blas[blas_id as int])),
                        ..m
                    },
                    Seq::empty(),
                )
            }
        },
        BuildOp::TlasBuild { tlas_id, deps, checked } => {
            if tlas_id >= m.tlas.len() {
                (m, seq![Violation::MissingTlas { tlas_id }])
            } else {
                let vs = build_dep_violations(m.blas, tlas_id, deps@, checked);
                if vs.len() == 0 {
                    (
                        TrackerModel {
                            tlas: m.tlas.update(tlas_id as int, spec_bump(m.tlas[tlas_id as int])),
                            deps: m.deps.update(tlas_id as int, snapshot_of(m.blas, deps@)),
                            ..m
                        },
                        Seq::empty(),
                    )
                } else {
                    (m, vs)
                }
            }
        },
        BuildOp::TlasUse { tlas_id } => {
            if tlas_id >= m.tlas.len() {
                (m, seq![Violation::MissingTlas { tlas_id }])
            } else if m.tlas[tlas_id as int] == 0 {
                (m, seq![Violation::UnbuiltTlas { tlas_id }])
            } else {
                (m, use_dep_violations(m.blas, tlas_id, m.deps[tlas_id as int]))
            }
        },
    }
}

/// Replay of an operation sequence: the final state and all violations in
/// replay order.
pub open spec fn replay_ops(m: TrackerModel, ops: Seq<BuildOp>) -> (TrackerModel, Seq<Violation>)
    decreases ops.len(),
{
    if ops.len() == 0 {
        (m, Seq::empty())
    } else {
        let prefix = replay_ops(m, ops.drop_last());
        let stepped = apply_op(prefix.0, ops.last());
        (stepped.0, prefix.1 + stepped.1)
    }
}

/// The operations of an ordered submission, buffers in submission order and
/// operations within a buffer in encode order.
pub open spec fn ops_of(buffers: Seq<CommandBuffer>) -> Seq<BuildOp>
    decreases buffers.len(),
{
    if buffers.len() == 0 {
        Seq::empty()
    } else {
        ops_of(buffers.drop_last()) + buffers.last().ops@
    }
}

/// Replay of a whole submission against a baseline state.
pub open spec fn replay_buffers(m: TrackerModel, buffers: Seq<CommandBuffer>) -> (
    TrackerModel,
    Seq<Violation>,
) {
    replay_ops(m, ops_of(buffers))
}

/// Per-resource build-state tracker: the executable counterpart of
/// `TrackerModel`, owned by the device and mutated only by accepted
/// submissions and by resource creation.
pub struct Tracker {
    pub blas_gen: Vec<u64>,
    pub tlas_gen: Vec<u64>,
    pub tlas_deps: Vec<Vec<(usize, u64)>>,
}

impl View for Tracker {
    type V = TrackerModel;

    open spec fn view(&self) -> TrackerModel {
        TrackerModel {
            blas: self.blas_gen@,
            tlas: self.tlas_gen@,
            deps: self.tlas_deps@.map_values(|v: Vec<(usize, u64)>| v@),
        }
    }
}

impl Tracker {
    /// Every top-level structure has a snapshot slot.
    pub open spec fn wf(self) -> bool {
        self@.wf()
    }

    /// A tracker with no resources registered.
    pub fn new() -> (t: Tracker)
        ensures
            t.wf(),
            t@.blas == Seq::<u64>::empty(),
            t@.tlas == Seq::<u64>::empty(),
            t@.deps == Seq::<Seq<(usize, u64)>>::empty(),
    {
        let t = Tracker { blas_gen: Vec::new(), tlas_gen: Vec::new(), tlas_deps: Vec::new() };
        proof {
            assert(t@.deps =~= Seq::<Seq<(usize, u64)>>::empty());
        }
        t
    }

    /// Registers a new bottom-level structure, unbuilt, and returns its
    /// identity.
    pub fn register_blas(&mut self) -> (id: usize)
        requires
            old(self).wf(),
        ensures
            final(self).wf(),
            id == old(self)@.blas.len(),
            final(self)@.blas == old(self)@.blas.push(0u64),
            final(self)@.tlas == old(self)@.tlas,
            final(self)@.deps == old(self)@.deps,
    {
        let id = self.blas_gen.len();
        self.blas_gen.push(0);
        id
    }

    /// Registers a new top-level structure, unbuilt with an empty
    /// dependency snapshot, and returns its identity.
    pub fn register_tlas(&mut self) -> (id: usize)
        requires
            old(self).wf(),
        ensures
            final(self).wf(),
            id == old(self)@.tlas.len(),
            final(self)@.blas == old(self)@.blas,
            final(self)@.tlas == old(self)@.tlas.push(0u64),
            final(self)@.deps == old(self)@.deps.push(Seq::<(usize, u64)>::empty()),
    {
        let id = self.tlas_gen.len();
        self.tlas_gen.push(0);
        self.tlas_deps.push(Vec::new());
        proof {
            assert(self@.deps =~= old(self)@.deps.push(Seq::<(usize, u64)>::empty()));
        }
        id
    }

    /// A deep copy of the tracker state, the working table a replay
    /// mutates before the result is accepted or discarded.
    fn clone_state(&self) -> (t: Tracker)
        ensures
            t@ == self@,
    {
        let blas_gen = copy_gens(&self.blas_gen);
        let tlas_gen = copy_gens(&self.tlas_gen);
        let mut tlas_deps: Vec<Vec<(usize, u64)>> = Vec::new();
        let n = self.tlas_deps.len();
        let mut i: usize = 0;
        while i < n
            invariant
                i <= n,
                n == self.tlas_deps@.len(),
                tlas_deps@.len() == i,
                forall|j: int| 0 <= j < i ==> tlas_deps@[j]@ == #[trigger] self.tlas_deps@[j]@,
            decreases n - i,
        {
            tlas_deps.push(copy_snapshot(&self.tlas_deps[i]));
            i = i + 1;
        }
        let t = Tracker { blas_gen, tlas_gen, tlas_deps };
        proof {
            assert(t@.deps =~= self@.deps);
        }
        t
    }

    /// Replays one operation against the working table, appending the
    /// violations it reports.
    fn apply_one(&mut self, op: &BuildOp, violations: &mut Vec<Violation>)
        requires
            old(self).wf(),
        ensures
            final(self).wf(),
            final(self)@ == apply_op(old(self)@, *op).0,
            final(violations)@ == old(violations)@ + apply_op(old(self)@, *op).1,
    {
        match op {
            BuildOp::BlasBuild { blas_id } => {
                if *blas_id >= self.blas_gen.len() {
                    violations.push(Violation::MissingBlas { blas_id: *blas_id });
                } else {
                    let g = self.blas_gen[*blas_id];
                    let bumped = if g == u64::MAX {
                        g
                    } else {
                        g + 1
                    };
                    self.blas_gen.set(*blas_id, bumped);
                }
            },
            BuildOp::TlasBuild { tlas_id, deps, checked } => {
                if *tlas_id >= self.tlas_gen.len() {
                    violations.push(Violation::MissingTlas { tlas_id: *tlas_id });
                } else {
                    let ghost m = old(self)@;
                    let mut snapshot: Vec<(usize, u64)> = Vec::new();
                    let ghost found_before = violations@;
                    let mut clean = true;
                    let nd = deps.len();
                    let mut j: usize = 0;
                    while j < nd
                        invariant
                            j <= nd,
                            nd == deps@.len(),
                            self == old(self),
                            m == old(self)@,
                            violations@ == found_before + build_dep_violations(
                                m.blas,
                                *tlas_id,
                                deps@.take(j as int),
                                *checked,
                            ),
                            clean <==> build_dep_violations(
                                m.blas,
                                *tlas_id,
                                deps@.take(j as int),
                                *checked,
                            ).len() == 0,
                            clean ==> snapshot@ == snapshot_of(m.blas, deps@.take(j as int)),
                        decreases nd - j,
                    {
                        proof {
                            assert(deps@.take(j + 1 as int).drop_last() =~= deps@.take(j as int));
                            assert(deps@.take(j + 1 as int).last() == deps@[j as int]);
                        }
                        let d = deps[j];
                        if d >= self.blas_gen.len() {
                            violations.push(Violation::MissingBlas { blas_id: d });
                            clean = false;
                        } else if *checked && self.blas_gen[d] == 0 {
                            violations.push(
                                Violation::UnbuiltDependency { tlas_id: *tlas_id, blas_id: d },
                            );
                            clean = false;
                        } else if clean {
                            snapshot.push((d, self.blas_gen[d]));
                            proof {
                                assert(snapshot@ =~= snapshot_of(
                                    m.blas,
                                    deps@.take(j + 1 as int),
                                ));
                            }
                        }
                        j = j + 1;
                    }
                    proof {
                        assert(deps@.take(nd as int) =~= deps@);
                    }
                    if clean {
                        let g = self.tlas_gen[*tlas_id];
                        let bumped = if g == u64::MAX {
                            g
                        } else {
                            g + 1
                        };
                        self.tlas_gen.set(*tlas_id, bumped);
                        self.tlas_deps.set(*tlas_id, snapshot);
                        proof {
                            assert(self@.deps =~= m.deps.update(
                                *tlas_id as int,
                                snapshot_of(m.blas, deps@),
                            ));
                        }
                    }
                }
            },
            BuildOp::TlasUse { tlas_id } => {
                if *tlas_id >= self.tlas_gen.len() {
                    violations.push(Violation::MissingTlas { tlas_id: *tlas_id });
                } else if self.tlas_gen[*tlas_id] == 0 {
                    violations.push(Violation::UnbuiltTlas { tlas_id: *tlas_id });
                } else {
                    let ghost m = old(self)@;
                    let ghost found_before = violations@;
                    let snapshot = &self.tlas_deps[*tlas_id];
                    let ns = snapshot.len();
                    let mut j: usize = 0;
                    while j < ns
                        invariant
                            j <= ns,
                            ns == snapshot@.len(),
                            snapshot@ == m.deps[*tlas_id as int],
                            m == old(self)@,
                            m.blas == self.blas_gen@,
                            violations@ == found_before + use_dep_violations(
                                m.blas,
                                *tlas_id,
                                snapshot@.take(j as int),
                            ),
                        decreases ns - j,
                    {
                        proof {
                            assert(snapshot@.take(j + 1 as int).drop_last() =~= snapshot@.take(
                                j as int,
                            ));
                            assert(snapshot@.take(j + 1 as int).last() == snapshot@[j as int]);
                        }
                        let b = snapshot[j].0;
                        let g = snapshot[j].1;
                        if b >= self.blas_gen.len() {
                            violations.push(Violation::MissingBlas { blas_id: b });
                        } else if self.blas_gen[b] != g {
                            violations.push(
                                Violation::StaleDependency { tlas_id: *tlas_id, blas_id: b },
                            );
                        }
                        j = j + 1;
                    }
                    proof {
                        assert(snapshot@.take(ns as int) =~= snapshot@);
                    }
                }
            },
        }
    }

    /// The submission checkpoint: replays the buffers' operations in
    /// submission order against a working copy of the tracker and returns
    /// every violation found, in replay order. Acceptance is atomic: a
    /// clean submission commits the replayed state as the new baseline,
    /// and a rejected one leaves the tracker exactly as it was.
    pub fn validate_and_apply(&mut self, buffers: &Vec<CommandBuffer>) -> (violations: Vec<
        Violation,
    >)
        requires
            old(self).wf(),
        ensures
            final(self).wf(),
            violations@ == replay_buffers(old(self)@, buffers@).1,
            violations@.len() == 0 ==> final(self)@ == replay_buffers(old(self)@, buffers@).0,
            violations@.len() > 0 ==> final(self)@ == old(self)@,
    {
        let ghost m0 = self@;
        let mut work = self.clone_state();
        let mut violations: Vec<Violation> = Vec::new();
        let nb = buffers.len();
        let mut i: usize = 0;
        while i < nb
            invariant
                i <= nb,
                nb == buffers@.len(),
                work.wf(),
                m0 == self@,
                self == old(self),
                work@ == replay_ops(m0, ops_of(buffers@.take(i as int))).0,
                violations@ == replay_ops(m0, ops_of(buffers@.take(i as int))).1,
            decreases nb - i,
        {
            let ghost prefix = ops_of(buffers@.take(i as int));
            let buffer = &buffers[i];
            let no = buffer.ops.len();
            let mut j: usize = 0;
            while j < no
                invariant
                    j <= no,
                    no == buffer.ops@.len(),
                    work.wf(),
                    work@ == replay_ops(m0, prefix + buffer.ops@.take(j as int)).0,
                    violations@ == replay_ops(m0, prefix + buffer.ops@.take(j as int)).1,
                decreases no - j,
            {
                proof {
                    let done = prefix + buffer.ops@.take(j as int);
                    let next = prefix + buffer.ops@.take(j + 1 as int);
                    assert(next.drop_last() =~= done);
                    assert(next.last() == buffer.ops@[j as int]);
                    assert(next.len() > 0);
                }
                work.apply_one(&buffer.ops[j], &mut violations);
                j = j + 1;
            }
            proof {
                assert(buffers@.take(i + 1 as int).drop_last() =~= buffers@.take(i as int));
                assert(buffers@.take(i + 1 as int).last() == buffers@[i as int]);
                assert(prefix + buffer.ops@.take(no as int) =~= ops_of(
                    buffers@.take(i + 1 as int),
                ));
            }
            i = i + 1;
        }
        proof {
            assert(buffers@.take(nb as int) =~= buffers@);
        }
        if violations.len() == 0 {
            *self = work;
        }
        violations
    }
}

/// Copies one generation table.
fn copy_gens(src: &Vec<u64>) -> (r: Vec<u64>)
    ensures
        r@ == src@,
{
    let mut r: Vec<u64> = Vec::new();
    let n = src.len();
    let mut i: usize = 0;
    while i < n
        invariant
            i <= n,
            n == src@.len(),
            r@ == src@.take(i as int),
        decreases n - i,
    {
        r.push(src[i]);
        proof {
            assert(r@ =~= src@.take(i + 1 as int));
        }
        i = i + 1;
    }
    proof {
        assert(src@.take(n as int) =~= src@);
    }
    r
}

/// Copies one dependency snapshot.
fn copy_snapshot(src: &Vec<(usize, u64)>) -> (r: Vec<(usize, u64)>)
    ensures
        r@ == src@,
{
    let mut r: Vec<(usize, u64)> = Vec::new();
    let n = src.len();
    let mut i: usize = 0;
    while i < n
        invariant
            i <= n,
            n == src@.len(),
            r@ == src@.take(i as int),
        decreases n - i,
    {
        r.push(src[i]);
        proof {
            assert(r@ =~= src@.take(i + 1 as int));
        }
        i = i + 1;
    }
    proof {
        assert(src@.take(n as int) =~= src@);
    }
    r
}

} // verus!
