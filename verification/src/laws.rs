//! Laws of the submission-order validator, proved over the replay model.

use vstd::prelude::*;

use crate::encoder::{recorded, BlasBuildEntry, BuildOp, CommandBuffer};
use crate::tracker::{
    apply_op, build_dep_violation_of, build_dep_violations, ops_of, replay_buffers, replay_ops,
    snapshot_of, spec_bump, use_dep_violation_of, use_dep_violations, TrackerModel,
};
use crate::types::{TlasPackage, Violation};

verus! {

/// Whether an operation builds the given bottom-level structure.
pub open spec fn builds_blas(op: BuildOp, b: usize) -> bool {
    op matches BuildOp::BlasBuild { blas_id } && blas_id == b
}

/// Whether an operation builds the given top-level structure.
pub open spec fn builds_tlas(op: BuildOp, t: usize) -> bool {
    op matches BuildOp::TlasBuild { tlas_id, .. } && tlas_id == t
}

/// An element of either part is an element of the concatenation.
proof fn lemma_contains_in_concat<T>(a: Seq<T>, b: Seq<T>, x: T)
    requires
        a.contains(x) || b.contains(x),
    ensures
        (a + b).contains(x),
{
    if a.contains(x) {
        let i = choose|i: int| 0 <= i < a.len() && a[i] == x;
        assert((a + b)[i] == x);
    } else {
        let i = choose|i: int| 0 <= i < b.len() && b[i] == x;
        assert((a + b)[a.len() + i] == x);
    }
}

/// One replay step never registers or drops resources, and keeps the
/// tracker well-formed.
pub proof fn lemma_apply_op_frame(m: TrackerModel, op: BuildOp)
    ensures
        apply_op(m, op).0.blas.len() == m.blas.len(),
        apply_op(m, op).0.tlas.len() == m.tlas.len(),
        m.wf() ==> apply_op(m, op).0.deps.len() == m.deps.len(),
        m.wf() ==> apply_op(m, op).0.wf(),
{
}

/// Replay never registers or drops resources, and keeps the tracker
/// well-formed.
pub proof fn lemma_replay_frame(m: TrackerModel, ops: Seq<BuildOp>)
    ensures
        replay_ops(m, ops).0.blas.len() == m.blas.len(),
        replay_ops(m, ops).0.tlas.len() == m.tlas.len(),
        m.wf() ==> replay_ops(m, ops).0.deps.len() == m.deps.len(),
        m.wf() ==> replay_ops(m, ops).0.wf(),
    decreases ops.len(),
{
    if ops.len() > 0 {
        lemma_replay_frame(m, ops.drop_last());
        lemma_apply_op_frame(replay_ops(m, ops.drop_last()).0, ops.last());
    }
}

/// Replay of a concatenation is replay of the first part, then replay of
/// the second from the state the first one reached, with the violations of
/// both in order.
pub proof fn lemma_replay_concat(m: TrackerModel, a: Seq<BuildOp>, b: Seq<BuildOp>)
    ensures
        replay_ops(m, a + b).0 == replay_ops(replay_ops(m, a).0, b).0,
        replay_ops(m, a + b).1 == replay_ops(m, a).1 + replay_ops(replay_ops(m, a).0, b).1,
    decreases b.len(),
{
    let ma = replay_ops(m, a).0;
    if b.len() == 0 {
        assert(a + b =~= a);
        assert(replay_ops(m, a).1 + replay_ops(ma, b).1 =~= replay_ops(m, a).1);
    } else {
        lemma_replay_concat(m, a, b.drop_last());
        assert((a + b).drop_last() =~= a + b.drop_last());
        assert((a + b).last() == b.last());
        let pre = replay_ops(ma, b.drop_last());
        let step = apply_op(pre.0, b.last());
        assert(replay_ops(m, a).1 + (pre.1 + step.1) =~= (replay_ops(m, a).1 + pre.1) + step.1);
    }
}

/// A replay that contains no build of `b` leaves `b`'s generation exactly
/// as it was.
pub proof fn lemma_blas_unchanged(m: TrackerModel, ops: Seq<BuildOp>, b: usize)
    requires
        forall|j: int| 0 <= j < ops.len() ==> !builds_blas(#[trigger] ops[j], b),
    ensures
        b < m.blas.len() ==> replay_ops(m, ops).0.blas[b as int] == m.blas[b as int],
    decreases ops.len(),
{
    if ops.len() > 0 {
        assert(forall|j: int|
            0 <= j < ops.drop_last().len() ==> !builds_blas(#[trigger] ops.drop_last()[j], b));
        lemma_blas_unchanged(m, ops.drop_last(), b);
        lemma_replay_frame(m, ops.drop_last());
        assert(!builds_blas(ops.last(), b));
    }
}

/// Generations never decrease under replay: a build bumps, everything else
/// leaves them alone.
pub proof fn lemma_blas_monotone(m: TrackerModel, ops: Seq<BuildOp>, b: usize)
    requires
        b < m.blas.len(),
    ensures
        replay_ops(m, ops).0.blas[b as int] >= m.blas[b as int],
    decreases ops.len(),
{
    if ops.len() > 0 {
        lemma_blas_monotone(m, ops.drop_last(), b);
        lemma_replay_frame(m, ops.drop_last());
    }
}

/// Top-level generations never decrease under replay either: once built,
/// never unbuilt again.
pub proof fn lemma_tlas_monotone(m: TrackerModel, ops: Seq<BuildOp>, t: usize)
    requires
        t < m.tlas.len(),
    ensures
        replay_ops(m, ops).0.tlas[t as int] >= m.tlas[t as int],
    decreases ops.len(),
{
    if ops.len() > 0 {
        lemma_tlas_monotone(m, ops.drop_last(), t);
        lemma_replay_frame(m, ops.drop_last());
    }
}

/// A replay that contains no build of `t` leaves `t`'s generation and its
/// dependency snapshot exactly as they were.
pub proof fn lemma_tlas_unchanged(m: TrackerModel, ops: Seq<BuildOp>, t: usize)
    requires
        m.wf(),
        forall|j: int| 0 <= j < ops.len() ==> !builds_tlas(#[trigger] ops[j], t),
    ensures
        t < m.tlas.len() ==> replay_ops(m, ops).0.tlas[t as int] == m.tlas[t as int],
        t < m.deps.len() ==> replay_ops(m, ops).0.deps[t as int] == m.deps[t as int],
    decreases ops.len(),
{
    if ops.len() > 0 {
        assert(forall|j: int|
            0 <= j < ops.drop_last().len() ==> !builds_tlas(#[trigger] ops.drop_last()[j], t));
        lemma_tlas_unchanged(m, ops.drop_last(), t);
        lemma_replay_frame(m, ops.drop_last());
        lemma_apply_op_frame(replay_ops(m, ops.drop_last()).0, ops.last());
        assert(!builds_tlas(ops.last(), t));
    }
}

/// A checked build whose dependency list names an unbuilt, resolving
/// bottom-level structure reports that pair.
pub proof fn lemma_unbuilt_dep_in_build_violations(
    blas: Seq<u64>,
    tlas_id: usize,
    deps: Seq<usize>,
    d: usize,
)
    requires
        deps.contains(d),
        d < blas.len(),
        blas[d as int] == 0,
    ensures
        build_dep_violations(blas, tlas_id, deps, true).contains(
            Violation::UnbuiltDependency { tlas_id, blas_id: d },
        ),
    decreases deps.len(),
{
    let target = Violation::UnbuiltDependency { tlas_id, blas_id: d };
    let prefix = build_dep_violations(blas, tlas_id, deps.drop_last(), true);
    let last_part = build_dep_violation_of(blas, tlas_id, deps.last(), true);
    if deps.last() == d {
        assert(last_part == seq![target]);
        assert(last_part.contains(target)) by {
            assert(last_part[0] == target);
        }
        lemma_contains_in_concat(prefix, last_part, target);
    } else {
        let i = choose|i: int| 0 <= i < deps.len() && deps[i] == d;
        assert(deps.drop_last()[i] == d);
        lemma_unbuilt_dep_in_build_violations(blas, tlas_id, deps.drop_last(), d);
        lemma_contains_in_concat(prefix, last_part, target);
    }
}

/// A use of a snapshot holding an entry whose structure resolves but whose
/// current generation differs reports that pair as stale.
pub proof fn lemma_stale_dep_in_use_violations(
    blas: Seq<u64>,
    tlas_id: usize,
    snapshot: Seq<(usize, u64)>,
    entry: (usize, u64),
)
    requires
        snapshot.contains(entry),
        entry.0 < blas.len(),
        blas[entry.0 as int] != entry.1,
    ensures
        use_dep_violations(blas, tlas_id, snapshot).contains(
            Violation::StaleDependency { tlas_id, blas_id: entry.0 },
        ),
    decreases snapshot.len(),
{
    let target = Violation::StaleDependency { tlas_id, blas_id: entry.0 };
    let prefix = use_dep_violations(blas, tlas_id, snapshot.drop_last());
    let last_part = use_dep_violation_of(blas, tlas_id, snapshot.last());
    if snapshot.last() == entry {
        assert(last_part == seq![target]);
        assert(last_part.contains(target)) by {
            assert(last_part[0] == target);
        }
        lemma_contains_in_concat(prefix, last_part, target);
    } else {
        let i = choose|i: int| 0 <= i < snapshot.len() && snapshot[i] == entry;
        assert(snapshot.drop_last()[i] == entry);
        lemma_stale_dep_in_use_violations(blas, tlas_id, snapshot.drop_last(), entry);
        lemma_contains_in_concat(prefix, last_part, target);
    }
}

/// A checked build that reports nothing vouches for every dependency: each
/// one resolves and is built at that point in submission order.
pub proof fn clean_checked_build_means_deps_built(
    blas: Seq<u64>,
    tlas_id: usize,
    deps: Seq<usize>,
)
    requires
        build_dep_violations(blas, tlas_id, deps, true).len() == 0,
    ensures
        forall|i: int|
            0 <= i < deps.len() ==> (#[trigger] deps[i]) < blas.len() && blas[deps[i] as int] > 0,
    decreases deps.len(),
{
    if deps.len() > 0 {
        clean_checked_build_means_deps_built(blas, tlas_id, deps.drop_last());
        assert(forall|i: int| 0 <= i < deps.len() - 1 ==> #[trigger] deps[i] == deps.drop_last()[i]);
    }
}

/// A use that reports nothing vouches for the whole snapshot: every entry
/// resolves and its recorded generation is the current one, so no
/// dependency was rebuilt since the top-level structure's last build.
pub proof fn clean_use_means_snapshot_current(
    blas: Seq<u64>,
    tlas_id: usize,
    snapshot: Seq<(usize, u64)>,
)
    requires
        use_dep_violations(blas, tlas_id, snapshot).len() == 0,
    ensures
        forall|i: int|
            0 <= i < snapshot.len() ==> (#[trigger] snapshot[i]).0 < blas.len()
                && blas[snapshot[i].0 as int] == snapshot[i].1,
    decreases snapshot.len(),
{
    if snapshot.len() > 0 {
        clean_use_means_snapshot_current(blas, tlas_id, snapshot.drop_last());
        assert(forall|i: int|
            0 <= i < snapshot.len() - 1 ==> #[trigger] snapshot[i] == snapshot.drop_last()[i]);
    }
}

/// A snapshot taken from the current generation table is current: using it
/// against the same table reports nothing.
pub proof fn fresh_snapshot_is_current(blas: Seq<u64>, tlas_id: usize, deps: Seq<usize>)
    requires
        forall|i: int| 0 <= i < deps.len() ==> (#[trigger] deps[i]) < blas.len(),
    ensures
        use_dep_violations(blas, tlas_id, snapshot_of(blas, deps)) == Seq::<Violation>::empty(),
    decreases deps.len(),
{
    if deps.len() > 0 {
        assert(forall|i: int|
            0 <= i < deps.drop_last().len() ==> (#[trigger] deps.drop_last()[i]) < blas.len());
        fresh_snapshot_is_current(blas, tlas_id, deps.drop_last());
        let snapshot = snapshot_of(blas, deps);
        assert(snapshot.drop_last() =~= snapshot_of(blas, deps.drop_last()));
        assert(snapshot.last() == (deps.last(), blas[deps.last() as int]));
        assert(use_dep_violations(blas, tlas_id, snapshot) =~= Seq::<Violation>::empty());
    } else {
        assert(snapshot_of(blas, deps) =~= Seq::<(usize, u64)>::empty());
    }
}

/// The accepted direction of the usage invariant: right after a checked
/// top-level build that reported nothing, a use of that structure reports
/// nothing either — it is built, and its snapshot is current.
pub proof fn use_after_clean_checked_build_is_clean(
    m: TrackerModel,
    build: BuildOp,
    use_op: BuildOp,
    t: usize,
)
    requires
        m.wf(),
        build matches BuildOp::TlasBuild { tlas_id, deps, checked } && tlas_id == t && checked,
        use_op matches BuildOp::TlasUse { tlas_id } && tlas_id == t,
        t < m.tlas.len(),
        apply_op(m, build).1.len() == 0,
    ensures
        apply_op(apply_op(m, build).0, use_op).1.len() == 0,
{
    let m1 = apply_op(m, build).0;
    match build {
        BuildOp::TlasBuild { tlas_id, deps, checked } => {
            clean_checked_build_means_deps_built(m.blas, t, deps@);
            assert(m1.tlas[t as int] == spec_bump(m.tlas[t as int]));
            assert(m1.tlas[t as int] != 0);
            assert(m1.deps[t as int] == snapshot_of(m.blas, deps@));
            fresh_snapshot_is_current(m.blas, t, deps@);
        },
        BuildOp::BlasBuild { blas_id } => {
            assert(false);
        },
        BuildOp::TlasUse { tlas_id } => {
            assert(false);
        },
    }
}

/// If a checked top-level build at position `k` of a replay references a
/// bottom-level structure with zero prior builds at or before that point
/// in submission order — unbuilt at the baseline and not built by any
/// earlier operation — the replay reports that pair as an unbuilt
/// dependency, and the submission is rejected.
pub proof fn unbuilt_dependency_is_reported(
    m: TrackerModel,
    ops: Seq<BuildOp>,
    k: int,
    t: usize,
    d: usize,
)
    requires
        m.wf(),
        0 <= k < ops.len(),
        ops[k] matches BuildOp::TlasBuild { tlas_id, deps, checked } && tlas_id == t && checked
            && deps@.contains(d),
        t < m.tlas.len(),
        d < m.blas.len(),
        m.blas[d as int] == 0,
        forall|j: int| 0 <= j < k ==> !builds_blas(#[trigger] ops[j], d),
    ensures
        replay_ops(m, ops).1.contains(Violation::UnbuiltDependency { tlas_id: t, blas_id: d }),
        replay_ops(m, ops).1.len() != 0,
{
    let target = Violation::UnbuiltDependency { tlas_id: t, blas_id: d };
    let a = ops.subrange(0, k);
    let kk = ops.subrange(k, k + 1);
    let c = ops.subrange(k + 1, ops.len() as int);
    assert(ops =~= (a + kk) + c);
    lemma_replay_concat(m, a, kk);
    lemma_replay_concat(m, a + kk, c);
    let m1 = replay_ops(m, a).0;
    lemma_blas_unchanged(m, a, d);
    lemma_replay_frame(m, a);
    assert(kk.drop_last() =~= Seq::<BuildOp>::empty());
    assert(kk.last() == ops[k]);
    let op = ops[k];
    let step = apply_op(m1, op);
    match op {
        BuildOp::TlasBuild { tlas_id, deps, checked } => {
            lemma_unbuilt_dep_in_build_violations(m1.blas, t, deps@, d);
            assert(step.1.contains(target));
        },
        BuildOp::BlasBuild { blas_id } => {
            assert(false);
        },
        BuildOp::TlasUse { tlas_id } => {
            assert(false);
        },
    }
    assert(replay_ops(m1, Seq::<BuildOp>::empty()) == (m1, Seq::<Violation>::empty()));
    assert(replay_ops(m1, kk).1 == Seq::<Violation>::empty() + step.1);
    lemma_contains_in_concat(Seq::<Violation>::empty(), step.1, target);
    lemma_contains_in_concat(replay_ops(m, a).1, replay_ops(m1, kk).1, target);
    lemma_contains_in_concat(
        replay_ops(m, a + kk).1,
        replay_ops(replay_ops(m, a + kk).0, c).1,
        target,
    );
    assert(replay_ops(m, ops) == replay_ops(m, (a + kk) + c));
}

/// If a bottom-level structure is rebuilt after the top-level structure's
/// last build — its snapshot entry was current at the baseline, a build of
/// it appears at position `k`, and no build of the top-level structure
/// follows — then a use of the top-level structure at a later position `u`
/// reports the pair as a stale dependency, and the submission is rejected.
/// The generation recorded in the snapshot must be below the saturation
/// point of the counter, which every reachable state is in practice.
pub proof fn stale_dependency_is_reported(
    m: TrackerModel,
    ops: Seq<BuildOp>,
    k: int,
    u: int,
    t: usize,
    b: usize,
    g: u64,
)
    requires
        m.wf(),
        t < m.tlas.len(),
        b < m.blas.len(),
        m.tlas[t as int] != 0,
        m.deps[t as int].contains((b, g)),
        m.blas[b as int] == g,
        g < u64::MAX,
        0 <= k < u < ops.len(),
        builds_blas(ops[k], b),
        ops[u] matches BuildOp::TlasUse { tlas_id } && tlas_id == t,
        forall|j: int| 0 <= j < u ==> !builds_tlas(#[trigger] ops[j], t),
    ensures
        replay_ops(m, ops).1.contains(Violation::StaleDependency { tlas_id: t, blas_id: b }),
        replay_ops(m, ops).1.len() != 0,
{
    let target = Violation::StaleDependency { tlas_id: t, blas_id: b };
    let a = ops.subrange(0, k);
    let kk = ops.subrange(k, k + 1);
    let mid = ops.subrange(k + 1, u);
    let uu = ops.subrange(u, u + 1);
    let c = ops.subrange(u + 1, ops.len() as int);
    let p = ops.subrange(0, u);
    assert(p =~= (a + kk) + mid);
    assert(ops =~= (p + uu) + c);

    // The state before the use: the snapshot still holds (b, g), the
    // top-level structure is still built, and b's generation has passed g.
    lemma_replay_concat(m, a, kk);
    lemma_replay_concat(m, a + kk, mid);
    let m1 = replay_ops(m, a).0;
    lemma_replay_frame(m, a);
    lemma_blas_monotone(m, a, b);
    assert(kk.drop_last() =~= Seq::<BuildOp>::empty());
    assert(kk.last() == ops[k]);
    assert(replay_ops(m1, Seq::<BuildOp>::empty()) == (m1, Seq::<Violation>::empty()));
    let m2 = apply_op(m1, ops[k]).0;
    assert(replay_ops(m1, kk).0 == m2);
    assert(m2.blas[b as int] == spec_bump(m1.blas[b as int]));
    assert(m2.blas[b as int] > g);
    lemma_apply_op_frame(m1, ops[k]);
    let m3 = replay_ops(m2, mid).0;
    lemma_blas_monotone(m2, mid, b);
    lemma_replay_frame(m2, mid);
    assert(m3 == replay_ops(m, p).0);
    assert(forall|j: int| 0 <= j < p.len() ==> !builds_tlas(#[trigger] p[j], t));
    lemma_tlas_unchanged(m, p, t);
    lemma_replay_frame(m, p);
    assert(m3.tlas[t as int] != 0);
    assert(m3.deps[t as int].contains((b, g)));
    assert(m3.blas[b as int] > g);

    // The use op reports the stale pair.
    lemma_replay_concat(m, p, uu);
    assert(uu.drop_last() =~= Seq::<BuildOp>::empty());
    assert(uu.last() == ops[u]);
    assert(replay_ops(m3, Seq::<BuildOp>::empty()) == (m3, Seq::<Violation>::empty()));
    let step = apply_op(m3, ops[u]);
    assert(replay_ops(m3, uu).1 == Seq::<Violation>::empty() + step.1);
    match ops[u] {
        BuildOp::TlasUse { tlas_id } => {
            lemma_stale_dep_in_use_violations(m3.blas, t, m3.deps[t as int], (b, g));
            assert(step.1.contains(target));
        },
        BuildOp::BlasBuild { blas_id } => {
            assert(false);
        },
        BuildOp::TlasBuild { tlas_id, deps, checked } => {
            assert(false);
        },
    }
    lemma_contains_in_concat(Seq::<Violation>::empty(), step.1, target);
    lemma_contains_in_concat(replay_ops(m, p).1, replay_ops(m3, uu).1, target);
    lemma_replay_concat(m, p + uu, c);
    lemma_contains_in_concat(
        replay_ops(m, p + uu).1,
        replay_ops(replay_ops(m, p + uu).0, c).1,
        target,
    );
    assert(replay_ops(m, ops) == replay_ops(m, (p + uu) + c));
}

/// Submitting buffers `[x, y]` replays every operation of `x` before any
/// of `y`, irrespective of the order in which the two were recorded: the
/// outcome is the replay of `x` followed by the replay of `y` from the
/// state `x` reached.
pub proof fn submission_order_is_replay_order(m: TrackerModel, x: CommandBuffer, y: CommandBuffer)
    ensures
        ops_of(seq![x, y]) == x.ops@ + y.ops@,
        replay_buffers(m, seq![x, y]).0 == replay_ops(replay_ops(m, x.ops@).0, y.ops@).0,
        replay_buffers(m, seq![x, y]).1 == replay_ops(m, x.ops@).1 + replay_ops(
            replay_ops(m, x.ops@).0,
            y.ops@,
        ).1,
{
    let pair = seq![x, y];
    assert(pair.drop_last() =~= seq![x]);
    assert(seq![x].drop_last() =~= Seq::<CommandBuffer>::empty());
    assert(ops_of(Seq::<CommandBuffer>::empty()) == Seq::<BuildOp>::empty());
    assert(ops_of(seq![x]) == Seq::<BuildOp>::empty() + x.ops@);
    assert(ops_of(pair) =~= x.ops@ + y.ops@);
    lemma_replay_concat(m, x.ops@, y.ops@);
}

/// An empty submission is always accepted and changes nothing.
pub proof fn empty_submission_is_accepted_noop(m: TrackerModel)
    ensures
        replay_buffers(m, Seq::<CommandBuffer>::empty()).0 == m,
        replay_buffers(m, Seq::<CommandBuffer>::empty()).1 == Seq::<Violation>::empty(),
{
}

/// A record call with empty entry lists — checked or unchecked — appends
/// nothing: the log after it is the log before it.
pub proof fn empty_record_leaves_log(before: Seq<BuildOp>, after: Seq<BuildOp>, checked: bool)
    requires
        recorded(
            before,
            after,
            Seq::<BlasBuildEntry>::empty(),
            Seq::<TlasPackage>::empty(),
            checked,
        ),
    ensures
        after == before,
{
    assert(after =~= before);
}

} // verus!
