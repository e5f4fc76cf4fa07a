//! The system pipeline: each system declares the component kinds it reads
//! and writes and the systems it must run after; at startup one valid
//! linear order satisfying every "must run after" constraint is resolved,
//! failing fast — a configuration error — exactly when the constraint
//! graph admits no such order.

use vstd::prelude::*;
use vstd::pervasive::VecAdditionalExecFns;

use crate::SimError;

verus! {

/// The component kinds a system can declare in its read and write sets.
#[derive(Clone, Copy, Debug, PartialEq, Eq, Structural)]
pub enum ComponentKind {
    Position,
    Angle,
    Velocity,
    AngularVelocity,
    KeyboardControlled,
    BulletSpawner,
    Sprite,
    LayeredSprite,
}

/// One system's declaration: the component kinds it reads and writes, and
/// the indices of the systems it must run after.
#[derive(Clone, Debug)]
pub struct SystemDecl {
    pub reads: Vec<ComponentKind>,
    pub writes: Vec<ComponentKind>,
    pub after: Vec<usize>,
}

/// Every ordering dependency names a declared system.
pub open spec fn decls_closed(decls: Seq<SystemDecl>) -> bool {
    forall|i: int, j: int|
        0 <= i < decls.len() && 0 <= j < decls[i].after@.len() ==> (#[trigger] decls[i].after@[j])
            < decls.len()
}

/// System `s` appears among the first `k` scheduled positions.
pub open spec fn placed_before(order: Seq<usize>, k: int, s: usize) -> bool {
    exists|m: int| 0 <= m < k && order[m] == s
}

/// `order` schedules each declared system exactly once.
pub open spec fn is_permutation(order: Seq<usize>, n: nat) -> bool {
    &&& order.len() == n
    &&& forall|k: int| 0 <= k < order.len() ==> (#[trigger] order[k]) < n
    &&& forall|k1: int, k2: int| 0 <= k1 < k2 < order.len() ==> order[k1] != order[k2]
    &&& forall|s: int| 0 <= s < n ==> #[trigger] placed_before(order, n as int, s as usize)
}

/// Every system is scheduled after each of its declared predecessors.
pub open spec fn respects_deps(order: Seq<usize>, decls: Seq<SystemDecl>) -> bool {
    forall|k: int, j: int|
        0 <= k < order.len() && 0 <= j < decls[order[k] as int].after@.len() ==> placed_before(
            order,
            k,
            #[trigger] decls[order[k] as int].after@[j],
        )
}

/// A valid schedule for the declared systems.
pub open spec fn valid_order(order: Seq<usize>, decls: Seq<SystemDecl>) -> bool {
    is_permutation(order, decls.len()) && respects_deps(order, decls)
}

/// How many of the first `i` systems are already scheduled.
pub open spec fn count_true(s: Seq<bool>, i: int) -> nat
    decreases i,
{
    if i <= 0 {
        0
    } else {
        count_true(s, i - 1) + (if s[i - 1] {
            1nat
        } else {
            0nat
        })
    }
}

proof fn lemma_count_true_le(s: Seq<bool>, i: int)
    requires
        0 <= i <= s.len(),
    ensures
        count_true(s, i) <= i,
    decreases i,
{
    if i > 0 {
        lemma_count_true_le(s, i - 1);
    }
}

proof fn lemma_count_true_update(s: Seq<bool>, j: int, i: int)
    requires
        0 <= j < s.len(),
        0 <= i <= s.len(),
        !s[j],
    ensures
        count_true(s.update(j, true), i) == count_true(s, i) + (if j < i {
            1int
        } else {
            0int
        }),
    decreases i,
{
    if i > 0 {
        lemma_count_true_update(s, j, i - 1);
    }
}

proof fn lemma_count_true_full(s: Seq<bool>, i: int)
    requires
        0 <= i <= s.len(),
        count_true(s, i) == i,
    ensures
        forall|m: int| 0 <= m < i ==> s[m],
    decreases i,
{
    if i > 0 {
        lemma_count_true_le(s, i - 1);
        lemma_count_true_full(s, i - 1);
    }
}

proof fn lemma_count_true_missing(s: Seq<bool>, i: int)
    requires
        0 <= i <= s.len(),
        count_true(s, i) < i,
    ensures
        exists|m: int| 0 <= m < i && !s[m],
    decreases i,
{
    if i > 0 {
        if s[i - 1] {
            lemma_count_true_missing(s, i - 1);
        } else {
            assert(0 <= i - 1 < i && !s[i - 1]);
        }
    }
}

/// A world stuck mid-resolution — some system unscheduled, and every
/// unscheduled system waiting on another unscheduled one — admits no valid
/// schedule at all: in any candidate order the earliest unscheduled system
/// would need an unscheduled predecessor before it.
proof fn lemma_prefix_all_placed(
    decls: Seq<SystemDecl>,
    placed: Seq<bool>,
    ord: Seq<usize>,
    k: int,
)
    requires
        decls_closed(decls),
        decls.len() <= usize::MAX,
        placed.len() == decls.len(),
        forall|s: int|
            0 <= s < placed.len() && !placed[s] ==> exists|j: int|
                0 <= j < decls[s].after@.len() && !placed[#[trigger] decls[s].after@[j] as int],
        valid_order(ord, decls),
        0 <= k <= ord.len(),
    ensures
        forall|m: int| 0 <= m < k ==> placed[ord[m] as int],
    decreases k,
{
    if k > 0 {
        lemma_prefix_all_placed(decls, placed, ord, k - 1);
        let s = ord[k - 1] as int;
        if !placed[s] {
            let j = choose|j: int|
                0 <= j < decls[s].after@.len() && !placed[decls[s].after@[j] as int];
            assert(placed_before(ord, k - 1, decls[s].after@[j]));
            let m = choose|m: int| 0 <= m < k - 1 && ord[m] == decls[s].after@[j];
            assert(placed[ord[m] as int]);
            assert(false);
        }
    }
}

proof fn lemma_stuck_no_order(decls: Seq<SystemDecl>, placed: Seq<bool>, ord: Seq<usize>)
    requires
        decls_closed(decls),
        decls.len() <= usize::MAX,
        placed.len() == decls.len(),
        exists|s: int| 0 <= s < placed.len() && !placed[s],
        forall|s: int|
            0 <= s < placed.len() && !placed[s] ==> exists|j: int|
                0 <= j < decls[s].after@.len() && !placed[#[trigger] decls[s].after@[j] as int],
    ensures
        !valid_order(ord, decls),
{
    if valid_order(ord, decls) {
        lemma_prefix_all_placed(decls, placed, ord, ord.len() as int);
        let s0 = choose|s: int| 0 <= s < placed.len() && !placed[s];
        assert(placed_before(ord, decls.len() as int, s0 as usize));
        let m = choose|m: int| 0 <= m < decls.len() && ord[m] == s0 as usize;
        assert(placed[ord[m] as int]);
    }
}

/// Resolves one valid execution order for the declared systems, or fails
/// fast — a configuration error, never a runtime condition — exactly when
/// the "must run after" graph is cyclic, that is, when no valid order
/// exists.
pub fn resolve_order(decls: &Vec<SystemDecl>) -> (r: Result<Vec<usize>, SimError>)
    requires
        decls_closed(decls@),
    ensures
        r matches Ok(order) ==> valid_order(order@, decls@),
        r is Err ==> forall|ord: Seq<usize>| !valid_order(ord, decls@),
        r is Err ==> r == Err::<Vec<usize>, SimError>(SimError::DependencyCycle),
{
    let n = decls.len();
    let mut placed: Vec<bool> = Vec::new();
    let mut f: usize = 0;
    while f < n
        invariant
            placed@.len() == f,
            f <= n,
            forall|s: int| 0 <= s < f ==> !placed@[s],
        decreases n - f,
    {
        placed.push(false);
        f = f + 1;
    }
    let mut order: Vec<usize> = Vec::new();
    proof {
        lemma_count_true_le(placed@, 0);
        assert(count_true(placed@, n as int) == 0) by {
            lemma_count_all_false(placed@, n as int);
        }
    }
    loop
        invariant
            n == decls@.len(),
            decls_closed(decls@),
            placed@.len() == n,
            order@.len() == count_true(placed@, n as int),
            order@.len() <= n,
            forall|s: int| 0 <= s < n ==> (placed@[s] <==> placed_before(order@, order@.len() as int, s as usize)),
            forall|k: int| 0 <= k < order@.len() ==> (#[trigger] order@[k]) < n,
            forall|k1: int, k2: int| 0 <= k1 < k2 < order@.len() ==> order@[k1] != order@[k2],
            respects_deps(order@, decls@),
        decreases n - order@.len(),
    {
        let ghost placed0 = placed@;
        let ghost len0 = order@.len();
        let mut progressed = false;
        let mut i: usize = 0;
        while i < n
            invariant
                n == decls@.len(),
                decls_closed(decls@),
                placed@.len() == n,
                i <= n,
                order@.len() == count_true(placed@, n as int),
                order@.len() <= n,
                forall|s: int| 0 <= s < n ==> (placed@[s] <==> placed_before(order@, order@.len() as int, s as usize)),
                forall|k: int| 0 <= k < order@.len() ==> (#[trigger] order@[k]) < n,
                forall|k1: int, k2: int| 0 <= k1 < k2 < order@.len() ==> order@[k1] != order@[k2],
                respects_deps(order@, decls@),
                order@.len() >= len0,
                progressed ==> order@.len() > len0,
                !progressed ==> placed@ == placed0 && (forall|s: int|
                    0 <= s < i && !placed@[s] ==> exists|j: int|
                        0 <= j < decls@[s].after@.len() && !placed@[#[trigger] decls@[s].after@[j] as int]),
            decreases n - i,
        {
            if !placed[i] {
                let d = &decls[i];
                let after_len = d.after.len();
                let mut ok = true;
                let mut j: usize = 0;
                while j < after_len
                    invariant
                        n == decls@.len(),
                        decls_closed(decls@),
                        placed@.len() == n,
                        i < n,
                        d == decls@[i as int],
                        after_len == d.after@.len(),
                        j <= after_len,
                        ok <==> (forall|jj: int|
                            0 <= jj < j ==> placed@[#[trigger] d.after@[jj] as int]),
                    decreases after_len - j,
                {
                    let dep = d.after[j];
                    if !placed[dep] {
                        ok = false;
                    }
                    j = j + 1;
                }
                if ok {
                    let ghost order_prev = order@;
                    let ghost placed_prev = placed@;
                    order.push(i);
                    placed.set(i, true);
                    progressed = true;
                    proof {
                        lemma_count_true_update(placed_prev, i as int, n as int);
                        lemma_count_true_le(placed@, n as int);
                        assert forall|s: int|
                            0 <= s < n implies (placed@[s] <==> placed_before(
                            order@,
                            order@.len() as int,
                            s as usize,
                        )) by {
                            if s == i as int {
                                assert(order@[order@.len() - 1] == s as usize);
                            } else {
                                if placed@[s] {
                                    let m = choose|m: int|
                                        0 <= m < order_prev.len() && order_prev[m] == s as usize;
                                    assert(order@[m] == s as usize);
                                } else {
                                    if placed_before(order@, order@.len() as int, s as usize) {
                                        let m = choose|m: int|
                                            0 <= m < order@.len() && order@[m] == s as usize;
                                        assert(m < order_prev.len());
                                        assert(order_prev[m] == s as usize);
                                    }
                                }
                            }
                        }
                        assert forall|k: int, j2: int|
                            0 <= k < order@.len() && 0 <= j2 < decls@[order@[k] as int].after@.len()
                                implies placed_before(
                            order@,
                            k,
                            decls@[order@[k] as int].after@[j2],
                        ) by {
                            if k < order_prev.len() {
                                assert(order@[k] == order_prev[k]);
                                assert(placed_before(order_prev, k, decls@[order_prev[k] as int].after@[j2]));
                                let m = choose|m: int|
                                    0 <= m < k && order_prev[m] == decls@[order_prev[k] as int].after@[j2];
                                assert(order@[m] == decls@[order@[k] as int].after@[j2]);
                            } else {
                                assert(order@[k] == i);
                                let dep = decls@[i as int].after@[j2];
                                assert(placed_prev[dep as int]);
                                let m = choose|m: int|
                                    0 <= m < order_prev.len() && order_prev[m] == dep;
                                assert(order@[m] == dep);
                            }
                        }
                    }
                }
            }
            i = i + 1;
        }
        if order.len() == n {
            proof {
                lemma_count_true_full(placed@, n as int);
                assert forall|s: int| 0 <= s < n implies #[trigger] placed_before(
                    order@,
                    n as int,
                    s as usize,
                ) by {
                    assert(placed@[s]);
                }
            }
            return Ok(order);
        }
        if !progressed {
            proof {
                lemma_count_true_missing(placed@, n as int);
                assert forall|ord: Seq<usize>| !valid_order(ord, decls@) by {
                    if valid_order(ord, decls@) {
                        lemma_stuck_no_order(decls@, placed@, ord);
                    }
                }
            }
            return Err(SimError::DependencyCycle);
        }
    }
}

proof fn lemma_count_all_false(s: Seq<bool>, i: int)
    requires
        0 <= i <= s.len(),
        forall|m: int| 0 <= m < s.len() ==> !s[m],
    ensures
        count_true(s, i) == 0,
    decreases i,
{
    if i > 0 {
        lemma_count_all_false(s, i - 1);
    }
}

/// Two component kind sets intersect.
pub open spec fn kinds_intersect(a: Seq<ComponentKind>, b: Seq<ComponentKind>) -> bool {
    exists|i: int, j: int| 0 <= i < a.len() && 0 <= j < b.len() && a[i] == b[j]
}

/// Two systems conflict — and must never be scheduled concurrently — when
/// their write sets overlap, or one writes a kind the other reads.
pub open spec fn conflicts_spec(a: SystemDecl, b: SystemDecl) -> bool {
    ||| kinds_intersect(a.writes@, b.writes@)
    ||| kinds_intersect(a.writes@, b.reads@)
    ||| kinds_intersect(a.reads@, b.writes@)
}

fn kinds_intersect_x(a: &Vec<ComponentKind>, b: &Vec<ComponentKind>) -> (r: bool)
    ensures
        r == kinds_intersect(a@, b@),
{
    let mut i: usize = 0;
    let an = a.len();
    let bn = b.len();
    let mut found = false;
    while i < an
        invariant
            an == a@.len(),
            bn == b@.len(),
            i <= an,
            found ==> kinds_intersect(a@, b@),
            !found ==> (forall|ii: int, jj: int|
                0 <= ii < i && 0 <= jj < bn ==> a@[ii] != b@[jj]),
        decreases an - i,
    {
        let mut j: usize = 0;
        while j < bn
            invariant
                an == a@.len(),
                bn == b@.len(),
                i < an,
                j <= bn,
                found ==> kinds_intersect(a@, b@),
                !found ==> (forall|ii: int, jj: int|
                    0 <= ii < i && 0 <= jj < bn ==> a@[ii] != b@[jj]),
                !found ==> (forall|jj: int| 0 <= jj < j ==> a@[i as int] != b@[jj]),
            decreases bn - j,
        {
            if a[i] == b[j] {
                found = true;
            }
            j = j + 1;
        }
        i = i + 1;
    }
    found
}

/// Whether two declared systems may never run concurrently.
pub fn conflicts(a: &SystemDecl, b: &SystemDecl) -> (r: bool)
    ensures
        r == conflicts_spec(*a, *b),
{
    let ww = kinds_intersect_x(&a.writes, &b.writes);
    let wr = kinds_intersect_x(&a.writes, &b.reads);
    let rw = kinds_intersect_x(&a.reads, &b.writes);
    ww || wr || rw
}

/// The reference deployment's pipeline: the three input systems first and
/// unordered among themselves, the spawner after all of them, and the
/// integration step last.
pub fn standard_pipeline() -> (decls: Vec<SystemDecl>)
    ensures
        decls@.len() == 5,
        decls_closed(decls@),
        decls@[0].after@ == Seq::<usize>::empty(),
        decls@[1].after@ == Seq::<usize>::empty(),
        decls@[2].after@ == Seq::<usize>::empty(),
        decls@[3].after@ == seq![0usize, 1usize, 2usize],
        decls@[4].after@ == seq![3usize, 0usize, 1usize, 2usize],
        decls@[0].writes@ == seq![ComponentKind::BulletSpawner],
        decls@[1].writes@ == seq![ComponentKind::Velocity],
        decls@[2].writes@ == seq![ComponentKind::AngularVelocity],
        decls@[3].writes@ == seq![ComponentKind::BulletSpawner],
        decls@[4].writes@ == seq![ComponentKind::Position, ComponentKind::Angle],
        decls@[0].reads@ == seq![ComponentKind::KeyboardControlled],
        decls@[1].reads@ == seq![ComponentKind::KeyboardControlled],
        decls@[2].reads@ == seq![ComponentKind::KeyboardControlled],
        decls@[3].reads@ == seq![ComponentKind::Position, ComponentKind::Angle],
        decls@[4].reads@ == seq![ComponentKind::Velocity, ComponentKind::AngularVelocity],
{
    let shoot = SystemDecl {
        reads: vec![ComponentKind::KeyboardControlled],
        writes: vec![ComponentKind::BulletSpawner],
        after: Vec::new(),
    };
    let kmove = SystemDecl {
        reads: vec![ComponentKind::KeyboardControlled],
        writes: vec![ComponentKind::Velocity],
        after: Vec::new(),
    };
    let krotate = SystemDecl {
        reads: vec![ComponentKind::KeyboardControlled],
        writes: vec![ComponentKind::AngularVelocity],
        after: Vec::new(),
    };
    let spawner = SystemDecl {
        reads: vec![ComponentKind::Position, ComponentKind::Angle],
        writes: vec![ComponentKind::BulletSpawner],
        after: vec![0, 1, 2],
    };
    let physics = SystemDecl {
        reads: vec![ComponentKind::Velocity, ComponentKind::AngularVelocity],
        writes: vec![ComponentKind::Position, ComponentKind::Angle],
        after: vec![3, 0, 1, 2],
    };
    let decls = vec![shoot, kmove, krotate, spawner, physics];
    proof {
        assert(decls@[3].after@ =~= seq![0usize, 1usize, 2usize]);
        assert(decls@[4].after@ =~= seq![3usize, 0usize, 1usize, 2usize]);
        assert(decls@[0].after@ =~= Seq::<usize>::empty());
        assert(decls@[1].after@ =~= Seq::<usize>::empty());
        assert(decls@[2].after@ =~= Seq::<usize>::empty());
    }
    decls
}

} // verus!
