use vstd::prelude::*;

verus! {

/// The lifecycle state of the registry, reduced to what handle validity
/// depends on: the next handle to issue and the set of live handles.
/// Handles are modelled as unbounded naturals; the executable registry
/// follows this model step for step while handles fit in a machine word.
pub struct RegModel {
    pub next: nat,
    pub live: Set<nat>,
}

/// One lifecycle event: a job is created, or the job of a handle is
/// destroyed.
pub enum LifeOp {
    Create,
    Destroy(nat),
}

/// The state before any job has existed: nothing is live and the first
/// handle to issue is zero.
pub open spec fn init_model() -> RegModel {
    RegModel { next: 0, live: Set::empty() }
}

/// How one lifecycle event changes the state: a create issues the next
/// handle and makes it live; a destroy removes the handle from the live
/// set and issues nothing.
pub open spec fn life_step(m: RegModel, op: LifeOp) -> RegModel {
    match op {
        LifeOp::Create => RegModel { next: m.next + 1, live: m.live.insert(m.next) },
        LifeOp::Destroy(h) => RegModel { next: m.next, live: m.live.remove(h) },
    }
}

/// The state after a whole sequence of lifecycle events, starting from
/// the initial state.
pub open spec fn life_run(ops: Seq<LifeOp>) -> RegModel
    decreases ops.len(),
{
    if ops.len() == 0 {
        init_model()
    } else {
        life_step(life_run(ops.drop_last()), ops.last())
    }
}

/// The event at position `i` creates a job.
pub open spec fn creates_at(ops: Seq<LifeOp>, i: int) -> bool {
    0 <= i < ops.len() && ops[i] is Create
}

/// The handle that the event at position `i` issues, if it is a create:
/// the `next` of the state just before it.
pub open spec fn handle_created_at(ops: Seq<LifeOp>, i: int) -> nat {
    life_run(ops.take(i)).next
}

/// `h` was issued by some create in `ops` and no later event destroys it.
pub open spec fn created_and_not_destroyed(ops: Seq<LifeOp>, h: nat) -> bool {
    exists|i: int|
        creates_at(ops, i) && #[trigger] handle_created_at(ops, i) == h && (forall|j: int|
            i < j < ops.len() ==> #[trigger] ops[j] != LifeOp::Destroy(h))
}

/// Running the events up to and including position `i` is one step past
/// running the events before it.
pub proof fn lemma_life_run_step(ops: Seq<LifeOp>, i: int)
    requires
        0 <= i < ops.len(),
    ensures
        life_run(ops.take(i + 1)) == life_step(life_run(ops.take(i)), ops[i]),
{
    assert(ops.take(i + 1).drop_last() =~= ops.take(i));
    assert(ops.take(i + 1).last() == ops[i]);
}

/// The next handle to issue never decreases as events run.
pub proof fn lemma_next_monotonic(ops: Seq<LifeOp>, i: int)
    requires
        0 <= i <= ops.len(),
    ensures
        life_run(ops.take(i)).next <= life_run(ops).next,
    decreases ops.len() - i,
{
    if i == ops.len() {
        assert(ops.take(i) =~= ops);
    } else {
        lemma_life_run_step(ops, i);
        lemma_next_monotonic(ops, i + 1);
    }
}

/// No handle is ever issued twice: two distinct creates in one event
/// sequence issue distinct handles.  A destroyed handle can therefore
/// never come back: every handle issued later is strictly larger.
pub proof fn lemma_handles_never_reissued(ops: Seq<LifeOp>, i: int, j: int)
    requires
        creates_at(ops, i),
        creates_at(ops, j),
        i < j,
    ensures
        handle_created_at(ops, i) < handle_created_at(ops, j),
{
    lemma_life_run_step(ops, i);
    lemma_next_monotonic(ops.take(j), i + 1);
    assert(ops.take(j).take(i + 1) =~= ops.take(i + 1));
}

/// At any point in a lifecycle history, the set of live handles is
/// exactly the set of handles created and not yet destroyed.
pub proof fn lemma_live_handles_exact(ops: Seq<LifeOp>, h: nat)
    ensures
        life_run(ops).live.contains(h) <==> created_and_not_destroyed(ops, h),
    decreases ops.len(),
{
    if ops.len() == 0 {
        assert(!init_model().live.contains(h));
    } else {
        let pre = ops.drop_last();
        let last = ops.last();
        lemma_live_handles_exact(pre, h);
        assert(life_run(ops) == life_step(life_run(pre), last));
        assert(forall|i: int| 0 <= i <= pre.len() ==> ops.take(i) =~= pre.take(i));
        assert(ops.take(pre.len() as int) =~= pre);
        match last {
            LifeOp::Create => {
                lemma_live_exact_create(ops, h);
            },
            LifeOp::Destroy(d) => {
                lemma_live_exact_destroy(ops, h, d);
            },
        }
    }
}

proof fn lemma_live_exact_create(ops: Seq<LifeOp>, h: nat)
    requires
        ops.len() > 0,
        ops.last() is Create,
        life_run(ops.drop_last()).live.contains(h) <==> created_and_not_destroyed(
            ops.drop_last(),
            h,
        ),
    ensures
        life_run(ops).live.contains(h) <==> created_and_not_destroyed(ops, h),
{
    let pre = ops.drop_last();
    let n = pre.len() as int;
    assert(forall|i: int| 0 <= i <= n ==> ops.take(i) =~= pre.take(i));
    assert(ops.take(n) =~= pre);
    assert(life_run(ops) == life_step(life_run(pre), ops.last()));
    if life_run(ops).live.contains(h) {
        if h == life_run(pre).next {
            assert(creates_at(ops, n));
            assert(handle_created_at(ops, n) == h);
            assert(forall|j: int| n < j < ops.len() ==> ops[j] != LifeOp::Destroy(h));
            assert(created_and_not_destroyed(ops, h));
        } else {
            assert(life_run(pre).live.contains(h));
            let i = choose|i: int|
                creates_at(pre, i) && #[trigger] handle_created_at(pre, i) == h && (forall|j: int|
                    i < j < pre.len() ==> #[trigger] pre[j] != LifeOp::Destroy(h));
            assert(creates_at(ops, i));
            assert(handle_created_at(ops, i) == h);
            assert(forall|j: int| i < j < ops.len() ==> ops[j] != LifeOp::Destroy(h)) by {
                assert(forall|j: int| i < j < pre.len() ==> ops[j] == pre[j]);
            }
            assert(created_and_not_destroyed(ops, h));
        }
    }
    if created_and_not_destroyed(ops, h) {
        let i = choose|i: int|
            creates_at(ops, i) && #[trigger] handle_created_at(ops, i) == h && (forall|j: int|
                i < j < ops.len() ==> #[trigger] ops[j] != LifeOp::Destroy(h));
        if i == n {
            assert(h == life_run(pre).next);
            assert(life_run(ops).live.contains(h));
        } else {
            assert(creates_at(pre, i));
            assert(handle_created_at(pre, i) == h);
            assert(forall|j: int| i < j < pre.len() ==> pre[j] != LifeOp::Destroy(h)) by {
                assert(forall|j: int| i < j < pre.len() ==> ops[j] == pre[j]);
            }
            assert(created_and_not_destroyed(pre, h));
            assert(life_run(pre).live.contains(h));
            assert(life_run(ops).live.contains(h));
        }
    }
}

proof fn lemma_live_exact_destroy(ops: Seq<LifeOp>, h: nat, d: nat)
    requires
        ops.len() > 0,
        ops.last() == LifeOp::Destroy(d),
        life_run(ops.drop_last()).live.contains(h) <==> created_and_not_destroyed(
            ops.drop_last(),
            h,
        ),
    ensures
        life_run(ops).live.contains(h) <==> created_and_not_destroyed(ops, h),
{
    let pre = ops.drop_last();
    let n = pre.len() as int;
    assert(forall|i: int| 0 <= i <= n ==> ops.take(i) =~= pre.take(i));
    assert(life_run(ops) == life_step(life_run(pre), ops.last()));
    if life_run(ops).live.contains(h) {
        assert(h != d);
        assert(life_run(pre).live.contains(h));
        let i = choose|i: int|
            creates_at(pre, i) && #[trigger] handle_created_at(pre, i) == h && (forall|j: int|
                i < j < pre.len() ==> #[trigger] pre[j] != LifeOp::Destroy(h));
        assert(creates_at(ops, i));
        assert(handle_created_at(ops, i) == h);
        assert(forall|j: int| i < j < ops.len() ==> ops[j] != LifeOp::Destroy(h)) by {
            assert(forall|j: int| i < j < pre.len() ==> ops[j] == pre[j]);
            assert(ops[ops.len() - 1] == LifeOp::Destroy(d));
        }
        assert(created_and_not_destroyed(ops, h));
    }
    if created_and_not_destroyed(ops, h) {
        let i = choose|i: int|
            creates_at(ops, i) && #[trigger] handle_created_at(ops, i) == h && (forall|j: int|
                i < j < ops.len() ==> #[trigger] ops[j] != LifeOp::Destroy(h));
        assert(i < n) by {
            assert(ops[n] == LifeOp::Destroy(d));
        }
        assert(ops[ops.len() - 1] != LifeOp::Destroy(h));
        assert(h != d);
        assert(creates_at(pre, i));
        assert(handle_created_at(pre, i) == h);
        assert(forall|j: int| i < j < pre.len() ==> pre[j] != LifeOp::Destroy(h)) by {
            assert(forall|j: int| i < j < pre.len() ==> ops[j] == pre[j]);
        }
        assert(created_and_not_destroyed(pre, h));
        assert(life_run(pre).live.contains(h));
        assert(life_run(ops).live.contains(h));
    }
}

} // verus!
