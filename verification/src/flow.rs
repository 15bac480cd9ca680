//! Plans of outside work and the driver of their execution.
//!
//! A store persists events by a series of outside actions (database statements, calls
//! of handlers, publications on buses). Which actions run, in which order, and what a
//! failure means is decided here: a plan lists the steps, and a `Flow` hands them out
//! one at a time to whoever performs them, stopping at the first failure of a step
//! that aborts the plan.
use vstd::prelude::*;

verus! {

/// One step of a plan: an action, and whether its failure aborts the rest of the plan.
#[derive(Clone, Copy, Debug, PartialEq, Eq)]
pub struct Step<A> {
    pub action: A,
    pub aborts_on_failure: bool,
}

/// What a flow asks of its performer.
#[derive(Clone, Copy, Debug, PartialEq, Eq)]
pub enum Next<A> {
    /// Perform this action, then report whether it succeeded.
    Perform(A),
    /// Every step was performed, and no aborting step failed.
    Succeeded,
    /// An aborting step failed; nothing more is performed.
    Failed,
}

/// Where a flow stands.
#[derive(Clone, Copy, Debug, PartialEq, Eq)]
pub enum Status {
    Running,
    Succeeded,
    Failed,
}

/// The execution of a plan.
pub struct Flow<A> {
    plan: Vec<Step<A>>,
    position: usize,
    status: Status,
    reports: Ghost<Seq<bool>>,
}

impl<A: Copy> Flow<A> {
    /// The plan being executed.
    pub closed spec fn plan(&self) -> Seq<Step<A>> {
        self.plan@
    }

    /// How many actions were handed out.
    pub closed spec fn position(&self) -> nat {
        self.position as nat
    }

    pub closed spec fn status(&self) -> Status {
        self.status
    }

    /// What was reported of the actions handed out, in order: `reports()[k]` tells whether
    /// the `k`-th action succeeded.
    pub closed spec fn reports(&self) -> Seq<bool> {
        self.reports@
    }

    /// The flow's invariant: it never hands out more than its plan, it has a report for
    /// every action handed out but the last one, and while it runs, every aborting step
    /// reported so far succeeded; once failed, the last action handed out is an aborting
    /// one reported as failed, and every aborting one before it succeeded.
    pub open spec fn wf(&self) -> bool {
        &&& self.position() <= self.plan().len()
        &&& self.reports().len() <= self.position()
        &&& self.status() == Status::Running ==> {
            &&& self.reports().len() + 1 == self.position() || (self.position() == 0
                && self.reports().len() == 0)
            &&& forall|k: int|
                0 <= k < self.reports().len() && self.plan()[k].aborts_on_failure
                    ==> #[trigger] self.reports()[k]
        }
        &&& self.status() == Status::Succeeded ==> {
            &&& self.position() == self.plan().len()
            &&& self.reports().len() == self.plan().len()
            &&& forall|k: int|
                0 <= k < self.plan().len() && self.plan()[k].aborts_on_failure
                    ==> #[trigger] self.reports()[k]
        }
        &&& self.status() == Status::Failed ==> {
            &&& self.position() > 0
            &&& self.reports().len() == self.position()
            &&& self.plan()[self.position() - 1].aborts_on_failure
            &&& !self.reports()[self.position() - 1]
            &&& forall|k: int|
                0 <= k < self.position() - 1 && self.plan()[k].aborts_on_failure
                    ==> #[trigger] self.reports()[k]
        }
    }

    /// A flow at the start of `plan`.
    pub fn new(plan: Vec<Step<A>>) -> (flow: Self)
        ensures
            flow.wf(),
            flow.plan() == plan@,
            flow.position() == 0,
            flow.reports().len() == 0,
            flow.status() == Status::Running,
    {
        Flow { plan, position: 0, status: Status::Running, reports: Ghost(Seq::empty()) }
    }

    pub fn status_now(&self) -> (status: Status)
        ensures
            status == self.status(),
    {
        self.status
    }

    /// The next thing to do. `previous_succeeded` reports how the action handed out by
    /// the previous call went (it is not read on the first call).
    ///
    /// Actions are handed out in the order of the plan, each once. When an action whose
    /// step aborts on failure is reported as failed, the flow fails and hands out
    /// nothing more. When the plan is exhausted without such a failure, it succeeds.
    /// Once finished, a flow stays as it is.
    pub fn next(&mut self, previous_succeeded: bool) -> (next: Next<A>)
        requires
            old(self).wf(),
        ensures
            final(self).wf(),
            final(self).plan() == old(self).plan(),
            old(self).status() == Status::Succeeded ==> next == Next::<A>::Succeeded && *final(self) == *old(self),
            old(self).status() == Status::Failed ==> next == Next::<A>::Failed && *final(self) == *old(self),
            old(self).status() == Status::Running ==> {
                &&& final(self).reports() == if old(self).position() > 0 {
                    old(self).reports().push(previous_succeeded)
                } else {
                    old(self).reports()
                }
                &&& if old(self).position() > 0 && !previous_succeeded
                    && old(self).plan()[old(self).position() - 1].aborts_on_failure {
                    &&& next == Next::<A>::Failed
                    &&& final(self).status() == Status::Failed
                    &&& final(self).position() == old(self).position()
                } else if old(self).position() == old(self).plan().len() {
                    &&& next == Next::<A>::Succeeded
                    &&& final(self).status() == Status::Succeeded
                    &&& final(self).position() == old(self).position()
                } else {
                    &&& next == Next::Perform(old(self).plan()[old(self).position() as int].action)
                    &&& final(self).status() == Status::Running
                    &&& final(self).position() == old(self).position() + 1
                }
            },
    {
        match self.status {
            Status::Succeeded => Next::Succeeded,
            Status::Failed => Next::Failed,
            Status::Running => {
                if self.position > 0 {
                    self.reports = Ghost(self.reports@.push(previous_succeeded));
                }
                if self.position > 0 && !previous_succeeded
                    && self.plan[self.position - 1].aborts_on_failure {
                    self.status = Status::Failed;
                    Next::Failed
                } else if self.position == self.plan.len() {
                    self.status = Status::Succeeded;
                    Next::Succeeded
                } else {
                    let action = self.plan[self.position].action;
                    self.position = self.position + 1;
                    Next::Perform(action)
                }
            },
        }
    }
}

/// A flow hands out an action only when every aborting step before it was reported as
/// succeeded; it succeeds only when every aborting step of its plan succeeded.
pub proof fn lemma_flow_runs_only_after_success<A: Copy>(flow: Flow<A>, k: int)
    requires
        flow.wf(),
        flow.status() != Status::Failed,
        0 <= k,
        k + 1 < flow.position() || (flow.status() == Status::Succeeded && k < flow.plan().len()),
        flow.plan()[k].aborts_on_failure,
    ensures
        flow.reports()[k],
{
}

} // verus!

verus! {

/// The steps `f(i, j)` for `i < n` and, for each `i`, `j < m`: in the order of `i`, and
/// for each `i` in the order of `j`.
pub open spec fn grid<A>(n: nat, m: nat, f: spec_fn(int, int) -> Step<A>) -> Seq<Step<A>>
    decreases n,
{
    if n == 0 {
        Seq::empty()
    } else {
        grid((n - 1) as nat, m, f) + Seq::new(m, |j: int| f(n - 1, j))
    }
}

/// The steps `f(i)` for `i < n`, in order.
pub open spec fn row<A>(n: nat, f: spec_fn(int) -> Step<A>) -> Seq<Step<A>> {
    Seq::new(n, |i: int| f(i))
}

/// Appends the steps of `row(n, f)` to `plan`; `make(i)` builds the step `f(i)`.
pub fn push_row<A, F: Fn(usize) -> Step<A>>(
    plan: &mut Vec<Step<A>>,
    n: usize,
    make: F,
    Ghost(f): Ghost<spec_fn(int) -> Step<A>>,
)
    requires
        forall|i: usize| i < n ==> #[trigger] make.requires((i,)),
        forall|i: usize, s: Step<A>| i < n && #[trigger] make.ensures((i,), s) ==> s == f(i as int),
    ensures
        final(plan)@ == old(plan)@ + row(n as nat, f),
{
    let ghost base = plan@;
    let mut i: usize = 0;
    while i < n
        invariant
            i <= n,
            forall|i: usize| i < n ==> #[trigger] make.requires((i,)),
            forall|i: usize, s: Step<A>| i < n && #[trigger] make.ensures((i,), s) ==> s == f(i as int),
            plan@ == base + row(i as nat, f),
        decreases n - i,
    {
        let s = make(i);
        plan.push(s);
        proof {
            assert(row((i + 1) as nat, f) =~= row(i as nat, f).push(f(i as int)));
        }
        i = i + 1;
    }
}

/// Appends the steps of `grid(n, m, f)` to `plan`; `make(i, j)` builds the step `f(i, j)`.
pub fn push_grid<A, F: Fn(usize, usize) -> Step<A>>(
    plan: &mut Vec<Step<A>>,
    n: usize,
    m: usize,
    make: F,
    Ghost(f): Ghost<spec_fn(int, int) -> Step<A>>,
)
    requires
        forall|i: usize, j: usize| i < n && j < m ==> #[trigger] make.requires((i, j)),
        forall|i: usize, j: usize, s: Step<A>|
            i < n && j < m && #[trigger] make.ensures((i, j), s) ==> s == f(i as int, j as int),
    ensures
        final(plan)@ == old(plan)@ + grid(n as nat, m as nat, f),
{
    let ghost base = plan@;
    let mut i: usize = 0;
    while i < n
        invariant
            i <= n,
            forall|i: usize, j: usize| i < n && j < m ==> #[trigger] make.requires((i, j)),
            forall|i: usize, j: usize, s: Step<A>|
                i < n && j < m && #[trigger] make.ensures((i, j), s) ==> s == f(i as int, j as int),
            plan@ == base + grid(i as nat, m as nat, f),
        decreases n - i,
    {
        let mut j: usize = 0;
        while j < m
            invariant
                i < n,
                j <= m,
                forall|i: usize, j: usize| i < n && j < m ==> #[trigger] make.requires((i, j)),
                forall|i: usize, j: usize, s: Step<A>|
                    i < n && j < m && #[trigger] make.ensures((i, j), s) ==> s == f(i as int, j as int),
                plan@ == base + grid(i as nat, m as nat, f) + Seq::new(j as nat, |jj: int| f(i as int, jj)),
            decreases m - j,
        {
            let s = make(i, j);
            plan.push(s);
            proof {
                assert(Seq::new((j + 1) as nat, |jj: int| f(i as int, jj)) =~= Seq::new(
                    j as nat,
                    |jj: int| f(i as int, jj),
                ).push(f(i as int, j as int)));
            }
            j = j + 1;
        }
        proof {
            assert(grid((i + 1) as nat, m as nat, f) =~= grid(i as nat, m as nat, f) + Seq::new(
                m as nat,
                |jj: int| f(i as int, jj),
            ));
            assert(plan@ =~= base + grid((i + 1) as nat, m as nat, f));
        }
        i = i + 1;
    }
}

} // verus!

verus! {

/// Every step of `grid(n, m, f)` is some `f(i, j)` with `i < n` and `j < m`.
pub proof fn lemma_grid_member<A>(n: nat, m: nat, f: spec_fn(int, int) -> Step<A>, k: int)
    requires
        0 <= k < grid(n, m, f).len(),
    ensures
        exists|i: int, j: int| 0 <= i < n && 0 <= j < m && grid(n, m, f)[k] == #[trigger] f(i, j),
    decreases n,
{
    if n == 0 {
        assert(false);
    } else {
        let prev = grid((n - 1) as nat, m, f);
        if k < prev.len() {
            lemma_grid_member((n - 1) as nat, m, f, k);
            let (i, j) = choose|i: int, j: int| 0 <= i < n - 1 && 0 <= j < m && prev[k] == #[trigger] f(i, j);
            assert(grid(n, m, f)[k] == f(i, j));
        } else {
            assert(grid(n, m, f)[k] == f(n - 1, k - prev.len()));
        }
    }
}

/// The length of `grid(n, m, f)` is `n * m`.
pub proof fn lemma_grid_len<A>(n: nat, m: nat, f: spec_fn(int, int) -> Step<A>)
    ensures
        grid(n, m, f).len() == n * m,
    decreases n,
{
    if n > 0 {
        let p = (n - 1) as nat;
        lemma_grid_len(p, m, f);
        assert(n * m == p * m + m) by (nonlinear_arith)
            requires
                n > 0,
                p == n - 1,
        ;
        assert(grid(n, m, f).len() == grid(p, m, f).len() + m);
    } else {
        assert(n * m == 0) by (nonlinear_arith)
            requires
                n == 0,
        ;
    }
}

} // verus!

verus! {

/// The sequences `b(0)`, ..., `b(n - 1)`, one after the other.
pub open spec fn blocks<A>(n: nat, b: spec_fn(int) -> Seq<A>) -> Seq<A>
    decreases n,
{
    if n == 0 {
        Seq::empty()
    } else {
        blocks((n - 1) as nat, b) + b(n - 1)
    }
}

/// Where `k` falls when `q` blocks of `size` come before it and it lies in the next one.
pub proof fn lemma_position_in_block(k: int, size: int, q: int)
    requires
        size > 0,
        q * size <= k < q * size + size,
    ensures
        k / size == q,
        k % size == k - q * size,
{
    vstd::arithmetic::div_mod::lemma_fundamental_div_mod_converse(k, size, q, k - q * size);
}

proof fn lemma_block_bounds(n: nat, size: nat, k: int)
    requires
        n > 0,
        (n - 1) * size <= k < n * size,
    ensures
        size > 0,
        k < (n - 1) * size + size,
{
    assert(n * size == (n - 1) * size + size) by (nonlinear_arith)
        requires
            n > 0,
    ;
}

/// A position `k` below `n * size` lies in block `k / size` (below `n`), at offset
/// `k % size` (below `size`).
pub proof fn lemma_block_of(k: int, n: nat, size: nat)
    requires
        0 <= k < n * size,
    ensures
        size > 0,
        0 <= k / (size as int) < n,
        0 <= k % (size as int) < size,
        k == (size as int) * (k / (size as int)) + k % (size as int),
{
    if size == 0 {
        assert(n * size == 0) by (nonlinear_arith)
            requires
                size == 0,
        ;
    }
    vstd::arithmetic::div_mod::lemma_fundamental_div_mod(k, size as int);
    let q = k / (size as int);
    let r = k % (size as int);
    assert(0 <= q < n) by (nonlinear_arith)
        requires
            size > 0,
            0 <= r < size,
            k == size * q + r,
            0 <= k < n * size,
    ;
}

/// A concatenation of `n` blocks of `size` elements has `n * size` elements, and its
/// `k`-th element is the `k % size`-th of the block `k / size`.
pub proof fn lemma_blocks<A>(n: nat, size: nat, b: spec_fn(int) -> Seq<A>)
    requires
        forall|i: int| 0 <= i < n ==> #[trigger] b(i).len() == size,
    ensures
        blocks(n, b).len() == n * size,
        forall|k: int| 0 <= k < n * size ==> #[trigger] blocks(n, b)[k] == b(k / (size as int))[k % (size as int)],
    decreases n,
{
    if n == 0 {
        assert(n * size == 0) by (nonlinear_arith)
            requires
                n == 0,
        ;
    } else {
        let p = (n - 1) as nat;
        lemma_blocks(p, size, b);
        assert(n * size == p * size + size) by (nonlinear_arith)
            requires
                p == n - 1,
        ;
        assert(b(p as int).len() == size);
        assert forall|k: int| 0 <= k < n * size implies #[trigger] blocks(n, b)[k] == b(k / (size as int))[
            k % (size as int)
        ] by {
            if k < p * size {
                assert(blocks(n, b)[k] == blocks(p, b)[k]);
            } else {
                lemma_block_bounds(n, size, k);
                lemma_position_in_block(k, size as int, p as int);
            }
        }
    }
}

/// A grid of `n` rows of `m` steps has `n * m` steps, and its `k`-th step is
/// `f(k / (m as int), k % (m as int))`.
pub proof fn lemma_grid_positions<A>(n: nat, m: nat, f: spec_fn(int, int) -> Step<A>)
    ensures
        grid(n, m, f).len() == n * m,
        forall|k: int| 0 <= k < n * m ==> #[trigger] grid(n, m, f)[k] == f(k / (m as int), k % (m as int)),
    decreases n,
{
    lemma_grid_len(n, m, f);
    if n > 0 {
        let p = (n - 1) as nat;
        lemma_grid_positions(p, m, f);
        assert(n * m == p * m + m) by (nonlinear_arith)
            requires
                p == n - 1,
        ;
        assert forall|k: int| 0 <= k < n * m implies #[trigger] grid(n, m, f)[k] == f(k / (m as int), k % (m as int)) by {
            if k < p * m {
                assert(grid(n, m, f)[k] == grid(p, m, f)[k]);
            } else {
                lemma_block_bounds(n, m, k);
                lemma_position_in_block(k, m as int, p as int);
            }
        }
    }
}

} // verus!
