//! The work-queue executor.
//!
//! `execute` runs a task processor over a dynamically growing set of tasks:
//! executing one task may spawn new ones. Tasks wait in two crossbeam-deque
//! queues — a worker-local queue and a shared injector for overflow and
//! freshly spawned work — and the engine finishes exactly when both are
//! empty, which the outstanding-work accounting below proves to mean that
//! every task ever submitted, seed or spawned, was executed exactly once.

use vstd::multiset::Multiset;
use vstd::prelude::*;

use crate::ast::root_node::RootNode;
use crate::ast::root_node::RootNodeView;

verus! {

broadcast use vstd::seq_lib::group_to_multiset_ensures, vstd::multiset::group_multiset_axioms;

/// What executing one task produced: its parsed tree, a skip marker for a
/// task whose file another task had already claimed, or a failure marker.
pub enum TaskOutcome {
    Tree(RootNode),
    Skipped,
    Failed,
}

/// The mathematical value of a task outcome.
pub ghost enum TaskOutcomeView {
    Tree(RootNodeView),
    Skipped,
    Failed,
}

impl View for TaskOutcome {
    type V = TaskOutcomeView;

    open spec fn view(&self) -> TaskOutcomeView {
        match self {
            TaskOutcome::Tree(t) => TaskOutcomeView::Tree(t@),
            TaskOutcome::Skipped => TaskOutcomeView::Skipped,
            TaskOutcome::Failed => TaskOutcomeView::Failed,
        }
    }
}

impl DeepView for TaskOutcome {
    type V = TaskOutcomeView;

    open spec fn deep_view(&self) -> TaskOutcomeView {
        self.view()
    }
}

/// One step of an execution: the task run, what it returned, and the tasks
/// it spawned.
pub ghost struct TaskStep {
    pub task: Seq<Seq<char>>,
    pub outcome: TaskOutcomeView,
    pub spawned: Seq<Seq<Seq<char>>>,
}

/// Something that executes tasks: processing one task yields an outcome and
/// newly spawned tasks, and relates the processor's old and new states by
/// `step_rel`.
pub trait TaskProcessor: Sized {
    /// The processor's internal invariant.
    spec fn inv(&self) -> bool;

    /// How one processed task relates the state before it to the state after.
    spec fn step_rel(pre: Self, post: Self, step: TaskStep) -> bool;

    /// A bound on the work left: it never grows, and it shrinks whenever a
    /// task spawns new tasks. This is what makes the executor's loop finite.
    spec fn measure(&self) -> nat;

    /// Execute one task: return its outcome and the tasks it spawned.
    fn process(&mut self, task: Vec<String>) -> (out: (TaskOutcome, Vec<Vec<String>>))
        requires
            old(self).inv(),
        ensures
            final(self).inv(),
            final(self).measure() <= old(self).measure(),
            out.1.len() > 0 ==> final(self).measure() < old(self).measure(),
            Self::step_rel(
                *old(self),
                *final(self),
                (TaskStep {
                    task: task.deep_view(),
                    outcome: out.0@,
                    spawned: out.1.deep_view(),
                }),
            ),
    ;
}

/// The states a processor passes through while executing `log`, step by step.
pub open spec fn steps_chained<W: TaskProcessor>(pre: W, post: W, log: Seq<TaskStep>) -> bool
    decreases log.len(),
{
    if log.len() == 0 {
        pre == post
    } else {
        exists|mid: W|
            W::step_rel(pre, mid, log.first()) && steps_chained(mid, post, log.drop_first())
    }
}

/// The multiset of tasks that the steps of `log` executed.
pub open spec fn log_tasks(log: Seq<TaskStep>) -> Multiset<Seq<Seq<char>>>
    decreases log.len(),
{
    if log.len() == 0 {
        Multiset::empty()
    } else {
        log_tasks(log.drop_last()).insert(log.last().task)
    }
}

/// The multiset of tasks that the steps of `log` spawned.
pub open spec fn log_spawned(log: Seq<TaskStep>) -> Multiset<Seq<Seq<char>>>
    decreases log.len(),
{
    if log.len() == 0 {
        Multiset::empty()
    } else {
        log_spawned(log.drop_last()).add(log.last().spawned.to_multiset())
    }
}

/// The multiset of outcomes that the steps of `log` returned.
pub open spec fn log_outcomes(log: Seq<TaskStep>) -> Multiset<TaskOutcomeView>
    decreases log.len(),
{
    if log.len() == 0 {
        Multiset::empty()
    } else {
        log_outcomes(log.drop_last()).insert(log.last().outcome)
    }
}

/// A log is ordered when each step's task was already submitted when the
/// step ran: it came from the seeds or from the spawns of earlier steps.
pub open spec fn log_ordered(log: Seq<TaskStep>, seeds: Multiset<Seq<Seq<char>>>) -> bool {
    forall|k: int|
        0 <= k < log.len() ==> #[trigger] log_tasks(log.take(k + 1)).subset_of(
            seeds.add(log_spawned(log.take(k))),
        )
}

/// An ordered log stays ordered when a step whose task is already accounted
/// for is appended.
pub proof fn lemma_log_ordered_push(log: Seq<TaskStep>, s: TaskStep, seeds: Multiset<Seq<Seq<char>>>)
    requires
        log_ordered(log, seeds),
        log_tasks(log.push(s)).subset_of(seeds.add(log_spawned(log))),
    ensures
        log_ordered(log.push(s), seeds),
{
    let log2 = log.push(s);
    assert forall|k: int| 0 <= k < log2.len() implies #[trigger] log_tasks(
        log2.take(k + 1),
    ).subset_of(seeds.add(log_spawned(log2.take(k)))) by {
        if k < log.len() {
            assert(log2.take(k + 1) =~= log.take(k + 1));
            assert(log2.take(k) =~= log.take(k));
        } else {
            assert(log2.take(k + 1) =~= log2);
            assert(log2.take(k) =~= log);
        }
    }
}

/// A nonempty chained log splits into its front part and one last step.
pub proof fn lemma_chained_unsnoc<W: TaskProcessor>(p0: W, p1: W, log: Seq<TaskStep>)
    requires
        steps_chained(p0, p1, log),
        log.len() > 0,
    ensures
        exists|mid: W|
            steps_chained(p0, mid, log.drop_last()) && W::step_rel(mid, p1, log.last()),
    decreases log.len(),
{
    let m1 = choose|m1: W|
        W::step_rel(p0, m1, log.first()) && steps_chained(m1, p1, log.drop_first());
    if log.len() == 1 {
        assert(log.drop_first() =~= Seq::<TaskStep>::empty());
        assert(m1 == p1);
        assert(log.drop_last() =~= Seq::<TaskStep>::empty());
        assert(steps_chained(p0, p0, log.drop_last()) && W::step_rel(p0, p1, log.last()));
    } else {
        lemma_chained_unsnoc(m1, p1, log.drop_first());
        let mid = choose|mid: W|
            steps_chained(m1, mid, log.drop_first().drop_last()) && W::step_rel(
                mid,
                p1,
                log.drop_first().last(),
            );
        assert(log.drop_first().last() == log.last());
        assert(log.drop_last().first() == log.first());
        assert(log.drop_last().drop_first() =~= log.drop_first().drop_last());
        assert(steps_chained(p0, mid, log.drop_last()) && W::step_rel(mid, p1, log.last()));
    }
}

/// A prefix of an ordered log is ordered.
pub proof fn lemma_log_ordered_unsnoc(log: Seq<TaskStep>, seeds: Multiset<Seq<Seq<char>>>)
    requires
        log_ordered(log, seeds),
        log.len() > 0,
    ensures
        log_ordered(log.drop_last(), seeds),
{
    let l2 = log.drop_last();
    assert forall|k: int| 0 <= k < l2.len() implies #[trigger] log_tasks(l2.take(k + 1)).subset_of(
        seeds.add(log_spawned(l2.take(k))),
    ) by {
        assert(l2.take(k + 1) =~= log.take(k + 1));
        assert(l2.take(k) =~= log.take(k));
    }
}

/// Appending one step to a log extends each of its accounts by that step.
pub proof fn lemma_log_push(log: Seq<TaskStep>, s: TaskStep)
    ensures
        log_tasks(log.push(s)) == log_tasks(log).insert(s.task),
        log_spawned(log.push(s)) == log_spawned(log).add(s.spawned.to_multiset()),
        log_outcomes(log.push(s)) == log_outcomes(log).insert(s.outcome),
{
    assert(log.push(s).drop_last() =~= log);
    assert(log.push(s).last() == s);
}

/// A chained log stays chained when one more related step is appended.
pub proof fn lemma_steps_chained_push<W: TaskProcessor>(
    p0: W,
    mid: W,
    post: W,
    log: Seq<TaskStep>,
    step: TaskStep,
)
    requires
        steps_chained(p0, mid, log),
        W::step_rel(mid, post, step),
    ensures
        steps_chained(p0, post, log.push(step)),
    decreases log.len(),
{
    if log.len() == 0 {
        assert(p0 == mid);
        assert(log.push(step).first() == step);
        assert(log.push(step).drop_first() =~= Seq::<TaskStep>::empty());
        assert(steps_chained(post, post, log.push(step).drop_first()));
        assert(W::step_rel(p0, post, log.push(step).first()) && steps_chained(
            post,
            post,
            log.push(step).drop_first(),
        ));
    } else {
        let m1 = choose|m1: W|
            W::step_rel(p0, m1, log.first()) && steps_chained(m1, mid, log.drop_first());
        lemma_steps_chained_push(m1, mid, post, log.drop_first(), step);
        assert(log.push(step).first() == log.first());
        assert(log.push(step).drop_first() =~= log.drop_first().push(step));
        assert(W::step_rel(p0, m1, log.push(step).first()) && steps_chained(
            m1,
            post,
            log.push(step).drop_first(),
        ));
    }
}

/// A worker's local task queue.
///
/// Relies on crossbeam-deque's `Worker`: a FIFO queue of tasks. Its methods
/// share the queue by reference, so the wrappers hold it in a struct of
/// their own and take that struct exclusively: only so can their contracts
/// speak of the queue's contents before and after a call.
#[verifier::external_body]
pub struct LocalQueue {
    inner: crossbeam_deque::Worker<Vec<String>>,
}

/// The tasks a local queue holds.
pub uninterp spec fn local_tasks(q: &LocalQueue) -> Multiset<Seq<Seq<char>>>;

/// Relies on crossbeam-deque's `Worker::new_fifo`: a fresh queue is empty.
#[verifier::external_body]
fn local_new() -> (q: LocalQueue)
    ensures
        local_tasks(&q) == Multiset::<Seq<Seq<char>>>::empty(),
{
    LocalQueue { inner: crossbeam_deque::Worker::new_fifo() }
}

/// Relies on crossbeam-deque's `Worker::push`: adds exactly the given task.
#[verifier::external_body]
fn local_push(q: &mut LocalQueue, t: Vec<String>)
    ensures
        local_tasks(final(q)) == local_tasks(old(q)).insert(t.deep_view()),
{
    q.inner.push(t);
}

/// Relies on crossbeam-deque's `Worker::pop`: with no other thread touching
/// the queue, it removes one held task, or returns `None` exactly when the
/// queue is empty.
#[verifier::external_body]
fn local_pop(q: &mut LocalQueue) -> (r: Option<Vec<String>>)
    ensures
        match r {
            Some(t) => local_tasks(old(q)).contains(t.deep_view()) && local_tasks(final(q))
                == local_tasks(old(q)).remove(t.deep_view()),
            None => local_tasks(old(q)) == Multiset::<Seq<Seq<char>>>::empty() && local_tasks(
                final(q),
            ) == local_tasks(old(q)),
        },
{
    q.inner.pop()
}

/// The shared injector queue for overflow and freshly spawned tasks.
///
/// Relies on crossbeam-deque's `Injector`: a FIFO queue of tasks, held in a
/// struct of this crate's own for the same reason as `LocalQueue`.
#[verifier::external_body]
pub struct InjectorQueue {
    inner: crossbeam_deque::Injector<Vec<String>>,
}

/// The tasks an injector queue holds.
pub uninterp spec fn injector_tasks(q: &InjectorQueue) -> Multiset<Seq<Seq<char>>>;

/// Relies on crossbeam-deque's `Injector::new`: a fresh queue is empty.
#[verifier::external_body]
fn injector_new() -> (q: InjectorQueue)
    ensures
        injector_tasks(&q) == Multiset::<Seq<Seq<char>>>::empty(),
{
    InjectorQueue { inner: crossbeam_deque::Injector::new() }
}

/// Relies on crossbeam-deque's `Injector::push`: adds exactly the given task.
#[verifier::external_body]
fn injector_push(q: &mut InjectorQueue, t: Vec<String>)
    ensures
        injector_tasks(final(q)) == injector_tasks(old(q)).insert(t.deep_view()),
{
    q.inner.push(t);
}

/// What one steal attempt yielded.
enum StealOutcome {
    /// One task, with possibly a batch moved into the local queue.
    Taken(Vec<String>),
    /// The injector is empty.
    Empty,
}

/// Relies on crossbeam-deque's `Injector::steal_batch_and_pop`: it moves
/// some batch of held tasks into the local queue and returns one more, or
/// reports the injector empty; a contended attempt asks to be retried, and
/// the body retries it, as the scheduler's steal sequence does. Tasks are
/// never created or lost.
#[verifier::external_body]
fn injector_steal_batch_and_pop(q: &mut InjectorQueue, local: &mut LocalQueue) -> (r: StealOutcome)
    ensures
        match r {
            StealOutcome::Taken(t) => exists|batch: Multiset<Seq<Seq<char>>>|
                injector_tasks(old(q)) == injector_tasks(final(q)).add(batch).insert(t.deep_view())
                    && local_tasks(final(local)) == local_tasks(old(local)).add(batch),
            StealOutcome::Empty => injector_tasks(old(q)) == Multiset::<Seq<Seq<char>>>::empty()
                && injector_tasks(final(q)) == injector_tasks(old(q)) && local_tasks(final(local))
                == local_tasks(old(local)),
        },
{
    loop {
        match q.inner.steal_batch_and_pop(&local.inner) {
            crossbeam_deque::Steal::Success(t) => return StealOutcome::Taken(t),
            crossbeam_deque::Steal::Empty => return StealOutcome::Empty,
            crossbeam_deque::Steal::Retry => {},
        }
    }
}

/// What a finished execution guarantees: the processor stepped through
/// exactly the log's steps, each task was drawn from the seeds or from
/// earlier spawns, the executed tasks are exactly the seeds plus everything
/// spawned (no task lost or run twice), and the results are exactly the
/// steps' outcomes.
pub open spec fn execute_post<W: TaskProcessor>(
    pre: W,
    post: W,
    seeds: Seq<Seq<Seq<char>>>,
    results: Seq<TaskOutcomeView>,
    log: Seq<TaskStep>,
) -> bool {
    &&& steps_chained(pre, post, log)
    &&& log_ordered(log, seeds.to_multiset())
    &&& log_tasks(log) == seeds.to_multiset().add(log_spawned(log))
    &&& results.to_multiset() == log_outcomes(log)
}

/// Execute `tasks` and everything they spawn, exactly once each.
///
/// The returned log witnesses the run: the processor stepped through exactly
/// the steps of the log; the multiset of executed tasks equals the seeds
/// plus everything the steps spawned (no task is lost or run twice); and the
/// results are exactly the steps' outcomes, one per executed task.
pub fn execute<W: TaskProcessor>(tasks: Vec<Vec<String>>, proc: &mut W) -> (results: Vec<
    TaskOutcome,
>)
    requires
        old(proc).inv(),
    ensures
        final(proc).inv(),
        exists|log: Seq<TaskStep>|
            execute_post(*old(proc), *final(proc), tasks.deep_view(), results.deep_view(), log),
{
    let ghost seeds = tasks.deep_view();
    let mut local = local_new();
    let mut injector = injector_new();

    let mut tasks = tasks;
    let mut first = true;
    while tasks.len() > 0
        invariant
            proc.inv(),
            *proc == *old(proc),
            local_tasks(&local).add(injector_tasks(&injector)).add(
                tasks.deep_view().to_multiset(),
            ) == seeds.to_multiset(),
        decreases tasks.len(),
    {
        let ghost rem = tasks.deep_view();
        let t = tasks.pop().unwrap();
        proof {
            assert(rem.drop_last() =~= rem.remove(rem.len() - 1));
            assert(tasks.deep_view() =~= rem.drop_last());
            assert(tasks.deep_view().to_multiset().insert(t.deep_view()) =~= rem.to_multiset());
        }
        if first {
            first = false;
            local_push(&mut local, t);
        } else {
            injector_push(&mut injector, t);
        }
        proof {
            assert(local_tasks(&local).add(injector_tasks(&injector)).add(
                tasks.deep_view().to_multiset(),
            ) =~= seeds.to_multiset());
        }
    }
    proof {
        assert(tasks.deep_view().to_multiset().len() == 0);
        assert(local_tasks(&local).add(injector_tasks(&injector)) =~= seeds.to_multiset());
    }

    let mut results: Vec<TaskOutcome> = Vec::new();
    let ghost proc0: W = *proc;
    let ghost log: Seq<TaskStep> = Seq::empty();
    let mut done = false;
    proof {
        assert(results.deep_view().to_multiset() =~= Multiset::<TaskOutcomeView>::empty());
    }
    while !done
        invariant
            proc.inv(),
            steps_chained(proc0, *proc, log),
            proc0 == *old(proc),
            local_tasks(&local).add(injector_tasks(&injector)).add(log_tasks(log))
                == seeds.to_multiset().add(log_spawned(log)),
            results.deep_view().to_multiset() == log_outcomes(log),
            log_ordered(log, seeds.to_multiset()),
            done ==> local_tasks(&local).add(injector_tasks(&injector))
                == Multiset::<Seq<Seq<char>>>::empty(),
        decreases (if done {
            0int
        } else {
            1int
        }), proc.measure(), local_tasks(&local).add(injector_tasks(&injector)).len(),
    {
        let maybe_work: Option<Vec<String>> = match local_pop(&mut local) {
            Some(t) => {
                proof {
                    assert(local_tasks(&local).add(injector_tasks(&injector)).insert(
                        t.deep_view(),
                    ).add(log_tasks(log)) =~= seeds.to_multiset().add(log_spawned(log)));
                }
                Some(t)
            },
            None => {
                let ghost inj_before = injector_tasks(&injector);
                let ghost loc_before = local_tasks(&local);
                match injector_steal_batch_and_pop(&mut injector, &mut local) {
                    StealOutcome::Taken(t) => {
                        proof {
                            let batch = choose|batch: Multiset<Seq<Seq<char>>>|
                                inj_before == injector_tasks(&injector).add(batch).insert(
                                    t.deep_view(),
                                ) && local_tasks(&local) == loc_before.add(batch);
                            assert(local_tasks(&local).add(injector_tasks(&injector)).insert(
                                t.deep_view(),
                            ).add(log_tasks(log)) =~= seeds.to_multiset().add(log_spawned(log)));
                        }
                        Some(t)
                    },
                    StealOutcome::Empty => {
                        done = true;
                        proof {
                            assert(local_tasks(&local).add(injector_tasks(&injector))
                                =~= Multiset::<Seq<Seq<char>>>::empty());
                        }
                        None
                    },
                }
            },
        };
        match maybe_work {
            Some(t) => {
                let ghost tv = t.deep_view();
                let ghost qsum = local_tasks(&local).add(injector_tasks(&injector));
                proof {
                    assert(qsum.insert(tv).add(log_tasks(log)) =~= seeds.to_multiset().add(
                        log_spawned(log),
                    ));
                }
                let ghost pre_proc: W = *proc;
                let (outcome, spawned) = proc.process(t);
                let ghost ov = outcome@;
                let ghost spv = spawned.deep_view();
                let ghost step = TaskStep { task: tv, outcome: ov, spawned: spv };
                proof {
                    lemma_steps_chained_push(proc0, pre_proc, *proc, log, step);
                    lemma_log_push(log, step);
                    assert forall|x: Seq<Seq<char>>|
                        log_tasks(log.push(step)).count(x) <= seeds.to_multiset().add(
                            log_spawned(log),
                        ).count(x) by {
                        assert(qsum.insert(tv).add(log_tasks(log)).count(x)
                            == seeds.to_multiset().add(log_spawned(log)).count(x));
                        assert(log_tasks(log.push(step)).count(x) == log_tasks(log).insert(
                            tv,
                        ).count(x));
                    }
                    lemma_log_ordered_push(log, step, seeds.to_multiset());
                }
                let ghost log2 = log.push(step);

                let mut spawned = spawned;
                let ghost inj0 = injector_tasks(&injector);
                while spawned.len() > 0
                    invariant
                        injector_tasks(&injector).add(spawned.deep_view().to_multiset())
                            == inj0.add(spv.to_multiset()),
                    decreases spawned.len(),
                {
                    let ghost rem = spawned.deep_view();
                    let s = spawned.pop().unwrap();
                    proof {
                        assert(rem.drop_last() =~= rem.remove(rem.len() - 1));
                        assert(spawned.deep_view() =~= rem.drop_last());
                        assert(spawned.deep_view().to_multiset().insert(s.deep_view())
                            =~= rem.to_multiset());
                    }
                    injector_push(&mut injector, s);
                    proof {
                        assert(injector_tasks(&injector).add(spawned.deep_view().to_multiset())
                            =~= inj0.add(spv.to_multiset()));
                    }
                }
                proof {
                    assert(spawned.deep_view().to_multiset().len() == 0);
                    assert(injector_tasks(&injector) =~= inj0.add(spv.to_multiset()));
                    assert(local_tasks(&local).add(injector_tasks(&injector)) =~= qsum.add(
                        spv.to_multiset(),
                    ));
                }

                let ghost rv0 = results.deep_view();
                results.push(outcome);
                proof {
                    assert(results.deep_view().len() == rv0.len() + 1);
                    assert(forall|j: int| 0 <= j < rv0.len() ==> results.deep_view()[j] == rv0[j]);
                    assert(results.deep_view()[rv0.len() as int] == ov);
                    assert(results.deep_view() =~= rv0.push(ov));
                    assert(results.deep_view().to_multiset() =~= log_outcomes(log2));
                    assert forall|x: Seq<Seq<char>>|
                        local_tasks(&local).add(injector_tasks(&injector)).add(
                            log_tasks(log2),
                        ).count(x) == seeds.to_multiset().add(log_spawned(log2)).count(x) by {
                        assert(qsum.insert(tv).add(log_tasks(log)).count(x)
                            == seeds.to_multiset().add(log_spawned(log)).count(x));
                        assert(log_tasks(log2).count(x) == log_tasks(log).insert(tv).count(x));
                        assert(log_spawned(log2).count(x) == log_spawned(log).add(
                            spv.to_multiset(),
                        ).count(x));
                        assert(local_tasks(&local).add(injector_tasks(&injector)).count(x)
                            == qsum.add(spv.to_multiset()).count(x));
                    }
                    assert(local_tasks(&local).add(injector_tasks(&injector)).add(log_tasks(log2))
                        =~= seeds.to_multiset().add(log_spawned(log2)));
                }
                proof {
                    log = log2;
                }
            },
            None => {},
        }
    }
    proof {
        assert(log_tasks(log) =~= seeds.to_multiset().add(log_spawned(log)));
        assert(execute_post(proc0, *proc, seeds, results.deep_view(), log));
    }
    results
}

} // verus!
