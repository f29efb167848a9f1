//! The library's laws: what holds of every build, stated and proved once.

use vstd::multiset::Multiset;
use vstd::prelude::*;

use crate::ast::root_node::RootNodeView;
use crate::closure::build_post;
use crate::closure::reachable;
use crate::closure::task_children;
use crate::closure::task_contributes_error;
use crate::closure::task_parses;
use crate::closure::tree_of;
use crate::package::WorkspaceView;
use crate::workqueue::log_outcomes;
use crate::workqueue::log_spawned;
use crate::workqueue::log_tasks;
use crate::workqueue::TaskStep;

verus! {

broadcast use vstd::multiset::group_multiset_axioms;

/// The executor loses no task and runs none twice: in any finished run, the
/// number of results equals the number of tasks ever submitted — the seeds
/// plus everything the run spawned — because the executed tasks are exactly
/// that multiset and each execution yields one outcome.
pub proof fn lemma_one_result_per_task(
    seeds: Multiset<Seq<Seq<char>>>,
    log: Seq<TaskStep>,
    results: Multiset<crate::workqueue::TaskOutcomeView>,
)
    requires
        log_tasks(log) == seeds.add(log_spawned(log)),
        results == log_outcomes(log),
    ensures
        results.len() == seeds.len() + log_spawned(log).len(),
        log_tasks(log).len() == results.len(),
    decreases log.len(),
{
    if log.len() == 0 {
        assert(log_tasks(log).len() == 0);
        assert(log_outcomes(log).len() == 0);
    } else {
        lemma_counts_equal(log);
    }
}

/// A log executes as many tasks as it yields outcomes.
proof fn lemma_counts_equal(log: Seq<TaskStep>)
    ensures
        log_tasks(log).len() == log.len(),
        log_outcomes(log).len() == log.len(),
    decreases log.len(),
{
    if log.len() > 0 {
        lemma_counts_equal(log.drop_last());
    }
}

/// Determinism of the build: any two results of building the same seeds over
/// the same workspace hold the same trees (the same multiset — one tree per
/// reachable file that parses) and the same error flag, whatever order the
/// scheduler completed the tasks in.
pub proof fn lemma_build_deterministic(
    w: WorkspaceView,
    seeds: Seq<Seq<Seq<char>>>,
    trees1: Seq<RootNodeView>,
    flag1: bool,
    trees2: Seq<RootNodeView>,
    flag2: bool,
)
    requires
        build_post(w, seeds, trees1, flag1),
        build_post(w, seeds, trees2, flag2),
    ensures
        trees1.to_multiset() == trees2.to_multiset(),
        flag1 == flag2,
{
    broadcast use vstd::seq_lib::group_to_multiset_ensures;

    assert forall|t: RootNodeView| trees1.to_multiset().count(t) == trees2.to_multiset().count(
        t,
    ) by {
        lemma_tree_count(w, seeds, trees1, flag1, t);
        lemma_tree_count(w, seeds, trees2, flag2, t);
    }
    assert(trees1.to_multiset() =~= trees2.to_multiset());
}

/// In any build result, a tree occurs once if its file is reachable and
/// parses to it, and never otherwise.
pub proof fn lemma_tree_count(
    w: WorkspaceView,
    seeds: Seq<Seq<Seq<char>>>,
    trees: Seq<RootNodeView>,
    flag: bool,
    t: RootNodeView,
)
    requires
        build_post(w, seeds, trees, flag),
    ensures
        trees.to_multiset().count(t) == (if reachable(w, seeds, t.source_path) && task_parses(
            w,
            t.source_path,
        ) && t == tree_of(w, t.source_path) {
            1int
        } else {
            0int
        }),
{
    broadcast use vstd::seq_lib::group_to_multiset_ensures;

    if reachable(w, seeds, t.source_path) && task_parses(w, t.source_path) && t == tree_of(
        w,
        t.source_path,
    ) {
        assert(trees.to_multiset().count(tree_of(w, t.source_path)) == 1);
    } else {
        if trees.to_multiset().count(t) > 0 {
            assert(trees.contains(t));
            let i = choose|i: int| 0 <= i < trees.len() && trees[i] == t;
            assert(reachable(w, seeds, trees[i].source_path));
            assert(false);
        }
    }
}

/// Deduplication: however many times a reachable file is imported, its tree
/// stands in the result exactly once.
pub proof fn lemma_parsed_exactly_once(
    w: WorkspaceView,
    seeds: Seq<Seq<Seq<char>>>,
    trees: Seq<RootNodeView>,
    flag: bool,
    p: Seq<Seq<char>>,
)
    requires
        build_post(w, seeds, trees, flag),
        reachable(w, seeds, p),
        task_parses(w, p),
    ensures
        trees.to_multiset().count(tree_of(w, p)) == 1,
{
}

/// Partial failure: when a reachable file `a` parses but one of its imports
/// leads to a file `b` that does not parse, the error flag is set, yet `a`'s
/// own tree still stands in the result.
pub proof fn lemma_partial_failure(
    w: WorkspaceView,
    seeds: Seq<Seq<Seq<char>>>,
    trees: Seq<RootNodeView>,
    flag: bool,
    a: Seq<Seq<char>>,
    b: Seq<Seq<char>>,
)
    requires
        build_post(w, seeds, trees, flag),
        reachable(w, seeds, a),
        task_parses(w, a),
        task_children(w, a).contains(b),
        !task_parses(w, b),
    ensures
        flag,
        trees.to_multiset().count(tree_of(w, a)) == 1,
{
    crate::closure::lemma_reachable_step(w, seeds, a, b);
    assert(reachable(w, seeds, b) && task_contributes_error(w, b));
}

/// An empty seed set: nothing is reachable, so the build returns no trees
/// and no error.
pub proof fn lemma_empty_seeds(
    w: WorkspaceView,
    trees: Seq<RootNodeView>,
    flag: bool,
)
    requires
        build_post(w, Seq::<Seq<Seq<char>>>::empty(), trees, flag),
    ensures
        trees == Seq::<RootNodeView>::empty(),
        !flag,
{
    broadcast use vstd::seq_lib::group_to_multiset_ensures;

    let seeds = Seq::<Seq<Seq<char>>>::empty();
    assert forall|p: Seq<Seq<char>>| !reachable(w, seeds, p) by {
        if reachable(w, seeds, p) {
            let chain = choose|chain: Seq<Seq<Seq<char>>>|
                #![auto]
                chain.len() >= 1 && seeds.contains(chain.first()) && chain.last() == p && (forall|
                    i: int,
                |
                    0 <= i < chain.len() - 1 ==> task_children(w, #[trigger] chain[i]).contains(
                        chain[i + 1],
                    ));
            assert(false);
        }
    }
    if trees.len() > 0 {
        assert(reachable(w, seeds, trees[0].source_path));
        assert(false);
    }
    assert(trees =~= Seq::<RootNodeView>::empty());
    if flag {
        let p = choose|p: Seq<Seq<char>>|
            #[trigger] reachable(w, seeds, p) && task_contributes_error(w, p);
        assert(false);
    }
}

} // verus!
