//! The build-closure orchestrator.
//!
//! Starting from a set of root files, discover the transitive closure of
//! files reachable through import edges, parse each exactly once, and report
//! the parsed trees together with an aggregate error flag. One task handles
//! one file: it claims the file's key in the dedup set, looks the file up in
//! the workspace, parses it, resolves its imports, and spawns a task for
//! every resolved target; the dedup check of the spawned task is what keeps
//! each file parsed once.

use vstd::multiset::Multiset;
use vstd::prelude::*;

use crate::ast::global_statement::GlobalStatement;
use crate::ast::global_statement::GlobalStatementView;
use crate::ast::import_statement::ImportStatement;
use crate::ast::import_statement::ImportStatementView;
use crate::ast::root_node::has_unresolved;
use crate::ast::root_node::spec_resolved_of;
use crate::ast::root_node::RootNode;
use crate::ast::root_node::RootNodeView;
use crate::dedup::DedupSet;
use crate::package::find_file;
use crate::package::resolve_import;
use crate::package::spec_resolve_import;
use crate::package::Workspace;
use crate::package::WorkspaceView;
use crate::parser::parse;
use crate::parser::spec_parse;
use crate::paths::path_view;
use crate::workqueue::TaskOutcome;
use crate::workqueue::TaskOutcomeView;
use crate::workqueue::TaskProcessor;
use crate::workqueue::TaskStep;

verus! {

broadcast use
    vstd::seq_lib::group_to_multiset_ensures,
    vstd::multiset::group_multiset_axioms,
    vstd::set::group_set_axioms,
    vstd::seq_lib::seq_to_set_is_finite;


/// `s` with its import target resolved against `source` in workspace `w`.
pub open spec fn resolve_stmt_view(
    w: WorkspaceView,
    source: Seq<Seq<char>>,
    s: GlobalStatementView,
) -> GlobalStatementView {
    match s {
        GlobalStatementView::Import(st) => GlobalStatementView::Import(
            ImportStatementView {
                target: st.target,
                resolved_target: spec_resolve_import(w, source, st.target),
                items: st.items,
            },
        ),
        GlobalStatementView::StructDefinition(d) => GlobalStatementView::StructDefinition(d),
    }
}

/// Every statement of `ss` with its import target resolved.
pub open spec fn resolve_stmts_view(
    w: WorkspaceView,
    source: Seq<Seq<char>>,
    ss: Seq<GlobalStatementView>,
) -> Seq<GlobalStatementView> {
    Seq::new(ss.len(), |i: int| resolve_stmt_view(w, source, ss[i]))
}

/// The tree that the file at `p` yields: its text parsed and its imports
/// resolved; `None` when the file is missing, unreadable, or does not parse.
pub open spec fn spec_task_tree(w: WorkspaceView, p: Seq<Seq<char>>) -> Option<RootNodeView> {
    match find_file(w.files, p) {
        Some(Some(text)) => match spec_parse(text) {
            Ok(stmts) => Some(
                (RootNodeView { source_path: p, statements: resolve_stmts_view(w, p, stmts) }),
            ),
            Err(_) => None,
        },
        _ => None,
    }
}

/// Whether the file at `p` reads and parses.
pub open spec fn task_parses(w: WorkspaceView, p: Seq<Seq<char>>) -> bool {
    spec_task_tree(w, p) is Some
}

/// The tree of the file at `p` (meaningful when `task_parses`).
pub open spec fn tree_of(w: WorkspaceView, p: Seq<Seq<char>>) -> RootNodeView {
    spec_task_tree(w, p)->Some_0
}

/// The files that `p` imports: the resolved targets of its tree, in order;
/// a file that does not parse has no children.
pub open spec fn task_children(w: WorkspaceView, p: Seq<Seq<char>>) -> Seq<Seq<Seq<char>>> {
    if task_parses(w, p) {
        spec_resolved_of(tree_of(w, p).statements)
    } else {
        Seq::empty()
    }
}

/// Whether processing the file at `p` records an error: it is missing,
/// unreadable or unparsable, or some import of it does not resolve.
pub open spec fn task_contributes_error(w: WorkspaceView, p: Seq<Seq<char>>) -> bool {
    !task_parses(w, p) || has_unresolved(tree_of(w, p).statements)
}

/// The keys of the workspace's files, in listing order.
pub open spec fn file_key_seq(w: WorkspaceView) -> Seq<Seq<Seq<char>>> {
    Seq::new(w.files.len(), |i: int| w.files[i].path)
}

/// The set of the workspace's file keys.
pub open spec fn file_keys(w: WorkspaceView) -> Set<Seq<Seq<char>>> {
    file_key_seq(w).to_set()
}

/// Fill in the resolved target of every import statement of `root`, by
/// resolving its target text against the tree's source path.
pub fn resolve_tree(ws: &Workspace, root: RootNode) -> (r: RootNode)
    ensures
        r@.source_path == root@.source_path,
        r@.statements == resolve_stmts_view(ws@, root@.source_path, root@.statements),
{
    let RootNode { source_path, statements } = root;
    let ghost orig = statements.deep_view();
    let ghost spv = source_path.deep_view();
    let mut stmts = statements;
    let mut out: Vec<GlobalStatement> = Vec::new();
    proof {
        assert(orig.skip(0) =~= orig);
        assert(out.deep_view() =~= resolve_stmts_view(ws@, spv, orig).take(0));
    }
    while stmts.len() > 0
        invariant
            out.deep_view().len() + stmts.deep_view().len() == orig.len(),
            stmts.deep_view() == orig.skip(out.deep_view().len() as int),
            out.deep_view() == resolve_stmts_view(ws@, spv, orig).take(
                out.deep_view().len() as int,
            ),
            spv == source_path.deep_view(),
        decreases stmts.len(),
    {
        let ghost rem = stmts.deep_view();
        let ghost done = out.deep_view().len() as int;
        let st = stmts.remove(0);
        proof {
            assert(stmts.deep_view() =~= rem.drop_first());
            assert(st@ == rem.first());
            assert(rem.first() == orig[done]);
            assert(stmts.deep_view() =~= orig.skip(done + 1));
        }
        let ghost pre = out.deep_view();
        match st {
            GlobalStatement::Import(is) => {
                let ImportStatement { target, resolved_target: _, items } = is;
                let resolved = resolve_import(ws, &source_path, target.as_str());
                out.push(
                    GlobalStatement::Import(
                        ImportStatement { target, resolved_target: resolved, items },
                    ),
                );
            },
            GlobalStatement::StructDefinition(d) => {
                out.push(GlobalStatement::StructDefinition(d));
            },
        }
        proof {
            assert(out.deep_view().len() == pre.len() + 1);
            assert(forall|j: int| 0 <= j < pre.len() ==> out.deep_view()[j] == pre[j]);
            assert(out.deep_view()[done] == resolve_stmt_view(ws@, spv, orig[done]));
            assert(out.deep_view() =~= resolve_stmts_view(ws@, spv, orig).take(done + 1));
        }
    }
    proof {
        assert(out.deep_view() =~= resolve_stmts_view(ws@, spv, orig));
    }
    let r = RootNode { source_path, statements: out };
    r
}

/// The task processor of the build closure: a workspace to read, the dedup
/// set of claimed file keys, and the one-way error flag.
pub struct BuildProcessor<'a> {
    pub ws: &'a Workspace,
    pub dedup: DedupSet,
    pub had_errors: bool,
}

/// How one build task relates the processor's old state to its new one: a
/// task whose key is already claimed is skipped untouched; a fresh task
/// claims its key, yields its file's tree (or a failure marker and the error
/// flag), spawns its resolved imports, and flags unresolved ones.
pub open spec fn build_step_rel(
    pre: BuildProcessor,
    post: BuildProcessor,
    step: TaskStep,
) -> bool {
    let w = pre.ws@;
    &&& post.ws == pre.ws
    &&& if pre.dedup.claimed().contains(step.task) {
        &&& post.dedup.claimed() == pre.dedup.claimed()
        &&& post.had_errors == pre.had_errors
        &&& step.outcome == TaskOutcomeView::Skipped
        &&& step.spawned == Seq::<Seq<Seq<char>>>::empty()
    } else {
        &&& post.dedup.claimed() == pre.dedup.claimed().insert(step.task)
        &&& match spec_task_tree(w, step.task) {
            Some(tree) => {
                &&& step.outcome == TaskOutcomeView::Tree(tree)
                &&& step.spawned == spec_resolved_of(tree.statements)
                &&& post.had_errors == (pre.had_errors || has_unresolved(tree.statements))
            },
            None => {
                &&& step.outcome == TaskOutcomeView::Failed
                &&& step.spawned == Seq::<Seq<Seq<char>>>::empty()
                &&& post.had_errors
            },
        }
    }
}

impl<'a> TaskProcessor for BuildProcessor<'a> {
    open spec fn inv(&self) -> bool {
        true
    }

    open spec fn step_rel(pre: Self, post: Self, step: TaskStep) -> bool {
        build_step_rel(pre, post, step)
    }

    open spec fn measure(&self) -> nat {
        file_keys(self.ws@).difference(self.dedup.claimed()).len()
    }

    fn process(&mut self, task: Vec<String>) -> (out: (TaskOutcome, Vec<Vec<String>>)) {
        let ghost w = self.ws@;
        let ghost k = task.deep_view();
        let ghost claimed0 = self.dedup.claimed();
        proof {
            assert(file_keys(w).finite());
            assert(file_keys(w).difference(claimed0).subset_of(file_keys(w)));
            vstd::set_lib::lemma_len_subset(file_keys(w).difference(claimed0), file_keys(w));
        }
        let key = crate::paths::clone_path(&task);
        let fresh = self.dedup.insert(key);
        if !fresh {
            proof {
                assert(self.dedup.claimed() =~= claimed0);
                assert(file_keys(w).difference(self.dedup.claimed()) =~= file_keys(w).difference(
                    claimed0,
                ));
            }
            let empty: Vec<Vec<String>> = Vec::new();
            proof {
                assert(empty.deep_view() =~= Seq::<Seq<Seq<char>>>::empty());
            }
            return (TaskOutcome::Skipped, empty);
        }
        proof {
            assert(file_keys(w).difference(self.dedup.claimed()) =~= file_keys(w).difference(
                claimed0,
            ).remove(k));
            assert(file_keys(w).difference(self.dedup.claimed()).len() <= file_keys(w).difference(
                claimed0,
            ).len());
        }
        let text = match self.ws.file_contents(&task) {
            Some(slot) => match slot {
                Some(text) => Some(text),
                None => None,
            },
            None => None,
        };
        let text = match text {
            Some(t) => t,
            None => {
                self.had_errors = true;
                let empty: Vec<Vec<String>> = Vec::new();
                proof {
                    assert(empty.deep_view() =~= Seq::<Seq<Seq<char>>>::empty());
                }
                return (TaskOutcome::Failed, empty);
            },
        };
        let root = match parse(text.as_str(), &task) {
            Ok(root) => root,
            Err(_) => {
                self.had_errors = true;
                let empty: Vec<Vec<String>> = Vec::new();
                proof {
                    assert(empty.deep_view() =~= Seq::<Seq<Seq<char>>>::empty());
                }
                return (TaskOutcome::Failed, empty);
            },
        };
        let root = resolve_tree(self.ws, root);
        proof {
            assert(root@ == spec_task_tree(w, k)->Some_0);
        }
        let pair = root.resolved_imports();
        let spawned = pair.0;
        let unresolved = pair.1;
        if unresolved {
            self.had_errors = true;
        }
        proof {
            assert(spawned.deep_view() == spec_resolved_of(tree_of(w, k).statements));
            if spawned.deep_view().len() > 0 {
                assert(file_keys(w).contains(k)) by {
                    assert(find_file(w.files, k) is Some);
                    lemma_find_file_in_keys(w.files, k);
                    let i = choose|i: int| 0 <= i < w.files.len() && w.files[i].path == k;
                    assert(file_key_seq(w)[i] == k);
                    assert(file_key_seq(w).contains(k));
                }
                assert(file_keys(w).difference(claimed0).contains(k));
                assert(file_keys(w).difference(claimed0).remove(k).len() == file_keys(
                    w,
                ).difference(claimed0).len() - 1);
            }
        }
        (TaskOutcome::Tree(root), spawned)
    }
}

/// A key reachable from the seeds through resolved import edges: some chain
/// of files leads from a seed to it, each importing the next.
pub open spec fn reachable(w: WorkspaceView, seeds: Seq<Seq<Seq<char>>>, p: Seq<Seq<char>>) -> bool {
    exists|chain: Seq<Seq<Seq<char>>>|
        #![auto]
        chain.len() >= 1 && seeds.contains(chain.first()) && chain.last() == p && (forall|i: int|
            0 <= i < chain.len() - 1 ==> task_children(w, #[trigger] chain[i]).contains(
                chain[i + 1],
            ))
}

/// Every seed is reachable.
pub proof fn lemma_reachable_seed(w: WorkspaceView, seeds: Seq<Seq<Seq<char>>>, p: Seq<Seq<char>>)
    requires
        seeds.contains(p),
    ensures
        reachable(w, seeds, p),
{
    let chain = seq![p];
    assert(chain.len() >= 1 && seeds.contains(chain.first()) && chain.last() == p && (forall|
        i: int,
    |
        0 <= i < chain.len() - 1 ==> task_children(w, #[trigger] chain[i]).contains(
            chain[i + 1],
        )));
}

/// A child of a reachable file is reachable.
pub proof fn lemma_reachable_step(
    w: WorkspaceView,
    seeds: Seq<Seq<Seq<char>>>,
    p: Seq<Seq<char>>,
    c: Seq<Seq<char>>,
)
    requires
        reachable(w, seeds, p),
        task_children(w, p).contains(c),
    ensures
        reachable(w, seeds, c),
{
    let chain = choose|chain: Seq<Seq<Seq<char>>>|
        #![auto]
        chain.len() >= 1 && seeds.contains(chain.first()) && chain.last() == p && (forall|i: int|
            0 <= i < chain.len() - 1 ==> task_children(w, #[trigger] chain[i]).contains(
                chain[i + 1],
            ));
    let chain2 = chain.push(c);
    assert(chain2.first() == chain.first());
    assert(chain2.last() == c);
    assert forall|i: int| 0 <= i < chain2.len() - 1 implies task_children(
        w,
        #[trigger] chain2[i],
    ).contains(chain2[i + 1]) by {
        if i < chain.len() - 1 {
            assert(chain2[i] == chain[i]);
            assert(chain2[i + 1] == chain[i + 1]);
        } else {
            assert(chain2[i] == chain.last());
            assert(chain2[i + 1] == c);
        }
    }
    assert(chain2.len() >= 1 && seeds.contains(chain2.first()) && chain2.last() == c && (forall|
        i: int,
    |
        0 <= i < chain2.len() - 1 ==> task_children(w, #[trigger] chain2[i]).contains(
            chain2[i + 1],
        )));
}

/// Every key on an import chain from the seeds lies in any set that holds
/// the seeds and is closed under import edges.
pub proof fn lemma_chain_closed(
    w: WorkspaceView,
    seeds: Seq<Seq<Seq<char>>>,
    s: Set<Seq<Seq<char>>>,
    chain: Seq<Seq<Seq<char>>>,
)
    requires
        forall|x: Seq<Seq<char>>| seeds.contains(x) ==> s.contains(x),
        forall|p: Seq<Seq<char>>, c: Seq<Seq<char>>|
            s.contains(p) && #[trigger] task_children(w, p).contains(c) ==> s.contains(c),
        chain.len() >= 1,
        seeds.contains(chain.first()),
        forall|i: int|
            0 <= i < chain.len() - 1 ==> task_children(w, #[trigger] chain[i]).contains(
                chain[i + 1],
            ),
    ensures
        s.contains(chain.last()),
    decreases chain.len(),
{
    if chain.len() == 1 {
        assert(chain.last() == chain.first());
    } else {
        let c2 = chain.drop_last();
        assert(c2.first() == chain.first());
        assert forall|i: int| 0 <= i < c2.len() - 1 implies task_children(
            w,
            #[trigger] c2[i],
        ).contains(c2[i + 1]) by {
            assert(c2[i] == chain[i]);
            assert(c2[i + 1] == chain[i + 1]);
        }
        lemma_chain_closed(w, seeds, s, c2);
        assert(chain[chain.len() - 2] == c2.last());
        assert(task_children(w, chain[chain.len() - 2]).contains(chain[chain.len() - 1]));
    }
}

/// Everything reachable lies in any set that holds the seeds and is closed
/// under import edges.
pub proof fn lemma_reachable_closed(
    w: WorkspaceView,
    seeds: Seq<Seq<Seq<char>>>,
    s: Set<Seq<Seq<char>>>,
)
    requires
        forall|x: Seq<Seq<char>>| seeds.contains(x) ==> s.contains(x),
        forall|p: Seq<Seq<char>>, c: Seq<Seq<char>>|
            s.contains(p) && #[trigger] task_children(w, p).contains(c) ==> s.contains(c),
    ensures
        forall|p: Seq<Seq<char>>| reachable(w, seeds, p) ==> s.contains(p),
{
    assert forall|p: Seq<Seq<char>>| reachable(w, seeds, p) implies s.contains(p) by {
        let chain = choose|chain: Seq<Seq<Seq<char>>>|
            #![auto]
            chain.len() >= 1 && seeds.contains(chain.first()) && chain.last() == p && (forall|
                i: int,
            |
                0 <= i < chain.len() - 1 ==> task_children(w, #[trigger] chain[i]).contains(
                    chain[i + 1],
                ));
        lemma_chain_closed(w, seeds, s, chain);
    }
}

/// What one finished run of the build processor means, read off its log:
/// the claimed keys are exactly the executed tasks, and all of them are
/// reachable; what was spawned is exactly the children of the claimed files
/// that parse; the error flag stands exactly when some claimed file
/// contributes an error; and the outcomes hold exactly one tree per claimed
/// file that parses.
pub proof fn lemma_build_run<'a>(
    seeds: Seq<Seq<Seq<char>>>,
    b0: BuildProcessor<'a>,
    b1: BuildProcessor<'a>,
    log: Seq<TaskStep>,
)
    requires
        crate::workqueue::steps_chained(b0, b1, log),
        crate::workqueue::log_ordered(log, seeds.to_multiset()),
        b0.dedup.claimed() == Set::<Seq<Seq<char>>>::empty(),
        b0.had_errors == false,
    ensures
        b1.ws == b0.ws,
        forall|k: Seq<Seq<char>>|
            #[trigger] crate::workqueue::log_tasks(log).contains(k) ==> b1.dedup.claimed().contains(
                k,
            ) && reachable(b0.ws@, seeds, k),
        forall|k: Seq<Seq<char>>|
            #[trigger] b1.dedup.claimed().contains(k) ==> crate::workqueue::log_tasks(log).contains(
                k,
            ),
        forall|p: Seq<Seq<char>>|
            #[trigger] b1.dedup.claimed().contains(p) && task_parses(b0.ws@, p) ==> task_children(
                b0.ws@,
                p,
            ).to_multiset().subset_of(crate::workqueue::log_spawned(log)),
        forall|x: Seq<Seq<char>>|
            #[trigger] crate::workqueue::log_spawned(log).contains(x) ==> exists|p: Seq<Seq<char>>|
                b1.dedup.claimed().contains(p) && task_parses(b0.ws@, p) && task_children(
                    b0.ws@,
                    p,
                ).contains(x),
        b1.had_errors == exists|p: Seq<Seq<char>>|
            #[trigger] b1.dedup.claimed().contains(p) && task_contributes_error(b0.ws@, p),
        forall|t: RootNodeView|
            #[trigger] crate::workqueue::log_outcomes(log).count(TaskOutcomeView::Tree(t)) == (
            if b1.dedup.claimed().contains(t.source_path) && task_parses(b0.ws@, t.source_path)
                && t == tree_of(b0.ws@, t.source_path) {
                1int
            } else {
                0int
            }),
    decreases log.len(),
{
    let w = b0.ws@;
    if log.len() == 0 {
        assert(b0 == b1);
        assert(crate::workqueue::log_tasks(log) =~= Multiset::<Seq<Seq<char>>>::empty());
        assert(crate::workqueue::log_spawned(log) =~= Multiset::<Seq<Seq<char>>>::empty());
        assert(crate::workqueue::log_outcomes(log) =~= Multiset::<TaskOutcomeView>::empty());
    } else {
        crate::workqueue::lemma_chained_unsnoc(b0, b1, log);
        let mid = choose|mid: BuildProcessor<'a>|
            crate::workqueue::steps_chained(b0, mid, log.drop_last())
                && <BuildProcessor<'a> as TaskProcessor>::step_rel(mid, b1, log.last());
        crate::workqueue::lemma_log_ordered_unsnoc(log, seeds.to_multiset());
        let l2 = log.drop_last();
        lemma_build_run(seeds, b0, mid, l2);
        let step = log.last();
        let k = step.task;
        assert(crate::workqueue::log_tasks(log) == crate::workqueue::log_tasks(l2).insert(k));
        assert(crate::workqueue::log_spawned(log) == crate::workqueue::log_spawned(l2).add(
            step.spawned.to_multiset(),
        ));
        assert(crate::workqueue::log_outcomes(log) == crate::workqueue::log_outcomes(l2).insert(
            step.outcome,
        ));
        // the last task was already submitted: it is a seed or was spawned earlier
        assert(crate::workqueue::log_tasks(log.take(log.len() as int - 1 + 1)).subset_of(
            seeds.to_multiset().add(crate::workqueue::log_spawned(log.take(log.len() as int - 1))),
        ));
        assert(log.take(log.len() as int) =~= log);
        assert(log.take(log.len() as int - 1) =~= l2);
        assert(crate::workqueue::log_tasks(log).count(k) >= 1);
        assert(seeds.to_multiset().add(crate::workqueue::log_spawned(l2)).count(k) >= 1);
        if seeds.to_multiset().count(k) > 0 {
            assert(seeds.contains(k));
            lemma_reachable_seed(w, seeds, k);
        } else {
            assert(crate::workqueue::log_spawned(l2).count(k) > 0);
            assert(crate::workqueue::log_spawned(l2).contains(k));
            let p = choose|p: Seq<Seq<char>>|
                mid.dedup.claimed().contains(p) && task_parses(w, p) && task_children(
                    w,
                    p,
                ).contains(k);
            assert(crate::workqueue::log_tasks(l2).contains(p));
            assert(reachable(w, seeds, p));
            lemma_reachable_step(w, seeds, p, k);
        }
        assert(reachable(w, seeds, k));
        // the claimed set grows by at most this one task
        if mid.dedup.claimed().contains(k) {
            assert(b1.dedup.claimed() == mid.dedup.claimed());
        } else {
            assert(b1.dedup.claimed() == mid.dedup.claimed().insert(k));
        }
        assert(b1.dedup.claimed().contains(k));
        assert forall|x: Seq<Seq<char>>|
            #[trigger] crate::workqueue::log_tasks(log).contains(x) implies b1.dedup.claimed()
            .contains(x) && reachable(w, seeds, x) by {
            if x == k {
            } else {
                assert(crate::workqueue::log_tasks(l2).count(x) == crate::workqueue::log_tasks(
                    log,
                ).count(x));
                assert(crate::workqueue::log_tasks(l2).contains(x));
            }
        }
        assert forall|x: Seq<Seq<char>>| #[trigger] b1.dedup.claimed().contains(x) implies
            crate::workqueue::log_tasks(log).contains(x) by {
            if x == k {
            } else {
                assert(mid.dedup.claimed().contains(x));
                assert(crate::workqueue::log_tasks(l2).contains(x));
                assert(crate::workqueue::log_tasks(log).count(x) >= crate::workqueue::log_tasks(
                    l2,
                ).count(x));
            }
        }
        // spawned accounting
        assert forall|p: Seq<Seq<char>>|
            #[trigger] b1.dedup.claimed().contains(p) && task_parses(w, p) implies task_children(
            w,
            p,
        ).to_multiset().subset_of(crate::workqueue::log_spawned(log)) by {
            if mid.dedup.claimed().contains(p) {
                assert(task_children(w, p).to_multiset().subset_of(
                    crate::workqueue::log_spawned(l2),
                ));
            } else {
                assert(p == k);
                assert(step.spawned == task_children(w, k));
            }
        }
        assert forall|x: Seq<Seq<char>>|
            #[trigger] crate::workqueue::log_spawned(log).contains(x) implies exists|
            p: Seq<Seq<char>>,
        |
            b1.dedup.claimed().contains(p) && task_parses(w, p) && task_children(w, p).contains(
                x,
            ) by {
            if crate::workqueue::log_spawned(l2).count(x) > 0 {
                assert(crate::workqueue::log_spawned(l2).contains(x));
                let p = choose|p: Seq<Seq<char>>|
                    mid.dedup.claimed().contains(p) && task_parses(w, p) && task_children(
                        w,
                        p,
                    ).contains(x);
                assert(b1.dedup.claimed().contains(p) && task_parses(w, p) && task_children(
                    w,
                    p,
                ).contains(x));
            } else {
                assert(step.spawned.to_multiset().count(x) > 0);
                assert(step.spawned.contains(x));
                assert(!mid.dedup.claimed().contains(k));
                assert(task_parses(w, k) && task_children(w, k).contains(x));
                assert(b1.dedup.claimed().contains(k) && task_parses(w, k) && task_children(
                    w,
                    k,
                ).contains(x));
            }
        }
        // the error flag
        assert(b1.had_errors == (exists|p: Seq<Seq<char>>|
            #[trigger] b1.dedup.claimed().contains(p) && task_contributes_error(w, p))) by {
            if b1.had_errors {
                if mid.had_errors {
                    let p = choose|p: Seq<Seq<char>>|
                        #[trigger] mid.dedup.claimed().contains(p) && task_contributes_error(w, p);
                    assert(b1.dedup.claimed().contains(p) && task_contributes_error(w, p));
                } else {
                    assert(!mid.dedup.claimed().contains(k));
                    assert(task_contributes_error(w, k));
                    assert(b1.dedup.claimed().contains(k) && task_contributes_error(w, k));
                }
            }
            if exists|p: Seq<Seq<char>>|
                #[trigger] b1.dedup.claimed().contains(p) && task_contributes_error(w, p) {
                let p = choose|p: Seq<Seq<char>>|
                    #[trigger] b1.dedup.claimed().contains(p) && task_contributes_error(w, p);
                if mid.dedup.claimed().contains(p) {
                    assert(mid.had_errors);
                    assert(b1.had_errors);
                } else {
                    assert(p == k);
                    assert(b1.had_errors);
                }
            }
        }
        // outcome counts
        assert forall|t: RootNodeView|
            #[trigger] crate::workqueue::log_outcomes(log).count(TaskOutcomeView::Tree(t)) == (
        if b1.dedup.claimed().contains(t.source_path) && task_parses(w, t.source_path) && t
            == tree_of(w, t.source_path) {
            1int
        } else {
            0int
        }) by {
            let before = crate::workqueue::log_outcomes(l2).count(TaskOutcomeView::Tree(t));
            if mid.dedup.claimed().contains(k) {
                assert(step.outcome == TaskOutcomeView::Skipped);
            } else {
                match spec_task_tree(w, k) {
                    Some(tree) => {
                        assert(tree.source_path == k);
                        if t == tree {
                            assert(!mid.dedup.claimed().contains(t.source_path));
                            assert(before == 0);
                        }
                    },
                    None => {
                        assert(step.outcome == TaskOutcomeView::Failed);
                        if t.source_path == k {
                            assert(!task_parses(w, k));
                        }
                    },
                }
            }
        }
    }
}

/// What a finished build of `seeds` over `w` returns: one tree per
/// reachable file that parses, nothing else, and the error flag exactly when
/// some reachable file is missing, unreadable or unparsable, or some import
/// of a reachable parsed file does not resolve.
pub open spec fn build_post(
    w: WorkspaceView,
    seeds: Seq<Seq<Seq<char>>>,
    trees: Seq<RootNodeView>,
    had_errors: bool,
) -> bool {
    &&& forall|p: Seq<Seq<char>>|
        reachable(w, seeds, p) && task_parses(w, p) ==> #[trigger] trees.to_multiset().count(
            tree_of(w, p),
        ) == 1
    &&& forall|i: int|
        0 <= i < trees.len() ==> reachable(w, seeds, (#[trigger] trees[i]).source_path)
            && task_parses(w, trees[i].source_path) && trees[i] == tree_of(
            w,
            trees[i].source_path,
        )
    &&& had_errors == exists|p: Seq<Seq<char>>|
        #[trigger] reachable(w, seeds, p) && task_contributes_error(w, p)
}

/// Build the transitive import closure of the `seeds` over `ws`: run a task
/// per file, spawning tasks for resolved imports, until no work is left.
/// Returns the parsed trees — exactly one per reachable file that parses,
/// in no particular order — and whether any error (an unreadable or
/// unparsable file, or an unresolvable import of a parsed file) was met.
pub fn build_closure(ws: &Workspace, seeds: Vec<Vec<String>>) -> (r: (Vec<RootNode>, bool))
    ensures
        build_post(ws@, seeds.deep_view(), r.0.deep_view(), r.1),
{
    let ghost sv = seeds.deep_view();
    let mut proc = BuildProcessor { ws, dedup: DedupSet::new(), had_errors: false };
    let ghost b0 = proc;
    let outcomes = crate::workqueue::execute(seeds, &mut proc);
    let ghost claimed = proc.dedup.claimed();
    let ghost allout = outcomes.deep_view().to_multiset();
    proof {
        assert(b0.dedup.claimed() =~= Set::<Seq<Seq<char>>>::empty());
        let log = choose|log: Seq<TaskStep>|
            crate::workqueue::execute_post(b0, proc, sv, outcomes.deep_view(), log);
        lemma_build_run(sv, b0, proc, log);
        // the seeds are claimed
        assert forall|x: Seq<Seq<char>>| sv.contains(x) implies claimed.contains(x) by {
            assert(sv.to_multiset().count(x) > 0);
            assert(crate::workqueue::log_tasks(log).count(x) >= sv.to_multiset().count(x));
            assert(crate::workqueue::log_tasks(log).contains(x));
        }
        // the claimed set is closed under import edges
        assert forall|p: Seq<Seq<char>>, c: Seq<Seq<char>>|
            claimed.contains(p) && #[trigger] task_children(ws@, p).contains(c) implies
            claimed.contains(c) by {
            if task_parses(ws@, p) {
                assert(task_children(ws@, p).to_multiset().count(c) > 0);
                assert(crate::workqueue::log_spawned(log).count(c) > 0);
                assert(crate::workqueue::log_tasks(log).count(c)
                    >= crate::workqueue::log_spawned(log).count(c));
                assert(crate::workqueue::log_tasks(log).contains(c));
            }
        }
        lemma_reachable_closed(ws@, sv, claimed);
        // every claimed key is reachable
        assert forall|p: Seq<Seq<char>>| #[trigger] claimed.contains(p) implies reachable(
            ws@,
            sv,
            p,
        ) by {
            assert(crate::workqueue::log_tasks(log).contains(p));
        }
        // the flag reads over the reachable keys
        assert(proc.had_errors == (exists|p: Seq<Seq<char>>|
            #[trigger] reachable(ws@, sv, p) && task_contributes_error(ws@, p))) by {
            if proc.had_errors {
                let p = choose|p: Seq<Seq<char>>|
                    #[trigger] claimed.contains(p) && task_contributes_error(ws@, p);
                assert(reachable(ws@, sv, p) && task_contributes_error(ws@, p));
            }
            if exists|p: Seq<Seq<char>>|
                #[trigger] reachable(ws@, sv, p) && task_contributes_error(ws@, p) {
                let p = choose|p: Seq<Seq<char>>|
                    #[trigger] reachable(ws@, sv, p) && task_contributes_error(ws@, p);
                assert(claimed.contains(p));
                assert(proc.had_errors);
            }
        }
        assert(allout == crate::workqueue::log_outcomes(log));
    }
    let mut outcomes = outcomes;
    let mut trees: Vec<RootNode> = Vec::new();
    proof {
        assert(trees.deep_view().to_multiset() =~= Multiset::<RootNodeView>::empty());
    }
    while outcomes.len() > 0
        invariant
            forall|t: RootNodeView|
                #[trigger] allout.count(TaskOutcomeView::Tree(t)) == trees.deep_view().to_multiset()
                    .count(t) + outcomes.deep_view().to_multiset().count(TaskOutcomeView::Tree(t)),
            forall|t: RootNodeView|
                #[trigger] allout.count(TaskOutcomeView::Tree(t)) == (
                if claimed.contains(t.source_path) && task_parses(ws@, t.source_path) && t
                    == tree_of(ws@, t.source_path) {
                    1int
                } else {
                    0int
                }),
            forall|p: Seq<Seq<char>>| #[trigger] claimed.contains(p) ==> reachable(ws@, sv, p),
            forall|p: Seq<Seq<char>>|
                #[trigger] reachable(ws@, sv, p) ==> claimed.contains(p),
        decreases outcomes.len(),
    {
        let ghost rem = outcomes.deep_view();
        let o = outcomes.pop().unwrap();
        proof {
            assert(rem.drop_last() =~= rem.remove(rem.len() - 1));
            assert(outcomes.deep_view() =~= rem.drop_last());
            assert(outcomes.deep_view().to_multiset().insert(o@) =~= rem.to_multiset());
        }
        match o {
            TaskOutcome::Tree(t) => {
                let ghost pre = trees.deep_view();
                let ghost tv = t@;
                trees.push(t);
                proof {
                    assert(trees.deep_view().len() == pre.len() + 1);
                    assert(forall|j: int| 0 <= j < pre.len() ==> trees.deep_view()[j] == pre[j]);
                    assert(trees.deep_view()[pre.len() as int] == tv);
                    assert(trees.deep_view() =~= pre.push(tv));
                }
            },
            TaskOutcome::Skipped => {},
            TaskOutcome::Failed => {},
        }
    }
    proof {
        assert(outcomes.deep_view().to_multiset().len() == 0);
        // one tree per reachable file that parses
        assert forall|p: Seq<Seq<char>>|
            reachable(ws@, sv, p) && task_parses(ws@, p) implies #[trigger] trees.deep_view()
            .to_multiset().count(tree_of(ws@, p)) == 1 by {
            let t = tree_of(ws@, p);
            assert(t.source_path == p);
            assert(claimed.contains(p));
            assert(allout.count(TaskOutcomeView::Tree(t)) == 1);
        }
        // every returned tree belongs to a reachable file that parses
        assert forall|i: int| 0 <= i < trees.deep_view().len() implies reachable(
            ws@,
            sv,
            (#[trigger] trees.deep_view()[i]).source_path,
        ) && task_parses(ws@, trees.deep_view()[i].source_path) && trees.deep_view()[i] == tree_of(
            ws@,
            trees.deep_view()[i].source_path,
        ) by {
            let t = trees.deep_view()[i];
            assert(trees.deep_view().contains(t));
            assert(trees.deep_view().to_multiset().count(t) > 0);
            assert(allout.count(TaskOutcomeView::Tree(t)) > 0);
            assert(claimed.contains(t.source_path));
        }
    }
    (trees, proc.had_errors)
}

/// A key that `find_file` finds is among the file keys.
pub proof fn lemma_find_file_in_keys(files: Seq<crate::package::WsFileView>, p: Seq<Seq<char>>)
    requires
        find_file(files, p) is Some,
    ensures
        exists|i: int| 0 <= i < files.len() && files[i].path == p,
    decreases files.len(),
{
    if files.len() > 0 {
        if files.first().path == p {
            assert(files[0].path == p);
        } else {
            lemma_find_file_in_keys(files.drop_first(), p);
            let i = choose|i: int| 0 <= i < files.drop_first().len() && files.drop_first()[i].path
                == p;
            assert(files[i + 1].path == p);
        }
    }
}

} // verus!
