//! The root of one parsed file.

use vstd::prelude::*;
use vstd::string::StringExecFns;

use crate::ast::global_statement::GlobalStatement;
use crate::ast::node::Node;
use crate::ast::node::Visitor;
use crate::strutil::append_indented;
use crate::strutil::append_joined;
use crate::strutil::indent_tab;
use crate::strutil::join_with;
use crate::strutil::push_char;

verus! {

/// The mathematical value of a parsed file.
pub ghost struct RootNodeView {
    pub source_path: Seq<Seq<char>>,
    pub statements: Seq<crate::ast::global_statement::GlobalStatementView>,
}

/// The parsed tree of one source file.
#[derive(Debug)]
pub struct RootNode {
    pub source_path: Vec<String>,
    pub statements: Vec<GlobalStatement>,
}

impl View for RootNode {
    type V = RootNodeView;

    open spec fn view(&self) -> RootNodeView {
        RootNodeView {
            source_path: self.source_path.deep_view(),
            statements: self.statements.deep_view(),
        }
    }
}

impl DeepView for RootNode {
    type V = RootNodeView;

    open spec fn deep_view(&self) -> RootNodeView {
        self.view()
    }
}

/// The display text of a list of statements, each indented one tab.
pub open spec fn spec_statements_block(stmts: Seq<GlobalStatement>) -> Seq<char>
    decreases stmts.len(),
{
    if stmts.len() == 0 {
        Seq::empty()
    } else {
        spec_statements_block(stmts.drop_last()) + indent_tab(
            stmts.last().spec_display().push('\n'),
        )
    }
}

impl RootNode {
    /// The display text of this tree: the source path and the statements in
    /// braces, one indented per line.
    pub open spec fn spec_display(&self) -> Seq<char> {
        "Root(\""@ + join_with(self.source_path.deep_view(), '/') + "\") {"@
            + if self.statements.len() == 0 {
            "}"@
        } else {
            "\n"@ + spec_statements_block(self.statements@) + "}"@
        }
    }

    /// The display text of this tree.
    pub fn to_display_string(&self) -> (r: String)
        ensures
            r@ == self.spec_display(),
    {
        let mut r = String::new();
        r.append("Root(\"");
        append_joined(&mut r, &self.source_path, '/');
        r.append("\") {");
        if self.statements.len() == 0 {
            r.append("}");
            proof {
                assert(r@ =~= self.spec_display());
            }
            return r;
        }
        r.append("\n");
        let ghost head = r@;
        let mut i: usize = 0;
        while i < self.statements.len()
            invariant
                i <= self.statements.len(),
                r@ == head + spec_statements_block(self.statements@.take(i as int)),
            decreases self.statements.len() - i,
        {
            let mut line = self.statements[i].to_display_string();
            push_char(&mut line, '\n');
            append_indented(&mut r, line.as_str());
            proof {
                assert(self.statements@.take(i + 1).drop_last() =~= self.statements@.take(
                    i as int,
                ));
                assert(self.statements@.take(i + 1).last() == self.statements@[i as int]);
                assert(r@ =~= head + spec_statements_block(self.statements@.take(i + 1)));
            }
            i = i + 1;
        }
        r.append("}");
        proof {
            assert(self.statements@.take(self.statements@.len() as int) =~= self.statements@);
            assert(r@ =~= self.spec_display());
        }
        r
    }

    /// The resolved targets of this tree's import statements, in order.
    pub open spec fn spec_resolved_imports(&self) -> Seq<Seq<Seq<char>>> {
        spec_resolved_of(self@.statements)
    }

    /// Whether some import statement of this tree failed to resolve.
    pub open spec fn spec_has_unresolved(&self) -> bool {
        has_unresolved(self@.statements)
    }

    /// Walk the tree's import statements: collect every resolved target, and
    /// report whether any import failed to resolve.
    pub fn resolved_imports(&self) -> (r: (Vec<Vec<String>>, bool))
        ensures
            r.0.deep_view() == self.spec_resolved_imports(),
            r.1 == self.spec_has_unresolved(),
    {
        let mut out: Vec<Vec<String>> = Vec::new();
        let mut unresolved = false;
        let mut i: usize = 0;
        while i < self.statements.len()
            invariant
                i <= self.statements.len(),
                out.deep_view() == spec_resolved_of(self@.statements.take(i as int)),
                unresolved == exists|j: int|
                    0 <= j < i && stmt_unresolved(#[trigger] self@.statements[j]),
            decreases self.statements.len() - i,
        {
            proof {
                assert(self@.statements.take(i + 1).drop_last() =~= self@.statements.take(
                    i as int,
                ));
                assert(self@.statements.take(i + 1).last() == self@.statements[i as int]);
                assert(self@.statements[i as int] == self.statements@[i as int]@);
            }
            let ghost pre = out.deep_view();
            match &self.statements[i] {
                GlobalStatement::Import(s) => {
                    match &s.resolved_target {
                        Some(p) => {
                            let ghost pv = p.deep_view();
                            out.push(crate::paths::clone_path(p));
                            proof {
                                assert(out.deep_view().len() == pre.len() + 1);
                                assert(forall|j: int|
                                    0 <= j < pre.len() ==> out.deep_view()[j] == pre[j]);
                                assert(out.deep_view()[pre.len() as int] == pv);
                                assert(out.deep_view() =~= pre.push(pv));
                                assert(out.deep_view() =~= spec_resolved_of(
                                    self@.statements.take(i + 1),
                                ));
                            }
                        },
                        None => {
                            unresolved = true;
                            proof {
                                assert(stmt_unresolved(self@.statements[i as int]));
                            }
                        },
                    }
                },
                GlobalStatement::StructDefinition(_) => {},
            }
            proof {
                assert(out.deep_view() =~= spec_resolved_of(self@.statements.take(i + 1)));
            }
            i = i + 1;
        }
        proof {
            assert(self@.statements.take(self@.statements.len() as int) =~= self@.statements);
        }
        (out, unresolved)
    }
}

/// Whether `s` is an import statement whose target did not resolve.
pub open spec fn stmt_unresolved(s: crate::ast::global_statement::GlobalStatementView) -> bool {
    match s {
        crate::ast::global_statement::GlobalStatementView::Import(st) => st.resolved_target
            is None,
        crate::ast::global_statement::GlobalStatementView::StructDefinition(_) => false,
    }
}

/// Whether some statement among `stmts` is an unresolved import.
pub open spec fn has_unresolved(stmts: Seq<crate::ast::global_statement::GlobalStatementView>) -> bool {
    exists|i: int| 0 <= i < stmts.len() && stmt_unresolved(#[trigger] stmts[i])
}

/// The resolved import targets found among `stmts`, in order.
pub open spec fn spec_resolved_of(
    stmts: Seq<crate::ast::global_statement::GlobalStatementView>,
) -> Seq<Seq<Seq<char>>>
    decreases stmts.len(),
{
    if stmts.len() == 0 {
        Seq::empty()
    } else {
        spec_resolved_of(stmts.drop_last()) + match stmts.last() {
            crate::ast::global_statement::GlobalStatementView::Import(s) => match s
                .resolved_target {
                Some(p) => seq![p],
                None => Seq::<Seq<Seq<char>>>::empty(),
            },
            crate::ast::global_statement::GlobalStatementView::StructDefinition(_) => Seq::<
                Seq<Seq<char>>,
            >::empty(),
        }
    }
}

impl Node for RootNode {
    fn visit<V: Visitor>(&self, visitor: &mut V) {
        visitor.visit_root_node(self);
        let mut i: usize = 0;
        while i < self.statements.len()
            decreases self.statements.len() - i,
        {
            self.statements[i].visit(visitor);
            i = i + 1;
        }
    }
}

} // verus!
