//! Statements that may stand at the top level of a file.

use vstd::prelude::*;

use crate::ast::import_statement::ImportStatement;
use crate::ast::node::Node;
use crate::ast::node::Visitor;
use crate::ast::struct_definition_statement::StructDefinitionStatement;

verus! {

/// The mathematical value of a top-level statement.
pub ghost enum GlobalStatementView {
    Import(crate::ast::import_statement::ImportStatementView),
    StructDefinition(crate::ast::struct_definition_statement::StructDefinitionStatementView),
}

/// A top-level statement of a parsed file.
#[derive(Debug)]
pub enum GlobalStatement {
    Import(ImportStatement),
    StructDefinition(StructDefinitionStatement),
}

impl View for GlobalStatement {
    type V = GlobalStatementView;

    open spec fn view(&self) -> GlobalStatementView {
        match self {
            GlobalStatement::Import(s) => GlobalStatementView::Import(s@),
            GlobalStatement::StructDefinition(s) => GlobalStatementView::StructDefinition(s@),
        }
    }
}

impl DeepView for GlobalStatement {
    type V = GlobalStatementView;

    open spec fn deep_view(&self) -> GlobalStatementView {
        self.view()
    }
}

impl GlobalStatement {
    /// The display text of this statement.
    pub open spec fn spec_display(&self) -> Seq<char> {
        match self {
            GlobalStatement::Import(s) => s.spec_display(),
            GlobalStatement::StructDefinition(s) => s.spec_display(),
        }
    }

    /// The display text of this statement.
    pub fn to_display_string(&self) -> (r: String)
        ensures
            r@ == self.spec_display(),
    {
        match self {
            GlobalStatement::Import(s) => s.to_display_string(),
            GlobalStatement::StructDefinition(s) => s.to_display_string(),
        }
    }
}

impl Node for GlobalStatement {
    fn visit<V: Visitor>(&self, visitor: &mut V) {
        match self {
            GlobalStatement::Import(s) => s.visit(visitor),
            GlobalStatement::StructDefinition(s) => s.visit(visitor),
        }
    }
}

} // verus!
