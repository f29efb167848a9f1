//! Traversal of parsed trees.

use vstd::prelude::*;

use crate::ast::import_statement::ImportStatement;
use crate::ast::root_node::RootNode;
use crate::ast::struct_definition_statement::StructDefinitionStatement;

verus! {

/// A visitor over tree nodes; each hook is a no-op unless overridden.
pub trait Visitor: Sized {
    fn visit_root_node(&mut self, node: &RootNode);

    fn visit_import_statement(&mut self, node: &ImportStatement);

    fn visit_struct_definition_statement(&mut self, node: &StructDefinitionStatement);
}

/// A tree node that can hand itself (and its children) to a visitor.
pub trait Node {
    fn visit<V: Visitor>(&self, visitor: &mut V);
}

} // verus!
