//! Structure definition statements (tree shape only; no body semantics yet).

use vstd::prelude::*;
use vstd::string::StringExecFns;

use crate::ast::node::Node;
use crate::ast::node::Visitor;

verus! {

/// The mathematical value of a structure member.
pub ghost struct StructMemberView {
    pub name: Seq<char>,
    pub ty: Seq<char>,
}

/// The mathematical value of a structure definition statement.
pub ghost struct StructDefinitionStatementView {
    pub name: Seq<char>,
    pub generic_parameters: Seq<Seq<char>>,
    pub members: Seq<StructMemberView>,
}

/// One member of a structure definition: a name and the name of its type.
#[derive(Debug)]
pub struct StructMember {
    pub name: String,
    pub ty: String,
}

impl View for StructMember {
    type V = StructMemberView;

    open spec fn view(&self) -> StructMemberView {
        StructMemberView { name: self.name@, ty: self.ty@ }
    }
}

impl DeepView for StructMember {
    type V = StructMemberView;

    open spec fn deep_view(&self) -> StructMemberView {
        self.view()
    }
}

/// A structure definition statement.
#[derive(Debug)]
pub struct StructDefinitionStatement {
    pub name: String,
    pub generic_parameters: Vec<String>,
    pub members: Vec<StructMember>,
}

impl View for StructDefinitionStatement {
    type V = StructDefinitionStatementView;

    open spec fn view(&self) -> StructDefinitionStatementView {
        StructDefinitionStatementView {
            name: self.name@,
            generic_parameters: self.generic_parameters.deep_view(),
            members: self.members.deep_view(),
        }
    }
}

impl DeepView for StructDefinitionStatement {
    type V = StructDefinitionStatementView;

    open spec fn deep_view(&self) -> StructDefinitionStatementView {
        self.view()
    }
}

impl StructDefinitionStatement {
    /// The display text of this statement.
    pub open spec fn spec_display(&self) -> Seq<char> {
        "Struct("@ + self.name@ + ")"@
    }

    /// The display text of this statement.
    pub fn to_display_string(&self) -> (r: String)
        ensures
            r@ == self.spec_display(),
    {
        let mut r = String::new();
        r.append("Struct(");
        r.append(self.name.as_str());
        r.append(")");
        proof {
            assert(r@ =~= self.spec_display());
        }
        r
    }
}

impl Node for StructDefinitionStatement {
    fn visit<V: Visitor>(&self, visitor: &mut V) {
        visitor.visit_struct_definition_statement(self);
    }
}

} // verus!
