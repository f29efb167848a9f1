//! Import statements: the edges of the build graph.

use vstd::prelude::*;
use vstd::string::StringExecFns;

use crate::ast::node::Node;
use crate::ast::node::Visitor;
use crate::strutil::append_indented;
use crate::strutil::append_joined;
use crate::strutil::indent_tab;
use crate::strutil::join_with;
use crate::strutil::push_char;

verus! {

/// The mathematical value of an import item.
pub ghost struct ImportItemView {
    pub components: Seq<Seq<char>>,
    pub alias: Option<Seq<char>>,
}

/// The mathematical value of an import statement.
pub ghost struct ImportStatementView {
    pub target: Seq<char>,
    pub resolved_target: Option<Seq<Seq<char>>>,
    pub items: Seq<ImportItemView>,
}

/// One imported item: an accessor of dotted components, optionally aliased.
#[derive(Debug)]
pub struct ImportItem {
    pub components: Vec<String>,
    pub alias: Option<String>,
}

impl View for ImportItem {
    type V = ImportItemView;

    open spec fn view(&self) -> ImportItemView {
        ImportItemView {
            components: self.components.deep_view(),
            alias: match self.alias {
                Some(a) => Some(a@),
                None => None,
            },
        }
    }
}

impl DeepView for ImportItem {
    type V = ImportItemView;

    open spec fn deep_view(&self) -> ImportItemView {
        self.view()
    }
}

impl ImportItem {
    /// The display text of this item: components joined with dots, then the
    /// alias if any.
    pub open spec fn spec_display(&self) -> Seq<char> {
        join_with(self.components.deep_view(), '.') + match self.alias {
            Some(a) => " as "@ + a@,
            None => Seq::<char>::empty(),
        }
    }

    /// The display text of this item.
    pub fn to_display_string(&self) -> (r: String)
        ensures
            r@ == self.spec_display(),
    {
        let mut r = String::new();
        append_joined(&mut r, &self.components, '.');
        match &self.alias {
            Some(a) => {
                r.append(" as ");
                r.append(a.as_str());
            },
            None => {},
        }
        proof {
            assert(r@ =~= self.spec_display());
        }
        r
    }
}

/// An import statement: the raw target text, the file it resolved to (if the
/// resolver found one), and the imported items.
#[derive(Debug)]
pub struct ImportStatement {
    pub target: String,
    pub resolved_target: Option<Vec<String>>,
    pub items: Vec<ImportItem>,
}

impl View for ImportStatement {
    type V = ImportStatementView;

    open spec fn view(&self) -> ImportStatementView {
        ImportStatementView {
            target: self.target@,
            resolved_target: match self.resolved_target {
                Some(p) => Some(p.deep_view()),
                None => None,
            },
            items: self.items.deep_view(),
        }
    }
}

impl DeepView for ImportStatement {
    type V = ImportStatementView;

    open spec fn deep_view(&self) -> ImportStatementView {
        self.view()
    }
}

/// The display text of a list of import items, one indented line each.
pub open spec fn spec_items_block(items: Seq<ImportItem>) -> Seq<char>
    decreases items.len(),
{
    if items.len() == 0 {
        Seq::empty()
    } else {
        spec_items_block(items.drop_last()) + indent_tab(items.last().spec_display().push('\n'))
    }
}

impl ImportStatement {
    /// The display text of this statement: the target, the resolution (`?`
    /// when unresolved), and the items in braces.
    pub open spec fn spec_display(&self) -> Seq<char> {
        "Import(\""@ + self.target@ + "\" => "@ + match self.resolved_target {
            Some(p) => "\""@ + join_with(p.deep_view(), '/') + "\""@,
            None => "?"@,
        } + ") {"@ + if self.items.len() == 0 {
            "}"@
        } else {
            "\n"@ + spec_items_block(self.items@) + "}"@
        }
    }

    /// The display text of this statement.
    pub fn to_display_string(&self) -> (r: String)
        ensures
            r@ == self.spec_display(),
    {
        let mut r = String::new();
        r.append("Import(\"");
        r.append(self.target.as_str());
        r.append("\" => ");
        match &self.resolved_target {
            Some(p) => {
                r.append("\"");
                append_joined(&mut r, p, '/');
                r.append("\"");
            },
            None => {
                r.append("?");
            },
        }
        r.append(") {");
        if self.items.len() == 0 {
            r.append("}");
            proof {
                assert(r@ =~= self.spec_display());
            }
            return r;
        }
        r.append("\n");
        let ghost head = r@;
        let mut i: usize = 0;
        while i < self.items.len()
            invariant
                i <= self.items.len(),
                r@ == head + spec_items_block(self.items@.take(i as int)),
            decreases self.items.len() - i,
        {
            let mut line = self.items[i].to_display_string();
            push_char(&mut line, '\n');
            append_indented(&mut r, line.as_str());
            proof {
                assert(self.items@.take(i + 1).drop_last() =~= self.items@.take(i as int));
                assert(self.items@.take(i + 1).last() == self.items@[i as int]);
                assert(r@ =~= head + spec_items_block(self.items@.take(i + 1)));
            }
            i = i + 1;
        }
        r.append("}");
        proof {
            assert(self.items@.take(self.items@.len() as int) =~= self.items@);
            assert(r@ =~= self.spec_display());
        }
        r
    }
}

impl Node for ImportStatement {
    fn visit<V: Visitor>(&self, visitor: &mut V) {
        visitor.visit_import_statement(self);
    }
}

} // verus!
