//! AST node shapes and their textual representations.
//!
//! Every node kind can render itself as an indented "fancy" string; the spec
//! functions here pin that text down exactly.

pub mod global_statement;
pub mod import_statement;
pub mod node;
pub mod root_node;
pub mod struct_definition_statement;

use vstd::prelude::*;
use vstd::string::StringExecFns;

use crate::strutil::dec_str;
use crate::strutil::u64_to_string;

verus! {

/// Defines common methods and operations on Alta AST nodes.
pub trait Common: Sized {
    /// What the default value that `new_box` constructs looks like.
    spec fn is_default(v: Self) -> bool;

    /// Default-constructs a new Box for this type.
    fn new_box() -> (r: Box<Self>)
        ensures
            Self::is_default(*r),
    ;
}

/// A node with a fancy, indented string representation.
pub trait Printable {
    /// The fancy text of this node at the given indentation.
    spec fn spec_fancy(&self, indent: Seq<char>) -> Seq<char>;

    /// Creates a fancy string representation of this type.
    fn to_fancy_string(&self, indent: &str) -> (r: String)
        ensures
            r@ == self.spec_fancy(indent@),
    ;
}

/// The modifiers a type expression may carry.
pub struct TypeModifier {
    pub mutable: bool,
    pub reference: bool,
}

impl TypeModifier {
    /// Whether no modifier is set.
    pub fn is_empty(&self) -> (r: bool)
        ensures
            r == (!self.mutable && !self.reference),
    {
        !self.mutable && !self.reference
    }

    /// Whether every modifier of `other` is also set on `self`.
    pub fn contains(&self, other: &TypeModifier) -> (r: bool)
        ensures
            r == ((other.mutable ==> self.mutable) && (other.reference ==> self.reference)),
    {
        (!other.mutable || self.mutable) && (!other.reference || self.reference)
    }
}

impl Default for TypeModifier {
    /// No modifiers.
    fn default() -> (r: Self)
        ensures
            !r.mutable && !r.reference,
    {
        TypeModifier { mutable: false, reference: false }
    }
}

/// A type expression: a name and its modifiers.
pub struct Type {
    pub name: String,
    pub modifiers: TypeModifier,
}

/// One parameter of a function definition.
pub struct FunctionParameter {
    pub name: String,
    pub parameter_type: Box<Type>,
}

/// An attribute attached to a definition.
pub struct Attribute {
    pub name: String,
}

/// A function definition.
pub struct FunctionDefinition {
    pub attributes: Vec<Box<Attribute>>,
    pub name: String,
    pub parameters: Vec<Box<FunctionParameter>>,
    pub return_type: Box<Type>,
    pub body: Statement,
}

/// A return statement.
pub struct ReturnStatement {
    pub expression: Expression,
}

/// An expression in statement position.
pub struct ExpressionStatement {
    pub expression: Expression,
}

/// An integer literal.
pub struct IntegerLiteral {
    pub integer: u64,
}

/// A string literal.
pub struct StringLiteral {
    pub string: String,
}

/// A function call: a target expression and named arguments.
pub struct FunctionCall {
    pub target: Expression,
    pub arguments: Vec<(String, Expression)>,
}

/// A structure definition (shape only).
pub struct StructureDefinition {}

/// A braced list of statements.
pub struct Block {
    pub statements: Vec<Statement>,
}

/// The root of a module: its top-level statements.
pub struct Root {
    pub statements: Vec<RootStatement>,
}

/// A bare name fetch.
pub struct Fetch {
    pub target: String,
}

/// A statement at the top level of a module.
pub enum RootStatement {
    FunctionDefinition(Box<FunctionDefinition>),
    StructureDefinition(Box<StructureDefinition>),
}

/// A statement inside a function body.
pub enum Statement {
    ReturnStatement(Box<ReturnStatement>),
    ExpressionStatement(Box<ExpressionStatement>),
    Block(Box<Block>),
}

/// An expression.
pub enum Expression {
    IntegerLiteral(Box<IntegerLiteral>),
    StringLiteral(Box<StringLiteral>),
    FunctionCall(Box<FunctionCall>),
    Fetch(Box<Fetch>),
}

/// Any node of the tree.
pub enum Node {
    RootStatement(RootStatement),
    Statement(Statement),
    Expression(Expression),
    Root(Box<Root>),
    Attribute(Box<Attribute>),
    Type(Box<Type>),
    FunctionParameter(Box<FunctionParameter>),
}

/// The fancy text of an attribute.
pub open spec fn fancy_attribute(a: Attribute, ind: Seq<char>) -> Seq<char> {
    "Attribute { "@ + a.name@ + " }"@
}

/// The fancy text of an integer literal.
pub open spec fn fancy_integer_literal(l: IntegerLiteral, ind: Seq<char>) -> Seq<char> {
    "IntegerLiteral { "@ + dec_str(l.integer as nat) + " }"@
}

/// The fancy text of a string literal.
pub open spec fn fancy_string_literal(l: StringLiteral, ind: Seq<char>) -> Seq<char> {
    "StringLiteral { "@ + l.string@ + " }"@
}

/// The fancy text of a fetch.
pub open spec fn fancy_fetch(f: Fetch, ind: Seq<char>) -> Seq<char> {
    "Fetch { "@ + f.target@ + " }"@
}

/// The fancy text of a structure definition.
pub open spec fn fancy_structure_definition(s: StructureDefinition, ind: Seq<char>) -> Seq<char> {
    "StructureDefinition {}"@
}

/// The fancy text of a type expression.
pub open spec fn fancy_type(t: Type, ind: Seq<char>) -> Seq<char> {
    let ni = ind + "\t"@;
    "Type {\n"@ + ni + "name = \""@ + t.name@ + "\"\n"@ + ni + "modifiers = {"@ + (if !t.modifiers.mutable
        && !t.modifiers.reference {
        "}\n"@
    } else {
        "\n"@ + (if t.modifiers.mutable {
            ni + "\t"@ + "Mutable\n"@
        } else {
            Seq::<char>::empty()
        }) + (if t.modifiers.reference {
            ni + "\t"@ + "Reference\n"@
        } else {
            Seq::<char>::empty()
        }) + ni + "}\n"@
    }) + ind + "}"@
}

/// The fancy text of a function parameter.
pub open spec fn fancy_parameter(p: FunctionParameter, ind: Seq<char>) -> Seq<char> {
    let ni = ind + "\t"@;
    "FunctionParameter {\n"@ + ni + "name = \""@ + p.name@ + "\"\n"@ + ni + "type = "@ + fancy_type(
        *p.parameter_type,
        ni,
    ) + "\n"@ + ind + "}"@
}

/// The fancy text of a statement.
pub open spec fn fancy_statement(s: Statement, ind: Seq<char>) -> Seq<char>
    decreases s,
{
    match s {
        Statement::ReturnStatement(b) => fancy_return_statement(*b, ind),
        Statement::ExpressionStatement(b) => fancy_expression_statement(*b, ind),
        Statement::Block(b) => fancy_block(*b, ind),
    }
}

/// The fancy text of a return statement.
pub open spec fn fancy_return_statement(rs: ReturnStatement, ind: Seq<char>) -> Seq<char>
    decreases rs,
{
    let ni = ind + "\t"@;
    "ReturnStatement {\n"@ + ni + fancy_expression(rs.expression, ni) + "\n"@ + ind + "}"@
}

/// The fancy text of an expression statement.
pub open spec fn fancy_expression_statement(es: ExpressionStatement, ind: Seq<char>) -> Seq<char>
    decreases es,
{
    let ni = ind + "\t"@;
    "ExpressionStatement {\n"@ + ni + fancy_expression(es.expression, ni) + "\n"@ + ind + "}"@
}

/// The fancy text of a block.
pub open spec fn fancy_block(b: Block, ind: Seq<char>) -> Seq<char>
    decreases b,
{
    "Block {"@ + if b.statements@.len() == 0 {
        "}"@
    } else {
        "\n"@ + fancy_statement_list(b.statements@, 0, ind + "\t"@) + ind + "}"@
    }
}

/// The fancy text of the statements of `ss` from position `i` on, one line
/// each at indentation `ni`.
pub open spec fn fancy_statement_list(ss: Seq<Statement>, i: int, ni: Seq<char>) -> Seq<char>
    decreases ss, ss.len() - i,
{
    if i < 0 || i >= ss.len() {
        Seq::empty()
    } else {
        ni + fancy_statement(ss[i], ni) + "\n"@ + fancy_statement_list(ss, i + 1, ni)
    }
}

/// The fancy text of an expression.
pub open spec fn fancy_expression(e: Expression, ind: Seq<char>) -> Seq<char>
    decreases e,
{
    match e {
        Expression::IntegerLiteral(b) => fancy_integer_literal(*b, ind),
        Expression::StringLiteral(b) => fancy_string_literal(*b, ind),
        Expression::FunctionCall(b) => fancy_function_call(*b, ind),
        Expression::Fetch(b) => fancy_fetch(*b, ind),
    }
}

/// The fancy text of a function call.
pub open spec fn fancy_function_call(c: FunctionCall, ind: Seq<char>) -> Seq<char>
    decreases c,
{
    let ni = ind + "\t"@;
    "FunctionCall {\n"@ + ni + "target = "@ + fancy_expression(c.target, ni) + "\n"@ + ni
        + "parameters = {"@ + (if c.arguments@.len() == 0 {
        "}\n"@
    } else {
        "\n"@ + fancy_argument_list(c.arguments@, 0, ni) + ni + "}\n"@
    }) + ind + "}"@
}

/// The fancy text of the named arguments of `args` from position `i` on.
pub open spec fn fancy_argument_list(
    args: Seq<(String, Expression)>,
    i: int,
    ni: Seq<char>,
) -> Seq<char>
    decreases args, args.len() - i,
{
    if i < 0 || i >= args.len() {
        Seq::empty()
    } else {
        let fi = ni + "\t"@;
        let ei = ni + "\t\t"@;
        fi + "{\n"@ + ei + "name = \""@ + args[i].0@ + "\"\n"@ + ei + "value = "@
            + fancy_expression(args[i].1, ei) + "\n"@ + fi + "}\n"@ + fancy_argument_list(
            args,
            i + 1,
            ni,
        )
    }
}

/// The fancy text of a root statement.
pub open spec fn fancy_root_statement(rs: RootStatement, ind: Seq<char>) -> Seq<char>
    decreases rs,
{
    match rs {
        RootStatement::FunctionDefinition(b) => fancy_function_definition(*b, ind),
        RootStatement::StructureDefinition(b) => fancy_structure_definition(*b, ind),
    }
}

/// The fancy text of a function definition.
pub open spec fn fancy_function_definition(f: FunctionDefinition, ind: Seq<char>) -> Seq<char>
    decreases f,
{
    let ni = ind + "\t"@;
    "FunctionDefinition {\n"@ + ni + "name = \""@ + f.name@ + "\"\n"@ + ni + "attributes = {"@ + (
    if f.attributes@.len() == 0 {
        "}\n"@
    } else {
        "\n"@ + fancy_attribute_list(f.attributes@, 0, ni + "\t"@) + ni + "}\n"@
    }) + ni + "parameters = {"@ + (if f.parameters@.len() == 0 {
        "}\n"@
    } else {
        "\n"@ + fancy_parameter_list(f.parameters@, 0, ni + "\t"@) + ni + "}\n"@
    }) + ni + "return_type = "@ + fancy_type(*f.return_type, ni) + "\n"@ + ni + "body = "@
        + fancy_statement(f.body, ni) + "\n"@ + ind + "}"@
}

/// The fancy text of the attributes of `attrs` from position `i` on.
pub open spec fn fancy_attribute_list(attrs: Seq<Box<Attribute>>, i: int, ei: Seq<char>) -> Seq<
    char,
>
    decreases attrs.len() - i,
{
    if i < 0 || i >= attrs.len() {
        Seq::empty()
    } else {
        ei + fancy_attribute(*attrs[i], ei) + "\n"@ + fancy_attribute_list(attrs, i + 1, ei)
    }
}

/// The fancy text of the parameters of `ps` from position `i` on.
pub open spec fn fancy_parameter_list(ps: Seq<Box<FunctionParameter>>, i: int, ei: Seq<char>) -> Seq<
    char,
>
    decreases ps.len() - i,
{
    if i < 0 || i >= ps.len() {
        Seq::empty()
    } else {
        ei + fancy_parameter(*ps[i], ei) + "\n"@ + fancy_parameter_list(ps, i + 1, ei)
    }
}

/// The fancy text of a module root.
pub open spec fn fancy_root(r: Root, ind: Seq<char>) -> Seq<char>
    decreases r,
{
    "Root {"@ + if r.statements@.len() == 0 {
        "}"@
    } else {
        "\n"@ + fancy_root_statement_list(r.statements@, 0, ind + "\t"@) + ind + "}"@
    }
}

/// The fancy text of the root statements of `ss` from position `i` on.
pub open spec fn fancy_root_statement_list(ss: Seq<RootStatement>, i: int, ni: Seq<char>) -> Seq<
    char,
>
    decreases ss, ss.len() - i,
{
    if i < 0 || i >= ss.len() {
        Seq::empty()
    } else {
        ni + fancy_root_statement(ss[i], ni) + "\n"@ + fancy_root_statement_list(ss, i + 1, ni)
    }
}

/// The fancy text of any node.
pub open spec fn fancy_node(n: Node, ind: Seq<char>) -> Seq<char> {
    match n {
        Node::RootStatement(x) => fancy_root_statement(x, ind),
        Node::Statement(x) => fancy_statement(x, ind),
        Node::Expression(x) => fancy_expression(x, ind),
        Node::Root(x) => fancy_root(*x, ind),
        Node::Attribute(x) => fancy_attribute(*x, ind),
        Node::Type(x) => fancy_type(*x, ind),
        Node::FunctionParameter(x) => fancy_parameter(*x, ind),
    }
}

fn indent_plus_tab(indent: &str) -> (r: String)
    ensures
        r@ == indent@ + "\t"@,
{
    let mut r: String = indent.to_owned();
    r.append("\t");
    r
}

fn exec_fancy_type(t: &Type, indent: &str) -> (r: String)
    ensures
        r@ == fancy_type(*t, indent@),
{
    let ni = indent_plus_tab(indent);
    let mut r: String = "Type {\n".to_owned();
    r.append(ni.as_str());
    r.append("name = \"");
    r.append(t.name.as_str());
    r.append("\"\n");
    r.append(ni.as_str());
    r.append("modifiers = {");
    if t.modifiers.is_empty() {
        r.append("}\n");
    } else {
        r.append("\n");
        let extra = indent_plus_tab(ni.as_str());
        if t.modifiers.mutable {
            r.append(extra.as_str());
            r.append("Mutable\n");
        }
        if t.modifiers.reference {
            r.append(extra.as_str());
            r.append("Reference\n");
        }
        r.append(ni.as_str());
        r.append("}\n");
    }
    r.append(indent);
    r.append("}");
    proof {
        assert(r@ =~= fancy_type(*t, indent@));
    }
    r
}

fn exec_fancy_parameter(p: &FunctionParameter, indent: &str) -> (r: String)
    ensures
        r@ == fancy_parameter(*p, indent@),
{
    let ni = indent_plus_tab(indent);
    let mut r: String = "FunctionParameter {\n".to_owned();
    r.append(ni.as_str());
    r.append("name = \"");
    r.append(p.name.as_str());
    r.append("\"\n");
    r.append(ni.as_str());
    r.append("type = ");
    let ty = exec_fancy_type(&p.parameter_type, ni.as_str());
    r.append(ty.as_str());
    r.append("\n");
    r.append(indent);
    r.append("}");
    proof {
        assert(r@ =~= fancy_parameter(*p, indent@));
    }
    r
}

fn exec_fancy_statement(s: &Statement, indent: &str) -> (r: String)
    ensures
        r@ == fancy_statement(*s, indent@),
    decreases *s,
{
    match s {
        Statement::ReturnStatement(b) => exec_fancy_return_statement(b, indent),
        Statement::ExpressionStatement(b) => exec_fancy_expression_statement(b, indent),
        Statement::Block(b) => exec_fancy_block(b, indent),
    }
}

fn exec_fancy_return_statement(rs: &ReturnStatement, indent: &str) -> (r: String)
    ensures
        r@ == fancy_return_statement(*rs, indent@),
    decreases *rs,
{
    let ni = indent_plus_tab(indent);
    let mut r: String = "ReturnStatement {\n".to_owned();
    r.append(ni.as_str());
    let e = exec_fancy_expression(&rs.expression, ni.as_str());
    r.append(e.as_str());
    r.append("\n");
    r.append(indent);
    r.append("}");
    proof {
        assert(r@ =~= fancy_return_statement(*rs, indent@));
    }
    r
}

fn exec_fancy_expression_statement(es: &ExpressionStatement, indent: &str) -> (r: String)
    ensures
        r@ == fancy_expression_statement(*es, indent@),
    decreases *es,
{
    let ni = indent_plus_tab(indent);
    let mut r: String = "ExpressionStatement {\n".to_owned();
    r.append(ni.as_str());
    let e = exec_fancy_expression(&es.expression, ni.as_str());
    r.append(e.as_str());
    r.append("\n");
    r.append(indent);
    r.append("}");
    proof {
        assert(r@ =~= fancy_expression_statement(*es, indent@));
    }
    r
}

fn exec_fancy_block(b: &Block, indent: &str) -> (r: String)
    ensures
        r@ == fancy_block(*b, indent@),
    decreases *b,
{
    let mut r: String = "Block {".to_owned();
    if b.statements.len() == 0 {
        r.append("}");
        proof {
            assert(r@ =~= fancy_block(*b, indent@));
        }
        return r;
    }
    r.append("\n");
    let ni = indent_plus_tab(indent);
    let mut i: usize = 0;
    let ghost head = r@;
    while i < b.statements.len()
        invariant
            i <= b.statements@.len(),
            ni@ == indent@ + "\t"@,
            head + fancy_statement_list(b.statements@, 0, ni@) == r@ + fancy_statement_list(
                b.statements@,
                i as int,
                ni@,
            ),
        decreases b.statements@.len() - i,
    {
        r.append(ni.as_str());
        let line = exec_fancy_statement(&b.statements[i], ni.as_str());
        r.append(line.as_str());
        r.append("\n");
        i = i + 1;
    }
    r.append(indent);
    r.append("}");
    proof {
        assert(r@ =~= fancy_block(*b, indent@));
    }
    r
}

fn exec_fancy_expression(e: &Expression, indent: &str) -> (r: String)
    ensures
        r@ == fancy_expression(*e, indent@),
    decreases *e,
{
    match e {
        Expression::IntegerLiteral(b) => {
            let mut r: String = "IntegerLiteral { ".to_owned();
            let digits = u64_to_string(b.integer);
            r.append(digits.as_str());
            r.append(" }");
            proof {
                assert(r@ =~= fancy_expression(*e, indent@));
            }
            r
        },
        Expression::StringLiteral(b) => {
            let mut r: String = "StringLiteral { ".to_owned();
            r.append(b.string.as_str());
            r.append(" }");
            proof {
                assert(r@ =~= fancy_expression(*e, indent@));
            }
            r
        },
        Expression::Fetch(b) => {
            let mut r: String = "Fetch { ".to_owned();
            r.append(b.target.as_str());
            r.append(" }");
            proof {
                assert(r@ =~= fancy_expression(*e, indent@));
            }
            r
        },
        Expression::FunctionCall(b) => exec_fancy_function_call(b, indent),
    }
}

fn exec_fancy_function_call(c: &FunctionCall, indent: &str) -> (r: String)
    ensures
        r@ == fancy_function_call(*c, indent@),
    decreases *c,
{
    let ni = indent_plus_tab(indent);
    let mut r: String = "FunctionCall {\n".to_owned();
    r.append(ni.as_str());
    r.append("target = ");
    let t = exec_fancy_expression(&c.target, ni.as_str());
    r.append(t.as_str());
    r.append("\n");
    r.append(ni.as_str());
    r.append("parameters = {");
    if c.arguments.len() == 0 {
        r.append("}\n");
    } else {
        r.append("\n");
        let fi = indent_plus_tab(ni.as_str());
        let ei = indent_plus_tab(fi.as_str());
        proof {
            reveal_strlit("\t");
            reveal_strlit("\t\t");
            assert(ei@ =~= ni@ + "\t\t"@);
        }
        let mut i: usize = 0;
        let ghost head = r@;
        while i < c.arguments.len()
            invariant
                i <= c.arguments@.len(),
                ni@ == indent@ + "\t"@,
                fi@ == ni@ + "\t"@,
                ei@ == ni@ + "\t\t"@,
                head + fancy_argument_list(c.arguments@, 0, ni@) == r@ + fancy_argument_list(
                    c.arguments@,
                    i as int,
                    ni@,
                ),
            decreases c.arguments@.len() - i,
        {
            r.append(fi.as_str());
            r.append("{\n");
            r.append(ei.as_str());
            r.append("name = \"");
            r.append(c.arguments[i].0.as_str());
            r.append("\"\n");
            r.append(ei.as_str());
            r.append("value = ");
            let v = exec_fancy_expression(&c.arguments[i].1, ei.as_str());
            r.append(v.as_str());
            r.append("\n");
            r.append(fi.as_str());
            r.append("}\n");
            i = i + 1;
        }
        r.append(ni.as_str());
        r.append("}\n");
    }
    r.append(indent);
    r.append("}");
    proof {
        assert(r@ =~= fancy_function_call(*c, indent@));
    }
    r
}

fn exec_fancy_root_statement(rs: &RootStatement, indent: &str) -> (r: String)
    ensures
        r@ == fancy_root_statement(*rs, indent@),
    decreases *rs,
{
    match rs {
        RootStatement::FunctionDefinition(b) => exec_fancy_function_definition(b, indent),
        RootStatement::StructureDefinition(_) => {
            let r: String = "StructureDefinition {}".to_owned();
            r
        },
    }
}

#[verifier::rlimit(100)]
fn exec_fancy_function_definition(f: &FunctionDefinition, indent: &str) -> (r: String)
    ensures
        r@ == fancy_function_definition(*f, indent@),
    decreases *f,
{
    let ni = indent_plus_tab(indent);
    let extra = indent_plus_tab(ni.as_str());
    let mut r: String = "FunctionDefinition {\n".to_owned();
    r.append(ni.as_str());
    r.append("name = \"");
    r.append(f.name.as_str());
    r.append("\"\n");
    r.append(ni.as_str());
    r.append("attributes = {");
    if f.attributes.len() == 0 {
        r.append("}\n");
    } else {
        r.append("\n");
        let mut i: usize = 0;
        let ghost head = r@;
        while i < f.attributes.len()
            invariant
                i <= f.attributes@.len(),
                extra@ == ni@ + "\t"@,
                head + fancy_attribute_list(f.attributes@, 0, extra@) == r@ + fancy_attribute_list(
                    f.attributes@,
                    i as int,
                    extra@,
                ),
            decreases f.attributes@.len() - i,
        {
            r.append(extra.as_str());
            r.append("Attribute { ");
            r.append(f.attributes[i].name.as_str());
            r.append(" }");
            r.append("\n");
            i = i + 1;
        }
        r.append(ni.as_str());
        r.append("}\n");
    }
    r.append(ni.as_str());
    r.append("parameters = {");
    if f.parameters.len() == 0 {
        r.append("}\n");
    } else {
        r.append("\n");
        let mut i: usize = 0;
        let ghost head = r@;
        while i < f.parameters.len()
            invariant
                i <= f.parameters@.len(),
                extra@ == ni@ + "\t"@,
                head + fancy_parameter_list(f.parameters@, 0, extra@) == r@ + fancy_parameter_list(
                    f.parameters@,
                    i as int,
                    extra@,
                ),
            decreases f.parameters@.len() - i,
        {
            r.append(extra.as_str());
            let line = exec_fancy_parameter(&f.parameters[i], extra.as_str());
            r.append(line.as_str());
            r.append("\n");
            i = i + 1;
        }
        r.append(ni.as_str());
        r.append("}\n");
    }
    r.append(ni.as_str());
    r.append("return_type = ");
    let rt = exec_fancy_type(&f.return_type, ni.as_str());
    r.append(rt.as_str());
    r.append("\n");
    r.append(ni.as_str());
    r.append("body = ");
    let body = exec_fancy_statement(&f.body, ni.as_str());
    r.append(body.as_str());
    r.append("\n");
    r.append(indent);
    r.append("}");
    proof {
        assert(r@ =~= fancy_function_definition(*f, indent@));
    }
    r
}

fn exec_fancy_root(root: &Root, indent: &str) -> (r: String)
    ensures
        r@ == fancy_root(*root, indent@),
    decreases *root,
{
    let mut r: String = "Root {".to_owned();
    if root.statements.len() == 0 {
        r.append("}");
        proof {
            assert(r@ =~= fancy_root(*root, indent@));
        }
        return r;
    }
    r.append("\n");
    let ni = indent_plus_tab(indent);
    let mut i: usize = 0;
    let ghost head = r@;
    while i < root.statements.len()
        invariant
            i <= root.statements@.len(),
            ni@ == indent@ + "\t"@,
            head + fancy_root_statement_list(root.statements@, 0, ni@) == r@
                + fancy_root_statement_list(root.statements@, i as int, ni@),
        decreases root.statements@.len() - i,
    {
        r.append(ni.as_str());
        let line = exec_fancy_root_statement(&root.statements[i], ni.as_str());
        r.append(line.as_str());
        r.append("\n");
        i = i + 1;
    }
    r.append(indent);
    r.append("}");
    proof {
        assert(r@ =~= fancy_root(*root, indent@));
    }
    r
}

impl Printable for Statement {
    open spec fn spec_fancy(&self, indent: Seq<char>) -> Seq<char> {
        fancy_statement(*self, indent)
    }

    fn to_fancy_string(&self, indent: &str) -> (r: String) {
        exec_fancy_statement(self, indent)
    }
}

impl Printable for Expression {
    open spec fn spec_fancy(&self, indent: Seq<char>) -> Seq<char> {
        fancy_expression(*self, indent)
    }

    fn to_fancy_string(&self, indent: &str) -> (r: String) {
        exec_fancy_expression(self, indent)
    }
}

impl Printable for RootStatement {
    open spec fn spec_fancy(&self, indent: Seq<char>) -> Seq<char> {
        fancy_root_statement(*self, indent)
    }

    fn to_fancy_string(&self, indent: &str) -> (r: String) {
        exec_fancy_root_statement(self, indent)
    }
}

impl Printable for Node {
    open spec fn spec_fancy(&self, indent: Seq<char>) -> Seq<char> {
        fancy_node(*self, indent)
    }

    fn to_fancy_string(&self, indent: &str) -> (r: String) {
        match self {
            Node::RootStatement(x) => exec_fancy_root_statement(x, indent),
            Node::Statement(x) => exec_fancy_statement(x, indent),
            Node::Expression(x) => exec_fancy_expression(x, indent),
            Node::Root(x) => exec_fancy_root(x, indent),
            Node::Attribute(x) => x.to_fancy_string(indent),
            Node::Type(x) => exec_fancy_type(x, indent),
            Node::FunctionParameter(x) => exec_fancy_parameter(x, indent),
        }
    }
}

impl Printable for Root {
    open spec fn spec_fancy(&self, indent: Seq<char>) -> Seq<char> {
        fancy_root(*self, indent)
    }

    fn to_fancy_string(&self, indent: &str) -> (r: String) {
        exec_fancy_root(self, indent)
    }
}

impl Printable for Type {
    open spec fn spec_fancy(&self, indent: Seq<char>) -> Seq<char> {
        fancy_type(*self, indent)
    }

    fn to_fancy_string(&self, indent: &str) -> (r: String) {
        exec_fancy_type(self, indent)
    }
}

impl Printable for Block {
    open spec fn spec_fancy(&self, indent: Seq<char>) -> Seq<char> {
        fancy_block(*self, indent)
    }

    fn to_fancy_string(&self, indent: &str) -> (r: String) {
        exec_fancy_block(self, indent)
    }
}

impl Printable for FunctionParameter {
    open spec fn spec_fancy(&self, indent: Seq<char>) -> Seq<char> {
        fancy_parameter(*self, indent)
    }

    fn to_fancy_string(&self, indent: &str) -> (r: String) {
        exec_fancy_parameter(self, indent)
    }
}

impl Printable for Attribute {
    open spec fn spec_fancy(&self, indent: Seq<char>) -> Seq<char> {
        fancy_attribute(*self, indent)
    }

    fn to_fancy_string(&self, indent: &str) -> (r: String) {
        let mut r: String = "Attribute { ".to_owned();
        r.append(self.name.as_str());
        r.append(" }");
        proof {
            assert(r@ =~= fancy_attribute(*self, indent@));
        }
        r
    }
}

impl Printable for FunctionDefinition {
    open spec fn spec_fancy(&self, indent: Seq<char>) -> Seq<char> {
        fancy_function_definition(*self, indent)
    }

    fn to_fancy_string(&self, indent: &str) -> (r: String) {
        exec_fancy_function_definition(self, indent)
    }
}

impl Printable for IntegerLiteral {
    open spec fn spec_fancy(&self, indent: Seq<char>) -> Seq<char> {
        fancy_integer_literal(*self, indent)
    }

    fn to_fancy_string(&self, indent: &str) -> (r: String) {
        let mut r: String = "IntegerLiteral { ".to_owned();
        let digits = u64_to_string(self.integer);
        r.append(digits.as_str());
        r.append(" }");
        proof {
            assert(r@ =~= fancy_integer_literal(*self, indent@));
        }
        r
    }
}

impl Printable for FunctionCall {
    open spec fn spec_fancy(&self, indent: Seq<char>) -> Seq<char> {
        fancy_function_call(*self, indent)
    }

    fn to_fancy_string(&self, indent: &str) -> (r: String) {
        exec_fancy_function_call(self, indent)
    }
}

impl Printable for StringLiteral {
    open spec fn spec_fancy(&self, indent: Seq<char>) -> Seq<char> {
        fancy_string_literal(*self, indent)
    }

    fn to_fancy_string(&self, indent: &str) -> (r: String) {
        let mut r: String = "StringLiteral { ".to_owned();
        r.append(self.string.as_str());
        r.append(" }");
        proof {
            assert(r@ =~= fancy_string_literal(*self, indent@));
        }
        r
    }
}

impl Printable for Fetch {
    open spec fn spec_fancy(&self, indent: Seq<char>) -> Seq<char> {
        fancy_fetch(*self, indent)
    }

    fn to_fancy_string(&self, indent: &str) -> (r: String) {
        let mut r: String = "Fetch { ".to_owned();
        r.append(self.target.as_str());
        r.append(" }");
        proof {
            assert(r@ =~= fancy_fetch(*self, indent@));
        }
        r
    }
}

impl Printable for ReturnStatement {
    open spec fn spec_fancy(&self, indent: Seq<char>) -> Seq<char> {
        fancy_return_statement(*self, indent)
    }

    fn to_fancy_string(&self, indent: &str) -> (r: String) {
        exec_fancy_return_statement(self, indent)
    }
}

impl Printable for ExpressionStatement {
    open spec fn spec_fancy(&self, indent: Seq<char>) -> Seq<char> {
        fancy_expression_statement(*self, indent)
    }

    fn to_fancy_string(&self, indent: &str) -> (r: String) {
        exec_fancy_expression_statement(self, indent)
    }
}

impl Printable for StructureDefinition {
    open spec fn spec_fancy(&self, indent: Seq<char>) -> Seq<char> {
        fancy_structure_definition(*self, indent)
    }

    fn to_fancy_string(&self, indent: &str) -> (r: String) {
        let r: String = "StructureDefinition {}".to_owned();
        r
    }
}

impl Common for Root {
    open spec fn is_default(v: Root) -> bool {
        v.statements@ == Seq::<RootStatement>::empty()
    }

    fn new_box() -> (r: Box<Root>) {
        let b = Box::new(Root { statements: Vec::new() });
        proof {
            assert(b.statements@ =~= Seq::<RootStatement>::empty());
        }
        b
    }
}

impl Common for Type {
    open spec fn is_default(v: Type) -> bool {
        v.name@ == Seq::<char>::empty() && !v.modifiers.mutable && !v.modifiers.reference
    }

    fn new_box() -> (r: Box<Type>) {
        Box::new(Type { name: String::new(), modifiers: TypeModifier::default() })
    }
}

impl Common for Block {
    open spec fn is_default(v: Block) -> bool {
        v.statements@ == Seq::<Statement>::empty()
    }

    fn new_box() -> (r: Box<Block>) {
        let b = Box::new(Block { statements: Vec::new() });
        proof {
            assert(b.statements@ =~= Seq::<Statement>::empty());
        }
        b
    }
}

impl Common for FunctionParameter {
    open spec fn is_default(v: FunctionParameter) -> bool {
        v.name@ == Seq::<char>::empty() && Type::is_default(*v.parameter_type)
    }

    fn new_box() -> (r: Box<FunctionParameter>) {
        Box::new(FunctionParameter { name: String::new(), parameter_type: Type::new_box() })
    }
}

impl Common for Attribute {
    open spec fn is_default(v: Attribute) -> bool {
        v.name@ == Seq::<char>::empty()
    }

    fn new_box() -> (r: Box<Attribute>) {
        Box::new(Attribute { name: String::new() })
    }
}

impl Common for FunctionDefinition {
    open spec fn is_default(v: FunctionDefinition) -> bool {
        &&& v.attributes@ == Seq::<Box<Attribute>>::empty()
        &&& v.name@ == Seq::<char>::empty()
        &&& v.parameters@ == Seq::<Box<FunctionParameter>>::empty()
        &&& Type::is_default(*v.return_type)
        &&& (v.body matches Statement::Block(b) && Block::is_default(*b))
    }

    fn new_box() -> (r: Box<FunctionDefinition>) {
        let b = Box::new(
            FunctionDefinition {
                attributes: Vec::new(),
                name: String::new(),
                parameters: Vec::new(),
                return_type: Type::new_box(),
                body: Statement::Block(Block::new_box()),
            },
        );
        proof {
            assert(b.attributes@ =~= Seq::<Box<Attribute>>::empty());
            assert(b.parameters@ =~= Seq::<Box<FunctionParameter>>::empty());
        }
        b
    }
}

impl Common for IntegerLiteral {
    open spec fn is_default(v: IntegerLiteral) -> bool {
        v.integer == 0
    }

    fn new_box() -> (r: Box<IntegerLiteral>) {
        Box::new(IntegerLiteral { integer: 0 })
    }
}

impl Common for FunctionCall {
    open spec fn is_default(v: FunctionCall) -> bool {
        &&& (v.target matches Expression::IntegerLiteral(i) && IntegerLiteral::is_default(*i))
        &&& v.arguments@ == Seq::<(String, Expression)>::empty()
    }

    fn new_box() -> (r: Box<FunctionCall>) {
        let b = Box::new(
            FunctionCall {
                target: Expression::IntegerLiteral(IntegerLiteral::new_box()),
                arguments: Vec::new(),
            },
        );
        proof {
            assert(b.arguments@ =~= Seq::<(String, Expression)>::empty());
        }
        b
    }
}

impl Common for StringLiteral {
    open spec fn is_default(v: StringLiteral) -> bool {
        v.string@ == Seq::<char>::empty()
    }

    fn new_box() -> (r: Box<StringLiteral>) {
        Box::new(StringLiteral { string: String::new() })
    }
}

impl Common for Fetch {
    open spec fn is_default(v: Fetch) -> bool {
        v.target@ == Seq::<char>::empty()
    }

    fn new_box() -> (r: Box<Fetch>) {
        Box::new(Fetch { target: String::new() })
    }
}

impl Common for ReturnStatement {
    open spec fn is_default(v: ReturnStatement) -> bool {
        v.expression matches Expression::IntegerLiteral(i) && IntegerLiteral::is_default(*i)
    }

    fn new_box() -> (r: Box<ReturnStatement>) {
        Box::new(ReturnStatement { expression: Expression::IntegerLiteral(IntegerLiteral::new_box()) })
    }
}

impl Common for ExpressionStatement {
    open spec fn is_default(v: ExpressionStatement) -> bool {
        v.expression matches Expression::IntegerLiteral(i) && IntegerLiteral::is_default(*i)
    }

    fn new_box() -> (r: Box<ExpressionStatement>) {
        Box::new(
            ExpressionStatement { expression: Expression::IntegerLiteral(IntegerLiteral::new_box()) },
        )
    }
}

impl Common for StructureDefinition {
    open spec fn is_default(v: StructureDefinition) -> bool {
        true
    }

    fn new_box() -> (r: Box<StructureDefinition>) {
        Box::new(StructureDefinition {  })
    }
}

} // verus!
