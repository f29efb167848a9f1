use alta_build::ast::import_statement::ImportItem;
use alta_build::ast::import_statement::ImportStatement;
use alta_build::ast::root_node::RootNode;
use alta_build::ast::Attribute;
use alta_build::ast::Block;
use alta_build::ast::Common;
use alta_build::ast::Expression;
use alta_build::ast::Fetch;
use alta_build::ast::FunctionCall;
use alta_build::ast::FunctionDefinition;
use alta_build::ast::FunctionParameter;
use alta_build::ast::IntegerLiteral;
use alta_build::ast::Printable;
use alta_build::ast::ReturnStatement;
use alta_build::ast::Root;
use alta_build::ast::RootStatement;
use alta_build::ast::Statement;
use alta_build::ast::StringLiteral;
use alta_build::ast::Type;
use alta_build::ast::TypeModifier;

fn path(s: &str) -> Vec<String> {
    s.split('/').map(|x| x.to_string()).collect()
}

#[test]
fn leaf_nodes_print_exactly() {
    assert_eq!(IntegerLiteral { integer: 42 }.to_fancy_string(""), "IntegerLiteral { 42 }");
    assert_eq!(IntegerLiteral { integer: 0 }.to_fancy_string(""), "IntegerLiteral { 0 }");
    assert_eq!(
        IntegerLiteral { integer: 10007 }.to_fancy_string("\t"),
        "IntegerLiteral { 10007 }"
    );
    assert_eq!(
        StringLiteral { string: "hi".to_string() }.to_fancy_string(""),
        "StringLiteral { hi }"
    );
    assert_eq!(Fetch { target: "x".to_string() }.to_fancy_string(""), "Fetch { x }");
    assert_eq!(Attribute { name: "inline".to_string() }.to_fancy_string(""), "Attribute { inline }");
}

#[test]
fn type_prints_modifiers() {
    let plain = Type { name: "int".to_string(), modifiers: TypeModifier::default() };
    assert_eq!(plain.to_fancy_string(""), "Type {\n\tname = \"int\"\n\tmodifiers = {}\n}");
    let both = Type {
        name: "str".to_string(),
        modifiers: TypeModifier { mutable: true, reference: true },
    };
    assert_eq!(
        both.to_fancy_string(""),
        "Type {\n\tname = \"str\"\n\tmodifiers = {\n\t\tMutable\n\t\tReference\n\t}\n}"
    );
}

#[test]
fn block_prints_statements_indented() {
    let block = Block {
        statements: vec![
            Statement::ReturnStatement(Box::new(ReturnStatement {
                expression: Expression::IntegerLiteral(Box::new(IntegerLiteral { integer: 1 })),
            })),
        ],
    };
    assert_eq!(
        block.to_fancy_string(""),
        "Block {\n\tReturnStatement {\n\t\tIntegerLiteral { 1 }\n\t}\n}"
    );
    assert_eq!(Block { statements: vec![] }.to_fancy_string(""), "Block {}");
}

#[test]
fn function_call_prints_named_arguments() {
    let call = FunctionCall {
        target: Expression::Fetch(Box::new(Fetch { target: "f".to_string() })),
        arguments: vec![(
            "x".to_string(),
            Expression::IntegerLiteral(Box::new(IntegerLiteral { integer: 7 })),
        )],
    };
    assert_eq!(
        call.to_fancy_string(""),
        "FunctionCall {\n\ttarget = Fetch { f }\n\tparameters = {\n\t\t{\n\t\t\tname = \"x\"\n\t\t\tvalue = IntegerLiteral { 7 }\n\t\t}\n\t}\n}"
    );
}

#[test]
fn function_definition_prints_fully() {
    let f = FunctionDefinition {
        attributes: vec![Box::new(Attribute { name: "ext".to_string() })],
        name: "main".to_string(),
        parameters: vec![Box::new(FunctionParameter {
            name: "a".to_string(),
            parameter_type: Box::new(Type {
                name: "int".to_string(),
                modifiers: TypeModifier::default(),
            }),
        })],
        return_type: Box::new(Type { name: "void".to_string(), modifiers: TypeModifier::default() }),
        body: Statement::Block(Box::new(Block { statements: vec![] })),
    };
    let mut expected = String::new();
    expected.push_str("FunctionDefinition {\n");
    expected.push_str("\tname = \"main\"\n");
    expected.push_str("\tattributes = {\n\t\tAttribute { ext }\n\t}\n");
    expected.push_str("\tparameters = {\n");
    expected.push_str(
        "\t\tFunctionParameter {\n\t\t\tname = \"a\"\n\t\t\ttype = Type {\n\t\t\t\tname = \"int\"\n\t\t\t\tmodifiers = {}\n\t\t\t}\n\t\t}\n",
    );
    expected.push_str("\t}\n");
    expected.push_str("\treturn_type = Type {\n\t\tname = \"void\"\n\t\tmodifiers = {}\n\t}\n");
    expected.push_str("\tbody = Block {}\n");
    expected.push_str("}");
    assert_eq!(f.to_fancy_string(""), expected);
}

#[test]
fn root_prints_its_statements() {
    let root = Root {
        statements: vec![RootStatement::StructureDefinition(Box::new(
            alta_build::ast::StructureDefinition {},
        ))],
    };
    assert_eq!(root.to_fancy_string(""), "Root {\n\tStructureDefinition {}\n}");
    assert_eq!(Root { statements: vec![] }.to_fancy_string(""), "Root {}");
}

#[test]
fn new_box_builds_defaults() {
    let t = Type::new_box();
    assert_eq!(t.name, "");
    assert!(!t.modifiers.mutable && !t.modifiers.reference);
    let b = Block::new_box();
    assert_eq!(b.statements.len(), 0);
    let f = FunctionDefinition::new_box();
    assert_eq!(f.name, "");
    assert_eq!(f.attributes.len(), 0);
    assert_eq!(f.parameters.len(), 0);
    match &f.body {
        Statement::Block(inner) => assert_eq!(inner.statements.len(), 0),
        _ => panic!("default body should be a block"),
    }
    let i = IntegerLiteral::new_box();
    assert_eq!(i.integer, 0);
}

#[test]
fn type_modifier_contains_works() {
    let both = TypeModifier { mutable: true, reference: true };
    let only_mut = TypeModifier { mutable: true, reference: false };
    let none = TypeModifier::default();
    assert!(both.contains(&only_mut));
    assert!(!only_mut.contains(&both));
    assert!(both.contains(&none));
    assert!(only_mut.is_empty() == false);
    assert!(none.is_empty());
}

#[test]
fn import_item_displays_with_alias() {
    let item = ImportItem {
        components: vec!["a".to_string(), "b".to_string()],
        alias: Some("c".to_string()),
    };
    assert_eq!(item.to_display_string(), "a.b as c");
    let bare = ImportItem { components: vec!["x".to_string()], alias: None };
    assert_eq!(bare.to_display_string(), "x");
}

#[test]
fn import_statement_displays_resolution() {
    let st = ImportStatement {
        target: "./util".to_string(),
        resolved_target: Some(path("util.alta")),
        items: vec![ImportItem { components: vec!["f".to_string()], alias: None }],
    };
    assert_eq!(st.to_display_string(), "Import(\"./util\" => \"util.alta\") {\n\tf\n}");
    let unresolved = ImportStatement {
        target: "gone".to_string(),
        resolved_target: None,
        items: vec![],
    };
    assert_eq!(unresolved.to_display_string(), "Import(\"gone\" => ?) {}");
}

#[test]
fn root_node_displays_its_imports() {
    let root = RootNode {
        source_path: path("m.alta"),
        statements: vec![alta_build::ast::global_statement::GlobalStatement::Import(
            ImportStatement {
                target: "x".to_string(),
                resolved_target: None,
                items: vec![],
            },
        )],
    };
    assert_eq!(
        root.to_display_string(),
        "Root(\"m.alta\") {\n\tImport(\"x\" => ?) {}\n}"
    );
    let empty = RootNode { source_path: path("e.alta"), statements: vec![] };
    assert_eq!(empty.to_display_string(), "Root(\"e.alta\") {}");
}

struct ImportCounter {
    roots: usize,
    imports: usize,
    structs: usize,
}

impl alta_build::ast::node::Visitor for ImportCounter {
    fn visit_root_node(&mut self, _node: &RootNode) {
        self.roots += 1;
    }

    fn visit_import_statement(&mut self, _node: &ImportStatement) {
        self.imports += 1;
    }

    fn visit_struct_definition_statement(
        &mut self,
        _node: &alta_build::ast::struct_definition_statement::StructDefinitionStatement,
    ) {
        self.structs += 1;
    }
}

#[test]
fn visitor_walks_the_tree() {
    let root = RootNode {
        source_path: path("m.alta"),
        statements: vec![
            alta_build::ast::global_statement::GlobalStatement::Import(ImportStatement {
                target: "a".to_string(),
                resolved_target: None,
                items: vec![],
            }),
            alta_build::ast::global_statement::GlobalStatement::Import(ImportStatement {
                target: "b".to_string(),
                resolved_target: None,
                items: vec![],
            }),
        ],
    };
    let mut v = ImportCounter { roots: 0, imports: 0, structs: 0 };
    alta_build::ast::node::Node::visit(&root, &mut v);
    assert_eq!(v.roots, 1);
    assert_eq!(v.imports, 2);
    assert_eq!(v.structs, 0);
}
