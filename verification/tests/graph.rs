use ide::ast::Ast;
use ide::ast::BlockLine;
use ide::ast::Line;
use ide::ast::Module;
use ide::ast::ID;
use ide::double_representation::definition::DefinitionInfo;
use ide::double_representation::definition::DefinitionName;
use ide::double_representation::definition::ScopeKind;
use ide::double_representation::definition::DEFAULT_INDENT;
use ide::double_representation::graph::block_nodes;
use ide::double_representation::graph::expression_node;
use ide::double_representation::graph::traverse_for_definition;
use ide::double_representation::graph::GraphInfo;
use ide::double_representation::graph::Id;
use ide::double_representation::graph::LocationHint;
use ide::double_representation::node::NodeInfo;
use ide::error::AddressingError;
use ide::error::Error;
use ide::error::NodeLookupError;
use ide::error::StructuralError;

fn id(value: u128) -> ID {
    ID::new(value)
}

/// `left op right`, written with or without spaces round the operator.
fn binary(left: Ast, operator: &str, right: Ast, spaced: bool) -> Ast {
    let off = if spaced { 1 } else { 0 };
    Ast::infix(left, off, Ast::opr(operator), off, right)
}

/// `function argument`.
fn apply(function: Ast, argument: Ast) -> Ast {
    Ast::prefix(function, 1, argument)
}

/// `left = right`.
fn assign(left: Ast, right: Ast) -> Ast {
    binary(left, "=", right, true)
}

/// `2+2` under the given identity.
fn two_plus_two(value: u128) -> Ast {
    binary(Ast::literal("2"), "+", Ast::literal("2"), false).with_id(id(value))
}

/// `print "hello"` under the given identity.
fn print_hello(value: u128) -> Ast {
    apply(Ast::var("print"), Ast::literal("\"hello\"")).with_id(id(value))
}

/// A module whose only line is `main = body`.
fn module_with_main(body: Ast) -> Module {
    Module::new(vec![Line::new(assign(Ast::var("main"), body))])
}

/// The graph of `main` in the module.
fn main_graph(module: &Module) -> GraphInfo {
    let name = DefinitionName::new_plain("main");
    let main = module.find_definition(&name).unwrap();
    GraphInfo::from_definition(main)
}

fn texts(nodes: &[NodeInfo]) -> Vec<String> {
    nodes.iter().map(|node| node.expression().repr()).collect()
}

fn ids(nodes: &[NodeInfo]) -> Vec<ID> {
    nodes.iter().map(|node| node.id()).collect()
}

fn line_texts(lines: &[Line]) -> Vec<Option<String>> {
    lines.iter().map(|line| line.elem.as_ref().map(|ast| ast.repr())).collect()
}

/// The body of `main` with blank lines, two nodes and one nested definition.
fn interleaved_body() -> Ast {
    Ast::block(
        4,
        vec![
            Line::blank(),
            Line::new(assign(Ast::var("foo"), Ast::var("node").with_id(id(1)))),
            Line::blank(),
            Line::new(assign(apply(Ast::var("foo"), Ast::var("a")), Ast::var("not_node").with_id(id(2)))),
            Line::blank(),
            Line::new(print_hello(3)),
            Line::blank(),
        ],
    )
}

#[test]
fn detect_a_node() {
    let programs = vec![
        module_with_main(two_plus_two(1)),
        module_with_main(Ast::block(4, vec![Line::new(two_plus_two(1))])),
        module_with_main(Ast::block(4, vec![Line::new(assign(Ast::var("foo"), two_plus_two(1)))])),
        module_with_main(Ast::block(
            4,
            vec![
                Line::new(assign(Ast::var("foo"), two_plus_two(1))),
                Line::new(assign(apply(Ast::var("bar"), Ast::var("b")), two_plus_two(2))),
            ],
        )),
    ];
    for program in programs {
        let graph = main_graph(&program);
        let nodes = graph.nodes();
        assert_eq!(nodes.len(), 1);
        let node = &nodes[0];
        assert_eq!(node.expression().repr(), "2+2");
        assert_eq!(node.id(), id(1));
    }
}

#[test]
fn add_node_to_graph_with_single_line() {
    let program = module_with_main(print_hello(1));
    assert_eq!(program.repr(), "main = print \"hello\"");
    let mut graph = main_graph(&program);

    let nodes = graph.nodes();
    assert_eq!(nodes.len(), 1);
    assert_eq!(nodes[0].expression().repr(), "print \"hello\"");

    let expr0 = "a + 2";
    let expr1 = "b + 3";
    let id0 = id(10);
    let id1 = id(11);
    let line_ast0 = binary(Ast::var("a"), "+", Ast::literal("2"), true).with_id(id0);
    let line_ast1 = binary(Ast::var("b"), "+", Ast::literal("3"), true).with_id(id1);
    assert_eq!(line_ast0.repr(), expr0);
    assert_eq!(line_ast1.repr(), expr1);

    assert!(graph.add_node(line_ast0, LocationHint::Start).is_ok());
    assert_eq!(graph.nodes().len(), 2);
    assert!(graph.add_node(line_ast1, LocationHint::Before(graph.nodes()[0].id())).is_ok());

    let nodes = graph.nodes();
    assert_eq!(nodes.len(), 3);
    assert_eq!(nodes[0].expression().repr(), expr1);
    assert_eq!(nodes[0].id(), id1);
    assert_eq!(nodes[1].expression().repr(), expr0);
    assert_eq!(nodes[1].id(), id0);
    assert_eq!(nodes[2].expression().repr(), "print \"hello\"");
}

#[test]
fn add_node_to_graph_with_multiple_lines() {
    let program = module_with_main(interleaved_body());
    let mut graph = main_graph(&program);

    let (id0, id1, id2, id3) = (id(10), id(11), id(12), id(13));
    let line_ast0 = binary(Ast::literal("4"), "+", Ast::literal("4"), true).with_id(id0);
    let line_ast1 = binary(Ast::var("a"), "+", Ast::var("b"), true).with_id(id1);
    let line_ast2 = binary(Ast::var("x"), "*", Ast::var("x"), true).with_id(id2);
    let line_ast3 = binary(Ast::var("x"), "/", Ast::var("x"), true).with_id(id3);

    assert!(graph.add_node(line_ast0, LocationHint::Start).is_ok());
    assert!(graph.add_node(line_ast1, LocationHint::Before(graph.nodes()[0].id())).is_ok());
    assert!(graph.add_node(line_ast2, LocationHint::After(graph.nodes()[1].id())).is_ok());
    assert!(graph.add_node(line_ast3, LocationHint::End).is_ok());

    let nodes = graph.nodes();
    assert_eq!(nodes.len(), 6);
    assert_eq!(nodes[0].expression().repr(), "a + b");
    assert_eq!(nodes[0].id(), id1);
    assert_eq!(nodes[1].expression().repr(), "4 + 4");
    assert_eq!(nodes[1].id(), id0);
    assert_eq!(nodes[2].expression().repr(), "x * x");
    assert_eq!(nodes[2].id(), id2);
    assert_eq!(nodes[3].expression().repr(), "node");
    assert_eq!(nodes[4].expression().repr(), "print \"hello\"");
    assert_eq!(nodes[5].expression().repr(), "x / x");
    assert_eq!(nodes[5].id(), id3);
}

#[test]
fn multiple_node_graph() {
    let int_assign = binary(Ast::cons("Int"), ".", Ast::opr("="), false);
    let body = Ast::block(
        4,
        vec![
            Line::new(assign(Ast::var("foo"), Ast::var("node").with_id(id(1)))),
            Line::new(assign(apply(Ast::var("foo"), Ast::var("a")), Ast::var("not_node").with_id(id(2)))),
            Line::new(assign(apply(int_assign, Ast::var("a")), Ast::var("node").with_id(id(3)))),
            Line::new(Ast::var("node").with_id(id(4))),
        ],
    );
    let program = module_with_main(body);
    assert_eq!(
        program.repr(),
        "main = \n    foo = node\n    foo a = not_node\n    Int.= a = node\n    node"
    );
    let graph = main_graph(&program);
    let nodes = graph.nodes();
    assert_eq!(nodes.len(), 2);
    for node in nodes.iter() {
        assert_eq!(node.expression().repr(), "node");
    }
    assert_eq!(ids(&nodes), vec![id(1), id(4)]);
}

#[test]
fn a_body_that_is_no_block_is_one_node_with_the_text_of_the_body() {
    let body = apply(apply(Ast::var("foo"), Ast::var("a")), Ast::var("b")).with_id(id(5));
    let text = body.repr();
    let graph = main_graph(&module_with_main(body));
    let nodes = graph.nodes();
    assert_eq!(nodes.len(), 1);
    assert_eq!(nodes[0].expression().repr(), text);
    assert_eq!(nodes[0].expression().repr(), "foo a b");
    assert_eq!(nodes[0].id(), id(5));
}

#[test]
fn a_body_without_identity_is_no_node() {
    let graph = main_graph(&module_with_main(Ast::var("foo")));
    assert_eq!(graph.nodes().len(), 0);
}

#[test]
fn a_body_that_reads_as_a_definition_is_no_node() {
    let body = assign(apply(Ast::var("f"), Ast::var("x")), Ast::literal("1").with_id(id(2))).with_id(id(1));
    let graph = main_graph(&module_with_main(body));
    assert_eq!(graph.nodes().len(), 0);
    let shown = expression_node(
        assign(apply(Ast::var("f"), Ast::var("x")), Ast::literal("1").with_id(id(2))).with_id(id(1)),
    );
    assert_eq!(shown.len(), 0);
}

#[test]
fn a_binding_as_a_whole_body_is_one_node_of_the_whole_binding() {
    let body = assign(Ast::var("x"), Ast::literal("5").with_id(id(2))).with_id(id(1));
    let graph = main_graph(&module_with_main(body));
    let nodes = graph.nodes();
    assert_eq!(texts(&nodes), vec!["x = 5".to_string()]);
    assert_eq!(ids(&nodes), vec![id(1)]);
}

#[test]
fn nested_definitions_and_blank_lines_are_no_nodes() {
    let graph = main_graph(&module_with_main(interleaved_body()));
    let nodes = graph.nodes();
    assert_eq!(texts(&nodes), vec!["node".to_string(), "print \"hello\"".to_string()]);
    assert_eq!(ids(&nodes), vec![id(1), id(3)]);
}

#[test]
fn a_line_without_identity_is_skipped() {
    let body = Ast::block(
        4,
        vec![
            Line::new(Ast::var("first").with_id(id(1))),
            Line::new(Ast::var("unnamed")),
            Line::new(assign(Ast::var("x"), Ast::var("unbound"))),
            Line::new(Ast::var("last").with_id(id(2))),
        ],
    );
    let graph = main_graph(&module_with_main(body));
    assert_eq!(texts(&graph.nodes()), vec!["first".to_string(), "last".to_string()]);
}

#[test]
fn block_nodes_lists_the_nodes_of_a_block() {
    let body = interleaved_body();
    let block = match body.shape {
        ide::ast::Shape::Block(block) => block,
        _ => panic!("the body is a block"),
    };
    let nodes = block_nodes(&block);
    assert_eq!(ids(&nodes), vec![id(1), id(3)]);
}

#[test]
fn reading_the_nodes_twice_gives_the_same_nodes() {
    let graph = main_graph(&module_with_main(interleaved_body()));
    let first = graph.nodes();
    let second = graph.nodes();
    assert_eq!(ids(&first), ids(&second));
    assert_eq!(texts(&first), texts(&second));
}

#[test]
fn the_node_count_is_the_count_of_lines_that_are_no_definitions() {
    let body = Ast::block(
        4,
        vec![
            Line::new(assign(Ast::var("foo"), Ast::var("node").with_id(id(1)))),
            Line::new(assign(apply(Ast::var("foo"), Ast::var("a")), Ast::var("not_node").with_id(id(2)))),
            Line::new(print_hello(3)),
        ],
    );
    let graph = main_graph(&module_with_main(body));
    let nodes = graph.nodes();
    assert_eq!(nodes.len(), 2);
    assert_eq!(texts(&nodes), vec!["node".to_string(), "print \"hello\"".to_string()]);
}

#[test]
fn a_hint_resolves_to_the_index_of_the_new_line() {
    let graph = main_graph(&module_with_main(interleaved_body()));
    assert_eq!(graph.resolve_location(LocationHint::Start), Ok(0));
    assert_eq!(graph.resolve_location(LocationHint::End), Ok(7));
    assert_eq!(graph.resolve_location(LocationHint::Before(id(1))), Ok(1));
    assert_eq!(graph.resolve_location(LocationHint::After(id(1))), Ok(2));
    assert_eq!(graph.resolve_location(LocationHint::Before(id(3))), Ok(5));
    assert_eq!(graph.resolve_location(LocationHint::After(id(3))), Ok(6));
    assert_eq!(
        graph.resolve_location(LocationHint::After(id(2))),
        Err(NodeLookupError::NodeNotFound(id(2)))
    );
    let inline = main_graph(&module_with_main(print_hello(1)));
    assert_eq!(inline.resolve_location(LocationHint::End), Ok(1));
    assert_eq!(inline.resolve_location(LocationHint::After(id(1))), Ok(1));
    assert_eq!(inline.resolve_location(LocationHint::Before(id(1))), Ok(0));
}

#[test]
fn find_node_index_in_lines_gives_the_first_line_of_the_node() {
    let lines = vec![
        Line::blank(),
        Line::new(assign(apply(Ast::var("f"), Ast::var("x")), Ast::var("body").with_id(id(7)))),
        Line::new(Ast::var("a").with_id(id(7))),
        Line::new(Ast::var("b").with_id(id(7))),
    ];
    assert_eq!(GraphInfo::find_node_index_in_lines(&lines, id(7)), Ok(2));
    assert_eq!(
        GraphInfo::find_node_index_in_lines(&lines, id(8)),
        Err(NodeLookupError::NodeNotFound(id(8)))
    );
    assert_eq!(
        GraphInfo::find_node_index_in_lines(&Vec::new(), id(7)),
        Err(NodeLookupError::NodeNotFound(id(7)))
    );
}

#[test]
fn adding_keeps_every_other_line_as_it_was() {
    let mut graph = main_graph(&module_with_main(interleaved_body()));
    let before = line_texts(&graph.source.block_lines());
    let new_line = Ast::var("new").with_id(id(9));
    assert!(graph.add_node(new_line, LocationHint::After(id(1))).is_ok());
    let after = graph.source.block_lines();
    assert_eq!(after.len(), before.len() + 1);
    assert_eq!(after[2].elem.as_ref().map(|ast| ast.repr()), Some("new".to_string()));
    assert_eq!(after[2].off, 0);
    let mut rest = line_texts(&after);
    rest.remove(2);
    assert_eq!(rest, before);
    assert_eq!(
        graph.source.body().repr(),
        "\n\n    foo = node\n    new\n\n    foo a = not_node\n\n    print \"hello\"\n"
    );
}

#[test]
fn adding_to_a_body_that_is_no_block_makes_a_block_with_the_default_indent() {
    let mut graph = main_graph(&module_with_main(print_hello(1)));
    assert!(graph.add_node(Ast::var("new").with_id(id(9)), LocationHint::End).is_ok());
    assert_eq!(DEFAULT_INDENT, 4);
    assert_eq!(graph.source.body().repr(), "\n    print \"hello\"\n    new");
    assert_eq!(graph.source.line_ast().repr(), "main = \n    print \"hello\"\n    new");
    assert_eq!(graph.source.body().id, None);
}

#[test]
fn adding_by_an_unknown_node_fails_and_changes_nothing() {
    let mut graph = main_graph(&module_with_main(interleaved_body()));
    let before_text = graph.source.line_ast().repr();
    let before_ids = ids(&graph.nodes());
    let result = graph.add_node(Ast::var("new").with_id(id(9)), LocationHint::Before(id(42)));
    assert!(matches!(
        result,
        Err(Error::NodeLookup(NodeLookupError::NodeNotFound(missing))) if missing == id(42)
    ));
    let result = graph.add_node(Ast::var("new").with_id(id(9)), LocationHint::After(id(2)));
    assert!(matches!(
        result,
        Err(Error::NodeLookup(NodeLookupError::NodeNotFound(missing))) if missing == id(2)
    ));
    assert_eq!(graph.source.line_ast().repr(), before_text);
    assert_eq!(ids(&graph.nodes()), before_ids);
}

#[test]
fn removing_a_node_removes_that_node_and_no_other() {
    let mut graph = main_graph(&module_with_main(interleaved_body()));
    assert!(graph.add_node(Ast::var("new").with_id(id(9)), LocationHint::Start).is_ok());
    assert_eq!(ids(&graph.nodes()), vec![id(9), id(1), id(3)]);
    assert!(graph.remove_node(id(1)).is_ok());
    assert_eq!(ids(&graph.nodes()), vec![id(9), id(3)]);
    assert_eq!(texts(&graph.nodes()), vec!["new".to_string(), "print \"hello\"".to_string()]);
    assert_eq!(
        graph.source.body().repr(),
        "\n    new\n\n\n    foo a = not_node\n\n    print \"hello\"\n"
    );
}

#[test]
fn removing_an_unknown_node_fails_and_changes_nothing() {
    let mut graph = main_graph(&module_with_main(interleaved_body()));
    let before_text = graph.source.line_ast().repr();
    let result = graph.remove_node(id(42));
    assert!(matches!(
        result,
        Err(Error::NodeLookup(NodeLookupError::NodeNotFound(missing))) if missing == id(42)
    ));
    let result = graph.remove_node(id(2));
    assert!(matches!(
        result,
        Err(Error::NodeLookup(NodeLookupError::NodeNotFound(missing))) if missing == id(2)
    ));
    assert_eq!(graph.source.line_ast().repr(), before_text);
    assert_eq!(ids(&graph.nodes()), vec![id(1), id(3)]);
}

#[test]
fn removing_the_only_node_leaves_a_graph_without_nodes() {
    let mut graph = main_graph(&module_with_main(print_hello(1)));
    assert!(graph.remove_node(id(1)).is_ok());
    assert_eq!(graph.nodes().len(), 0);
    assert_eq!(graph.source.block_lines().len(), 0);
    assert_eq!(graph.source.line_ast().repr(), "main = ");
    let result = graph.remove_node(id(1));
    assert!(matches!(
        result,
        Err(Error::NodeLookup(NodeLookupError::NodeNotFound(missing))) if missing == id(1)
    ));

    let body = Ast::block(4, vec![Line::blank(), Line::new(print_hello(1)), Line::blank()]);
    let mut graph = main_graph(&module_with_main(body));
    assert!(graph.remove_node(id(1)).is_ok());
    assert_eq!(graph.nodes().len(), 0);
    assert_eq!(line_texts(&graph.source.block_lines()), vec![None, None]);
    assert_eq!(graph.source.line_ast().repr(), "main = \n\n");
}

#[test]
fn a_node_can_be_added_to_a_graph_without_nodes() {
    let mut graph = main_graph(&module_with_main(print_hello(1)));
    assert!(graph.remove_node(id(1)).is_ok());
    assert!(graph.add_node(Ast::var("a").with_id(id(2)), LocationHint::End).is_ok());
    assert!(graph.add_node(Ast::var("b").with_id(id(3)), LocationHint::Start).is_ok());
    assert_eq!(ids(&graph.nodes()), vec![id(3), id(2)]);
    assert_eq!(graph.source.line_ast().repr(), "main = \n    b\n    a");
}

#[test]
fn adding_a_node_and_removing_it_again_leaves_the_graph_as_it_was() {
    let blank = Ast::block(4, vec![Line::blank(), BlockLine { elem: None, off: 2 }]);
    for (body, hint) in [
        (blank, LocationHint::Start),
        (Ast::block(4, vec![Line::blank(), BlockLine { elem: None, off: 2 }]), LocationHint::End),
        (interleaved_body(), LocationHint::After(id(1))),
        (interleaved_body(), LocationHint::Before(id(3))),
        (Ast::block(4, Vec::new()), LocationHint::End),
    ] {
        let mut graph = main_graph(&module_with_main(body));
        let old_ids = ids(&graph.nodes());
        let old_texts = texts(&graph.nodes());
        let old_text = graph.source.line_ast().repr();
        assert!(graph.add_node(Ast::var("new").with_id(id(9)), hint).is_ok());
        assert_eq!(graph.nodes().len(), old_ids.len() + 1);
        assert!(graph.remove_node(id(9)).is_ok());
        assert_eq!(ids(&graph.nodes()), old_ids);
        assert_eq!(texts(&graph.nodes()), old_texts);
        assert_eq!(graph.source.line_ast().repr(), old_text);
    }
}

#[test]
fn removing_takes_the_first_of_two_nodes_of_one_identity() {
    let body = Ast::block(
        4,
        vec![Line::new(Ast::var("a").with_id(id(1))), Line::new(Ast::var("b").with_id(id(1)))],
    );
    let mut graph = main_graph(&module_with_main(body));
    assert!(graph.remove_node(id(1)).is_ok());
    assert_eq!(texts(&graph.nodes()), vec!["b".to_string()]);
}

#[test]
fn editing_a_node_keeps_its_identity_and_its_place() {
    let mut graph = main_graph(&module_with_main(interleaved_body()));
    assert!(graph.edit_node(id(1), Ast::var("other")).is_ok());
    assert!(graph.edit_node(id(3), binary(Ast::var("a"), "+", Ast::var("b"), true)).is_ok());
    let nodes = graph.nodes();
    assert_eq!(ids(&nodes), vec![id(1), id(3)]);
    assert_eq!(texts(&nodes), vec!["other".to_string(), "a + b".to_string()]);
    assert_eq!(
        graph.source.body().repr(),
        "\n\n    foo = other\n\n    foo a = not_node\n\n    a + b\n"
    );
}

#[test]
fn editing_a_line_into_a_binding_keeps_the_identity_on_what_is_bound() {
    let mut graph = main_graph(&module_with_main(interleaved_body()));
    let binding = assign(Ast::var("x"), Ast::literal("5").with_id(id(8))).with_id(id(7));
    assert!(graph.edit_node(id(3), binding).is_ok());
    let nodes = graph.nodes();
    assert_eq!(ids(&nodes), vec![id(1), id(3)]);
    assert_eq!(texts(&nodes), vec!["node".to_string(), "5".to_string()]);
    let mut inline = main_graph(&module_with_main(print_hello(1)));
    assert!(inline.edit_node(id(1), Ast::var("other")).is_ok());
    assert_eq!(ids(&inline.nodes()), vec![id(1)]);
    assert_eq!(inline.source.line_ast().repr(), "main = \n    other");
}

#[test]
fn editing_fails_for_an_unknown_node_and_for_a_definition() {
    let mut graph = main_graph(&module_with_main(interleaved_body()));
    let before_text = graph.source.line_ast().repr();
    let result = graph.edit_node(id(42), Ast::var("other"));
    assert!(matches!(
        result,
        Err(Error::NodeLookup(NodeLookupError::NodeNotFound(missing))) if missing == id(42)
    ));
    let definition = assign(apply(Ast::var("f"), Ast::var("x")), Ast::var("y"));
    let result = graph.edit_node(id(3), definition);
    assert!(matches!(result, Err(Error::Structure(StructuralError::NotANode))));
    assert_eq!(graph.source.line_ast().repr(), before_text);
}

#[test]
fn find_node_gives_the_node_of_the_identity() {
    let graph = main_graph(&module_with_main(interleaved_body()));
    let node = graph.find_node(id(3)).unwrap();
    assert_eq!(node.id(), id(3));
    assert_eq!(node.expression().repr(), "print \"hello\"");
    assert_eq!(graph.find_node(id(2)).err(), Some(NodeLookupError::NodeNotFound(id(2))));
    assert_eq!(graph.find_node_index(id(3)), Ok(5));
}

#[test]
fn set_block_lines_makes_the_lines_the_body() {
    let mut definition = main_graph(&module_with_main(print_hello(1))).source;
    let lines = vec![BlockLine { elem: None, off: 2 }, BlockLine { elem: Some(Ast::var("a")), off: 1 }];
    definition.set_block_lines(lines);
    assert_eq!(definition.line_ast().repr(), "main = \n  \n    a ");
    assert_eq!(definition.body().id, None);
    let lines = definition.block_lines();
    assert_eq!(lines.len(), 2);
    assert_eq!(lines[0].off, 2);
    assert!(lines[0].elem.is_none());
    assert_eq!(lines[1].off, 1);
    definition.set_block_lines(vec![Line::blank(), BlockLine { elem: None, off: 3 }]);
    assert_eq!(definition.line_ast().repr(), "main = \n\n   ");
    assert_eq!(line_texts(&definition.block_lines()), vec![None, None]);
    definition.set_block_lines(Vec::new());
    assert_eq!(definition.line_ast().repr(), "main = ");
    assert_eq!(definition.block_lines().len(), 0);
}

#[test]
fn set_block_lines_keeps_the_indent_of_a_block() {
    let body = Ast::block(2, vec![Line::new(Ast::var("a"))]);
    let mut definition = main_graph(&module_with_main(body)).source;
    definition.set_block_lines(vec![Line::new(Ast::var("b"))]);
    assert_eq!(definition.body().repr(), "\n  b");
}

#[test]
fn block_lines_of_a_body_that_is_no_block_is_one_line() {
    let definition = main_graph(&module_with_main(print_hello(1))).source;
    let lines = definition.block_lines();
    assert_eq!(line_texts(&lines), vec![Some("print \"hello\"".to_string())]);
    assert_eq!(lines[0].off, 0);
}

#[test]
fn a_definition_is_read_from_its_line() {
    let line = assign(
        apply(apply(Ast::var("add"), Ast::var("a")), Ast::var("b")),
        Ast::literal("50"),
    ).with_id(id(1));
    for kind in [ScopeKind::Root, ScopeKind::NonRoot] {
        let definition = DefinitionInfo::from_line_ast(&line, kind).unwrap();
        assert_eq!(definition.name, DefinitionName::new_plain("add"));
        assert_eq!(definition.args.len(), 2);
        assert_eq!(definition.args[0].repr(), "a");
        assert_eq!(definition.args[1].repr(), "b");
        assert_eq!(definition.body().repr(), "50");
        assert_eq!(definition.id, Some(id(1)));
        assert_eq!(definition.line_ast().repr(), "add a b = 50");
    }
}

#[test]
fn a_binding_without_arguments_is_a_definition_only_at_the_root() {
    let line = assign(Ast::var("bar"), Ast::var("x"));
    assert!(DefinitionInfo::from_line_ast(&line, ScopeKind::Root).is_some());
    assert!(DefinitionInfo::from_line_ast(&line, ScopeKind::NonRoot).is_none());
}

#[test]
fn what_does_not_bind_a_name_is_no_definition() {
    let sum = binary(Ast::var("a"), "+", Ast::var("b"), true);
    let call = apply(Ast::var("f"), Ast::var("x"));
    let number = assign(apply(Ast::literal("5"), Ast::var("x")), Ast::var("y"));
    let chain = assign(apply(binary(Ast::var("a"), "+", Ast::var("b"), false), Ast::var("x")), Ast::var("y"));
    for line in [sum, call, number, chain, Ast::var("a")] {
        assert!(DefinitionInfo::from_line_ast(&line, ScopeKind::Root).is_none());
        assert!(DefinitionInfo::from_line_ast(&line, ScopeKind::NonRoot).is_none());
    }
}

#[test]
fn a_definition_name_is_read_through_its_types() {
    let ast = binary(binary(Ast::cons("Foo"), ".", Ast::cons("Bar"), false), ".", Ast::var("baz"), false);
    let name = DefinitionName::from_ast(&ast).unwrap();
    assert_eq!(name.name, "baz");
    assert_eq!(name.extended_target, vec!["Foo".to_string(), "Bar".to_string()]);
    let plain = DefinitionName::from_ast(&Ast::opr("+")).unwrap();
    assert_eq!(plain, DefinitionName::new_plain("+"));
    assert!(DefinitionName::from_ast(&Ast::literal("5")).is_none());
    assert!(DefinitionName::from_ast(&binary(Ast::var("a"), "+", Ast::var("b"), false)).is_none());
    assert!(DefinitionName::from_ast(&binary(Ast::literal("1"), ".", Ast::var("b"), false)).is_none());
    assert!(DefinitionName::from_ast(&binary(Ast::var("a"), ".", Ast::literal("1"), false)).is_none());
}

#[test]
fn definition_names_are_equal_by_name_and_types() {
    let ast = binary(Ast::cons("Foo"), ".", Ast::var("baz"), false);
    let first = DefinitionName::from_ast(&ast).unwrap();
    let second = first.clone();
    assert!(first.same_as(&second));
    assert_eq!(first, second);
    assert_ne!(first, DefinitionName::new_plain("baz"));
    assert_ne!(DefinitionName::new_plain("a"), DefinitionName::new_plain("b"));
    let other = DefinitionName::from_ast(&binary(Ast::cons("Bar"), ".", Ast::var("baz"), false)).unwrap();
    assert!(!first.same_as(&other));
}

/// A module with `main` and, nested in it, `inner x`, and nested in that, `deep y`.
fn nested_module() -> Module {
    let deep = assign(
        apply(Ast::var("deep"), Ast::var("y")),
        Ast::block(12, vec![Line::new(Ast::var("bottom").with_id(id(30)))]),
    );
    let inner = assign(
        apply(Ast::var("inner"), Ast::var("x")),
        Ast::block(8, vec![Line::new(Ast::var("middle").with_id(id(20))), Line::new(deep)]),
    );
    let main = assign(
        Ast::var("main"),
        Ast::block(4, vec![Line::new(Ast::var("top").with_id(id(10))), Line::new(inner)]),
    );
    let other = assign(Ast::var("other"), Ast::literal("1").with_id(id(40)));
    Module::new(vec![Line::blank(), Line::new(main), Line::new(other)])
}

fn path(names: &[&str]) -> Id {
    Id { crumbs: names.iter().map(|name| DefinitionName::new_plain(name)).collect() }
}

#[test]
fn traversing_enters_the_named_definitions_in_turn() {
    let module = nested_module();
    let main = traverse_for_definition(&module, &path(&["main"])).unwrap();
    assert_eq!(main.name, DefinitionName::new_plain("main"));
    let inner = traverse_for_definition(&module, &path(&["main", "inner"])).unwrap();
    assert_eq!(inner.name, DefinitionName::new_plain("inner"));
    assert_eq!(ids(&GraphInfo::from_definition(inner).nodes()), vec![id(20)]);
    let deep = traverse_for_definition(&module, &path(&["main", "inner", "deep"])).unwrap();
    assert_eq!(ids(&GraphInfo::from_definition(deep).nodes()), vec![id(30)]);
    let other = traverse_for_definition(&module, &path(&["other"])).unwrap();
    assert_eq!(other.body().repr(), "1");
}

#[test]
fn traversing_fails_for_an_empty_identifier() {
    let module = nested_module();
    let result = traverse_for_definition(&module, &Id { crumbs: Vec::new() });
    assert!(matches!(result, Err(AddressingError::EmptyGraphId)));
}

#[test]
fn traversing_fails_where_a_crumb_names_no_definition() {
    let module = nested_module();
    for names in [
        vec!["missing"],
        vec!["inner"],
        vec!["main", "deep"],
        vec!["main", "inner", "missing"],
        vec!["other", "inner"],
        vec!["main", "top"],
    ] {
        let id = path(&names);
        match traverse_for_definition(&module, &id) {
            Err(AddressingError::DefinitionNotFound(reported)) => assert_eq!(reported, id),
            _ => panic!("the definition should not be found"),
        }
    }
}

#[test]
fn the_first_of_two_definitions_of_a_name_is_found() {
    let first = assign(Ast::var("main"), Ast::literal("1").with_id(id(1)));
    let second = assign(Ast::var("main"), Ast::literal("2").with_id(id(2)));
    let module = Module::new(vec![Line::new(first), Line::new(second)]);
    let found = module.find_definition(&DefinitionName::new_plain("main")).unwrap();
    assert_eq!(found.body().repr(), "1");
}

#[test]
fn graph_identifiers_are_equal_by_their_crumbs() {
    let single = Id::new_single_crumb(DefinitionName::new_plain("main"));
    assert_eq!(single.crumbs.len(), 1);
    assert_eq!(single, path(&["main"]));
    assert!(single.same_as(&path(&["main"])));
    assert_ne!(path(&["main", "inner"]), path(&["inner", "main"]));
    assert_ne!(path(&["main"]), path(&["main", "main"]));
    assert_eq!(path(&["main", "inner"]).clone(), path(&["main", "inner"]));
    let module = nested_module();
    let first = traverse_for_definition(&module, &path(&["main", "inner"])).unwrap();
    let second = traverse_for_definition(&module, &path(&["main", "inner"]).clone()).unwrap();
    assert_eq!(first.line_ast().repr(), second.line_ast().repr());
}

#[test]
fn a_node_is_read_from_a_line() {
    let binding = assign(Ast::var("x"), Ast::literal("5").with_id(id(2))).with_id(id(1));
    let node = NodeInfo::from_line_ast(&binding).unwrap();
    assert_eq!(node.id(), id(2));
    assert_eq!(node.expression().repr(), "5");
    let call = print_hello(3);
    let node = NodeInfo::from_line_ast(&call).unwrap();
    assert_eq!(node.id(), id(3));
    assert_eq!(node.expression().repr(), "print \"hello\"");
    assert!(NodeInfo::from_line_ast(&Ast::var("a")).is_none());
    assert!(NodeInfo::new_expression(Ast::var("a")).is_none());
    assert_eq!(NodeInfo::new_expression(Ast::var("a").with_id(id(4))).unwrap().id(), id(4));
}
