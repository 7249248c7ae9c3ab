use ide::ast::Ast;
use ide::ast::BlockLine;
use ide::ast::Line;
use ide::ast::Module;
use ide::ast::ID;
use ide::view::layout::is_switch_shortcut;
use ide::view::layout::LayoutMode;
use ide::view::layout::ViewLayoutData;
use ide::view::layout::F_KEY;

#[test]
fn a_token_is_its_own_text() {
    assert_eq!(Ast::var("foo").repr(), "foo");
    assert_eq!(Ast::cons("Foo").repr(), "Foo");
    assert_eq!(Ast::opr("+").repr(), "+");
    assert_eq!(Ast::literal("\"hello\"").repr(), "\"hello\"");
    assert_eq!(Ast::var("").repr(), "");
}

#[test]
fn an_application_is_its_parts_with_the_spaces_between_them() {
    let sum = Ast::infix(Ast::var("a"), 1, Ast::opr("+"), 2, Ast::literal("2"));
    assert_eq!(sum.repr(), "a +  2");
    let call = Ast::prefix(Ast::prefix(Ast::var("f"), 1, Ast::var("x")), 3, Ast::var("y"));
    assert_eq!(call.repr(), "f x   y");
    let tight = Ast::infix(Ast::literal("2"), 0, Ast::opr("+"), 0, Ast::literal("2"));
    assert_eq!(tight.repr(), "2+2");
    assert_eq!(tight.with_id(ID::new(1)).repr(), "2+2");
}

#[test]
fn a_block_starts_each_line_on_a_new_row() {
    let block = Ast::block(
        2,
        vec![
            BlockLine { elem: None, off: 1 },
            BlockLine { elem: Some(Ast::var("a")), off: 2 },
            Line::blank(),
            Line::new(Ast::var("b")),
        ],
    );
    assert_eq!(block.repr(), "\n \n  a  \n\n  b");
    assert_eq!(Ast::block(4, Vec::new()).repr(), "");
    let nested = Ast::block(2, vec![Line::new(Ast::infix(
        Ast::var("f"),
        1,
        Ast::opr("="),
        1,
        Ast::block(4, vec![Line::new(Ast::var("x"))]),
    ))]);
    assert_eq!(nested.repr(), "\n  f = \n    x");
}

#[test]
fn a_module_is_its_lines_one_per_row() {
    let module = Module::new(vec![
        Line::new(Ast::var("a")),
        Line::blank(),
        BlockLine { elem: Some(Ast::var("b")), off: 1 },
    ]);
    assert_eq!(module.repr(), "a\n\nb ");
    assert_eq!(module.clone().repr(), "a\n\nb ");
    assert_eq!(Module::new(Vec::new()).repr(), "");
    assert_eq!(Module::new(vec![Line::blank()]).repr(), "");
    assert_eq!(Module::new(vec![Line::blank(), Line::blank()]).repr(), "\n");
}

#[test]
fn a_copy_of_a_tree_has_the_same_text_and_identities() {
    let tree = Ast::infix(
        Ast::var("main"),
        1,
        Ast::opr("="),
        1,
        Ast::block(4, vec![Line::new(Ast::var("x").with_id(ID::new(3))), Line::blank()]),
    ).with_id(ID::new(2));
    let copy = tree.clone();
    assert_eq!(copy.repr(), tree.repr());
    assert_eq!(copy.repr(), "main = \n    x\n");
    assert_eq!(copy.id, Some(ID::new(2)));
}

#[test]
fn the_layout_starts_with_half_the_screen() {
    assert_eq!(LayoutMode::default(), LayoutMode::Half);
    assert_eq!(ViewLayoutData::new().layout_mode, LayoutMode::Half);
}

#[test]
fn a_switch_goes_from_half_to_full_and_back() {
    assert_eq!(LayoutMode::Half.switched(), LayoutMode::Full);
    assert_eq!(LayoutMode::Full.switched(), LayoutMode::Half);
    assert_eq!(LayoutMode::Half.switched().switched(), LayoutMode::Half);
    let mut layout = ViewLayoutData::new();
    layout.switch_layout_mode();
    assert_eq!(layout.layout_mode, LayoutMode::Full);
    layout.switch_layout_mode();
    assert_eq!(layout.layout_mode, LayoutMode::Half);
    layout.set_layout_mode(LayoutMode::Full);
    assert_eq!(layout.layout_mode, LayoutMode::Full);
    layout.set_layout_mode(LayoutMode::Full);
    assert_eq!(layout.layout_mode, LayoutMode::Full);
}

#[test]
fn control_and_f_ask_for_a_switch() {
    assert_eq!(F_KEY, 70);
    assert!(is_switch_shortcut(true, 70));
    assert!(!is_switch_shortcut(false, 70));
    assert!(!is_switch_shortcut(true, 71));
    assert!(!is_switch_shortcut(true, 0));
    assert!(!is_switch_shortcut(false, 0));
}
