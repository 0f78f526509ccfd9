use vim_plugin_metadata::grammar::{missing_kinds, used_kinds};
use vim_plugin_metadata::{order_in_sections, NodeKind, VimModule, VimNode, VimParser};

fn parse(code: &str) -> VimModule {
    VimParser::new().unwrap().parse_module_str(code).unwrap()
}

fn parts(path: &str) -> Vec<String> {
    path.split('/').map(|p| p.to_string()).collect()
}

#[test]
fn used_kinds_defined() {
    let missing = missing_kinds();
    assert!(missing.is_empty(), "kinds the vim grammar lacks: {missing:?}");
    assert_eq!(used_kinds().len(), 20);
}

#[test]
fn flag_with_and_without_default() {
    assert_eq!(
        parse("call Flag('x')").nodes,
        vec![VimNode::Flag { name: "x".into(), default_value_token: None, doc: None }]
    );
    assert_eq!(
        parse("call Flag('x', 'y')").nodes,
        vec![VimNode::Flag { name: "x".into(), default_value_token: Some("'y'".into()), doc: None }]
    );
}

#[test]
fn flag_double_quoted_name() {
    assert_eq!(
        parse("call Flag(\"plain\", 1)").nodes,
        vec![VimNode::Flag { name: "plain".into(), default_value_token: Some("1".into()), doc: None }]
    );
    assert_eq!(
        parse(r#"call Flag("a\\b\tc")"#).nodes,
        vec![VimNode::Flag { name: "a\\btc".into(), default_value_token: None, doc: None }]
    );
}

#[test]
fn other_calls_yield_nothing() {
    assert_eq!(parse("call NotFlag('x')").nodes, vec![]);
    assert_eq!(parse("call Flag(1)").nodes, vec![]);
}

#[test]
fn destructuring_doc_and_indices() {
    let code = "\"\"\n\" Pair.\nlet [a, b] = [1, 2]\n";
    assert_eq!(
        parse(code).nodes,
        vec![
            VimNode::Variable { name: "a".into(), init_value_token: "1".into(), doc: Some("Pair.".into()) },
            VimNode::Variable { name: "b".into(), init_value_token: "2".into(), doc: Some("Pair.".into()) },
        ]
    );
    let names: Vec<String> = (0..11).map(|i| format!("v{i}")).collect();
    let code = format!("let [{}] = f()", names.join(", "));
    let nodes = parse(&code).nodes;
    assert_eq!(nodes.len(), 11);
    assert_eq!(
        nodes[10],
        VimNode::Variable { name: "v10".into(), init_value_token: "f()[10]".into(), doc: None }
    );
    // A literal of another length is indexed too.
    assert_eq!(
        parse("let [a, b] = [1, 2, 3]").nodes[1],
        VimNode::Variable { name: "b".into(), init_value_token: "[1, 2, 3][1]".into(), doc: None }
    );
}

#[test]
fn compound_assignment_yields_nothing() {
    assert_eq!(parse("let x += 1").nodes, vec![]);
    assert_eq!(parse("let x .= 'a'").nodes, vec![]);
}

#[test]
fn doc_trailing_blank_lines_trimmed() {
    let code = "\"\" Foo\n\" \n\"\nfunc F()\nendfunc\n";
    assert_eq!(
        parse(code).nodes,
        vec![VimNode::Function { name: "F".into(), args: vec![], modifiers: vec![], doc: Some("Foo".into()) }]
    );
}

#[test]
fn attached_doc_is_not_standalone() {
    let code = "\"\" First.\n\n\"\" Second.\ncommand C echo 1\n";
    let module = parse(code);
    assert_eq!(module.doc.as_deref(), Some("First."));
    assert_eq!(
        module.nodes,
        vec![VimNode::Command { name: "C".into(), modifiers: vec![], doc: Some("Second.".into()) }]
    );
}

#[test]
fn doc_separated_by_blank_line_stands_alone() {
    let code = "func A()\nendfunc\n\"\" Loose.\n\nfunc B()\nendfunc\n";
    let module = parse(code);
    assert_eq!(module.doc, None);
    assert_eq!(module.nodes.len(), 3);
    assert_eq!(module.nodes[1], VimNode::StandaloneDocComment { doc: "Loose.".into() });
    assert_eq!(module.nodes[2].get_doc(), None);
}

#[test]
fn parsing_twice_gives_equal_modules() {
    let code = "\"\"\n\" Header.\n\n\"\" Doc.\nfunc! F(a, ...) abort\nendfunc\nlet [x, y] = g()\ncall Flag('f', 0)\n";
    let mut parser = VimParser::new().unwrap();
    let first = parser.parse_module_str(code).unwrap();
    let second = parser.parse_module_str(code).unwrap();
    assert_eq!(first, second);
    assert_eq!(first.doc.as_deref(), Some("Header."));
    assert_eq!(first.nodes.len(), 4);
}

#[test]
fn section_keys() {
    assert_eq!(order_in_sections(&vec![]), Some((0, 0)));
    assert_eq!(order_in_sections(&parts("menu.vim")), Some((0, 1)));
    assert_eq!(order_in_sections(&parts("plugin/x.vim")), Some((0, 2)));
    assert_eq!(order_in_sections(&parts("syntax")), Some((3, 1)));
    assert_eq!(order_in_sections(&parts("autoload/a/b/c.vim")), Some((2, 4)));
    assert_eq!(order_in_sections(&parts("colors/x.vim")), Some((10, 2)));
    assert_eq!(order_in_sections(&parts("after")), Some((11, 1)));
    assert_eq!(order_in_sections(&parts("after/menu.vim")), Some((11, 2)));
    assert_eq!(order_in_sections(&parts("after/syntax/x.vim")), Some((14, 3)));
    assert_eq!(order_in_sections(&parts("after/autoload/a/b.vim")), Some((13, 4)));
    assert_eq!(order_in_sections(&parts("after/after/x.vim")), None);
    assert_eq!(order_in_sections(&parts("plugin/sub/x.vim")), None);
    assert_eq!(order_in_sections(&parts("other/x.vim")), None);
    assert_eq!(order_in_sections(&parts("x.vim")), None);
}

#[test]
fn empty_names_are_dropped() {
    assert_eq!(parse("call Flag('')").nodes, vec![]);
    assert_eq!(parse("call Flag(\"\")").nodes, vec![]);
}

#[test]
fn plain_comment_does_not_swallow_doc_block() {
    let module = parse("\" plain\n\"\" Doc.\nlet x = 1\n");
    assert_eq!(module.doc, None);
    assert_eq!(
        module.nodes,
        vec![VimNode::Variable { name: "x".into(), init_value_token: "1".into(), doc: Some("Doc.".into()) }]
    );
}

#[test]
fn doc_above_unrecognized_statement_is_kept() {
    let module = parse("\"\" Doc.\nlet x += 1\n");
    assert_eq!(module.doc.as_deref(), Some("Doc."));
    assert_eq!(module.nodes, vec![]);
    let module = parse("func F()\nendfunc\n\"\" Doc.\ncall Other()\n");
    assert_eq!(module.doc, None);
    assert_eq!(
        module.nodes,
        vec![
            VimNode::Function { name: "F".into(), args: vec![], modifiers: vec![], doc: None },
            VimNode::StandaloneDocComment { doc: "Doc.".into() },
        ]
    );
}

#[test]
fn blank_doc_block_gives_no_doc() {
    let module = parse("\"\"\nfunc F()\nendfunc\n");
    assert_eq!(module.doc, None);
    assert_eq!(
        module.nodes,
        vec![VimNode::Function { name: "F".into(), args: vec![], modifiers: vec![], doc: None }]
    );
    assert_eq!(parse("\"\"  \n\"\n").doc, None);
}

#[test]
fn diagnostics_name_failed_statements() {
    let mut parser = VimParser::new().unwrap();
    let (module, diagnostics) = parser
        .parse_module_str_with_diagnostics("func F()\nendfunc\ncommand -bang\n")
        .unwrap();
    assert_eq!(module.nodes.len(), 1);
    // The command without a name is reported, and so is the syntax error
    // that the parser makes of its attribute; the function is not.
    assert_eq!(diagnostics.len(), 2);
    assert_eq!(diagnostics[0].index, 1);
    assert_eq!(diagnostics[0].kind, NodeKind::CommandStatement);
    assert_eq!((diagnostics[0].row, diagnostics[0].column), (2, 0));
    assert_eq!(diagnostics[0].text, "command");
    assert_eq!(diagnostics[1].index, 2);
    assert_eq!(diagnostics[1].kind, NodeKind::SyntaxError);
    assert_eq!((diagnostics[1].row, diagnostics[1].column), (2, 8));
    assert_eq!(diagnostics[1].text, "-bang");
    let (_, none) = parser.parse_module_str_with_diagnostics("let x = 1\necho 'a'\n").unwrap();
    assert!(none.is_empty());
}

#[test]
fn doc_trailing_unicode_whitespace_trimmed() {
    let code = "\"\" Foo\u{3000}\u{a0}\nfunc F()\nendfunc\n";
    assert_eq!(parse(code).nodes[0].get_doc(), Some("Foo"));
}
