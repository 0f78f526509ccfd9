use vim_plugin_metadata::classify::classify;
use vim_plugin_metadata::docs::block_doc;
use vim_plugin_metadata::{TreeNode, VimNode, VimParser};

fn tree(code: &str) -> TreeNode {
    VimParser::new().unwrap().parse_tree(code).unwrap()
}

fn nodes_of_first(code: &str, doc: Option<String>) -> Vec<VimNode> {
    let root = tree(code);
    classify(&root.children[0], &doc)
}

/// The doc text of the comment block that makes up all of `doc_code`.
fn doc_from(doc_code: &str) -> Option<String> {
    let root = tree(doc_code);
    block_doc(&root.children, 0, root.children.len())
}

#[test]
fn get_treenode_text_empty() {
    assert_eq!(tree("").get_text(), "");
}

#[test]
fn treenode_get_text_empty() {
    assert_eq!(tree("").get_text(), "");
}

#[test]
fn metadata_into_nodes_empty_func() {
    assert_eq!(
        nodes_of_first("func SomeFunc() | endfunc", None),
        vec![VimNode::Function {
            name: "SomeFunc".into(),
            args: vec![],
            modifiers: vec![],
            doc: None,
        }]
    );
}

#[test]
fn metadata_into_nodes_func_missing_name() {
    assert_eq!(nodes_of_first("func () | endfunc", None), vec![]);
}

#[test]
fn metadata_into_nodes_command_missing_name() {
    assert_eq!(nodes_of_first("command -bang", None), vec![]);
}

#[test]
fn metadata_into_nodes_let_missing_rhs() {
    assert_eq!(nodes_of_first("let somevar", None), vec![]);
}

#[test]
fn metadata_into_nodes_let_compound_assignment() {
    assert_eq!(nodes_of_first("let somevar += 1", None), vec![]);
}

#[test]
fn metadata_into_nodes_let_destructuring_assignment() {
    let doc = doc_from("\n\"\"\n\" Some doc\n");
    assert_eq!(doc.as_deref(), Some("Some doc"));
    assert_eq!(
        nodes_of_first("let [var1, var2] = [1, 2]", doc),
        vec![
            VimNode::Variable {
                name: "var1".to_string(),
                init_value_token: "1".to_string(),
                doc: Some("Some doc".into()),
            },
            VimNode::Variable {
                name: "var2".to_string(),
                init_value_token: "2".to_string(),
                doc: Some("Some doc".into()),
            },
        ]
    );
}

#[test]
fn metadata_into_nodes_let_destructuring_rhs_nonliteral() {
    assert_eq!(
        nodes_of_first("let [var1, var2] = SomeFunc()", None),
        vec![
            VimNode::Variable {
                name: "var1".to_string(),
                init_value_token: "SomeFunc()[0]".to_string(),
                doc: None,
            },
            VimNode::Variable {
                name: "var2".to_string(),
                init_value_token: "SomeFunc()[1]".to_string(),
                doc: None,
            },
        ]
    );
}
