use vim_plugin_metadata::{VimModule, VimNode, VimParser};

fn parse(code: &str) -> VimModule {
    let mut parser = VimParser::new().unwrap();
    parser.parse_module_str(code).unwrap()
}

fn module(doc: Option<&str>, nodes: Vec<VimNode>) -> VimModule {
    VimModule { path: None, doc: doc.map(|d| d.to_string()), nodes }
}

fn strings(v: &[&str]) -> Vec<String> {
    v.iter().map(|s| s.to_string()).collect()
}

fn function(name: &str, args: &[&str], modifiers: &[&str], doc: Option<&str>) -> VimNode {
    VimNode::Function {
        name: name.into(),
        args: strings(args),
        modifiers: strings(modifiers),
        doc: doc.map(|d| d.to_string()),
    }
}

fn flag(name: &str, default: Option<&str>, doc: Option<&str>) -> VimNode {
    VimNode::Flag {
        name: name.into(),
        default_value_token: default.map(|d| d.to_string()),
        doc: doc.map(|d| d.to_string()),
    }
}

fn variable(name: &str, init: &str, doc: Option<&str>) -> VimNode {
    VimNode::Variable { name: name.into(), init_value_token: init.into(), doc: doc.map(|d| d.to_string()) }
}

#[test]
fn parser_parse_module_empty() {
    assert_eq!(parse(""), module(None, vec![]));
}

#[test]
fn mod_parse_module_empty() {
    assert_eq!(parse(""), module(None, vec![]));
}

#[test]
fn parser_parse_module_one_nondoc_comment() {
    assert_eq!(parse("\" A comment"), module(None, vec![]));
}

#[test]
fn mod_parse_module_one_nondoc_comment() {
    assert_eq!(parse("\" A comment"), module(None, vec![]));
}

#[test]
fn parser_parse_module_one_doc() {
    assert_eq!(parse("\n\"\"\n\" Foo\n"), module(Some("Foo"), vec![]));
}

#[test]
fn mod_parse_module_one_doc() {
    assert_eq!(parse("\n\"\"\n\" Foo\n"), module(Some("Foo"), vec![]));
}

#[test]
fn parser_parse_module_messy_multiline_doc() {
    assert_eq!(parse("\n\"\" Foo\n\"bar\n"), module(Some("Foo\nbar"), vec![]));
}

#[test]
fn mod_parse_module_messy_multiline_doc() {
    assert_eq!(parse("\n\"\" Foo\n\"bar\n"), module(Some("Foo\nbar"), vec![]));
}

#[test]
fn parse_module_adjacent_docs() {
    assert_eq!(parse("\n\"\"\n\" Doc comment.\n\"\"\n\" More doc comment.\n"), module(Some("Doc comment.\n\"\nMore doc comment."), vec![]));
}

#[test]
fn parser_parse_module_doc_before_statement() {
    assert_eq!(parse("\n\"\"\n\" Actually a file header.\necho 'Hi'\nfunc MyFunc() | endfunc\n"), module(Some("Actually a file header."), vec![function("MyFunc", &[], &[], None)]));
}

#[test]
fn mod_parse_module_doc_before_statement() {
    assert_eq!(parse("\n\"\"\n\" Actually a file header.\necho 'Hi'\nfunc MyFunc() | endfunc\n"), module(Some("Actually a file header."), vec![function("MyFunc", &[], &[], None)]));
}

#[test]
fn parser_parse_module_bare_function() {
    assert_eq!(parse("\nfunc MyFunc()\n  return 1\nendfunc\n"), module(None, vec![function("MyFunc", &[], &[], None)]));
}

#[test]
fn mod_parse_module_bare_function() {
    assert_eq!(parse("\nfunc MyFunc()\n  return 1\nendfunc\n"), module(None, vec![function("MyFunc", &[], &[], None)]));
}

#[test]
fn parser_parse_module_doc_and_function() {
    assert_eq!(parse("\n\"\"\n\" Does a thing.\n\"\n\" Call and enjoy.\nfunc MyFunc()\n  return 1\nendfunc\n"), module(None, vec![function("MyFunc", &[], &[], Some("Does a thing.\n\nCall and enjoy."))]));
}

#[test]
fn mod_parse_module_doc_and_function() {
    assert_eq!(parse("\n\"\"\n\" Does a thing.\n\"\n\" Call and enjoy.\nfunc MyFunc()\n  return 1\nendfunc\n"), module(None, vec![function("MyFunc", &[], &[], Some("Does a thing.\n\nCall and enjoy."))]));
}

#[test]
fn parser_parse_module_func_with_args() {
    assert_eq!(parse("\nfunc MyFunc(arg1, arg2)\n  return 1\nendfunc\n"), module(None, vec![function("MyFunc", &["arg1", "arg2"], &[], None)]));
}

#[test]
fn mod_parse_module_func_with_args() {
    assert_eq!(parse("\nfunc MyFunc(arg1, arg2)\n  return 1\nendfunc\n"), module(None, vec![function("MyFunc", &["arg1", "arg2"], &[], None)]));
}

#[test]
fn parser_parse_module_func_with_opt_args_and_modifiers() {
    assert_eq!(parse("\nfunc! MyFunc(arg1, ...) range dict abort\n  return 1\nendfunc\n"), module(None, vec![function("MyFunc", &["arg1", "..."], &["!", "range", "dict", "abort"], None)]));
}

#[test]
fn mod_parse_module_func_with_opt_args_and_modifiers() {
    assert_eq!(parse("\nfunc! MyFunc(arg1, ...) range dict abort\n  return 1\nendfunc\n"), module(None, vec![function("MyFunc", &["arg1", "..."], &["!", "range", "dict", "abort"], None)]));
}

#[test]
fn parser_parse_module_two_docs() {
    assert_eq!(parse("\n\"\" One doc\n\n\"\" Another doc\n"), module(Some("One doc"), vec![VimNode::StandaloneDocComment { doc: "Another doc".into() }]));
}

#[test]
fn mod_parse_module_two_docs() {
    assert_eq!(parse("\n\"\" One doc\n\n\"\" Another doc\n"), module(Some("One doc"), vec![VimNode::StandaloneDocComment { doc: "Another doc".into() }]));
}

#[test]
fn parse_module_comment_then_doc() {
    assert_eq!(parse("\n\" Normal comment\n\n\"\"\n\" Module doc\n"), module(Some("Module doc"), vec![]));
}

#[test]
fn parser_parse_module_different_doc_indentations() {
    assert_eq!(parse("\n\"\" One doc\n \" Ignored comment\n"), module(Some("One doc"), vec![]));
}

#[test]
fn mod_parse_module_different_doc_indentations() {
    assert_eq!(parse("\n\"\" One doc\n \" Ignored comment\n"), module(Some("One doc"), vec![]));
}

#[test]
fn parser_parse_module_two_funcs() {
    assert_eq!(parse("func FuncOne() | endfunc\nfunc FuncTwo() | endfunc"), module(None, vec![function("FuncOne", &[], &[], None), function("FuncTwo", &[], &[], None)]));
}

#[test]
fn mod_parse_module_two_funcs() {
    assert_eq!(parse("func FuncOne() | endfunc\nfunc FuncTwo() | endfunc"), module(None, vec![function("FuncOne", &[], &[], None), function("FuncTwo", &[], &[], None)]));
}

#[test]
fn parser_parse_module_autoload_funcname() {
    assert_eq!(parse("func foo#bar#Baz() | endfunc"), module(None, vec![function("foo#bar#Baz", &[], &[], None)]));
}

#[test]
fn mod_parse_module_autoload_funcname() {
    assert_eq!(parse("func foo#bar#Baz() | endfunc"), module(None, vec![function("foo#bar#Baz", &[], &[], None)]));
}

#[test]
fn parser_parse_module_scriptlocal_funcname() {
    assert_eq!(parse("func s:SomeFunc() | endfunc"), module(None, vec![function("s:SomeFunc", &[], &[], None)]));
}

#[test]
fn mod_parse_module_scriptlocal_funcname() {
    assert_eq!(parse("func s:SomeFunc() | endfunc"), module(None, vec![function("s:SomeFunc", &[], &[], None)]));
}

#[test]
fn parser_parse_module_nested_func() {
    assert_eq!(parse("\nfunction Outer()\n  let l:thing = {}\n  function l:thing.Inner()\n    return 1\n  endfunction\n  return l:thing\nendfunction\n"), module(None, vec![function("Outer", &[], &[], None)]));
}

#[test]
fn mod_parse_module_nested_func() {
    assert_eq!(parse("\nfunction Outer()\n  let l:thing = {}\n  function l:thing.Inner()\n    return 1\n  endfunction\n  return l:thing\nendfunction\n"), module(None, vec![function("Outer", &[], &[], None)]));
}

#[test]
fn parse_module_one_command() {
    assert_eq!(parse("command SomeCommand echo \"Hi\""), module(None, vec![VimNode::Command { name: "SomeCommand".into(), modifiers: vec![], doc: None }]));
}

#[test]
fn parse_module_command_with_doc_and_modifiers() {
    assert_eq!(parse("\n\"\"\n\" Do a complex thing.\ncommand -range -bang -nargs=+ -bar SomeComplexCommand call SomeHelper() | echo 'Hi'\n"), module(None, vec![VimNode::Command { name: "SomeComplexCommand".into(), modifiers: strings(&["-range", "-bang", "-nargs=+", "-bar"]), doc: Some("Do a complex thing.".into()) }]));
}

#[test]
fn parse_module_one_variable() {
    assert_eq!(parse("let somevar = 1"), module(None, vec![variable("somevar", "1", None)]));
}

#[test]
fn parse_module_variables_with_doc() {
    assert_eq!(parse("\n\"\"\n\" Doc for first variable.\nlet g:somevar = 'xyz' | let s:othervar = system(\"ls\")\n"), module(None, vec![variable("g:somevar", "'xyz'", Some("Doc for first variable.")), variable("s:othervar", "system(\"ls\")", None)]));
}

#[test]
fn parser_parse_module_one_flag() {
    assert_eq!(parse("call Flag('someflag', 'somedefault')"), module(None, vec![flag("someflag", Some("'somedefault'"), None)]));
}

#[test]
fn mod_parse_module_one_flag() {
    assert_eq!(parse("call Flag('someflag', 'somedefault')"), module(None, vec![flag("someflag", Some("'somedefault'"), None)]));
}

#[test]
fn parser_parse_module_flag_without_default() {
    assert_eq!(parse("call Flag('someflag')"), module(None, vec![flag("someflag", None, None)]));
}

#[test]
fn mod_parse_module_flag_without_default() {
    assert_eq!(parse("call Flag('someflag')"), module(None, vec![flag("someflag", None, None)]));
}

#[test]
fn parser_parse_module_flag_with_doc() {
    assert_eq!(parse("\n\"\"\n\" A flag for the value of a thing.\ncall Flag('someflag', 'somedefault')\n"), module(None, vec![flag("someflag", Some("'somedefault'"), Some("A flag for the value of a thing."))]));
}

#[test]
fn mod_parse_module_flag_with_doc() {
    assert_eq!(parse("\n\"\"\n\" A flag for the value of a thing.\ncall Flag('someflag', 'somedefault')\n"), module(None, vec![flag("someflag", Some("'somedefault'"), Some("A flag for the value of a thing."))]));
}

#[test]
fn mod_parse_module_flag_s_plugin() {
    assert_eq!(parse("\nlet [s:plugin, s:enter] = plugin#Enter(expand('<sfile>:p'))\nif !s:enter\n  finish\nendif\ncall s:plugin.Flag('someflag', 'somedefault')\n"), module(None, vec![variable("s:plugin", "plugin#Enter(expand('<sfile>:p'))[0]", None), variable("s:enter", "plugin#Enter(expand('<sfile>:p'))[1]", None), flag("someflag", Some("'somedefault'"), None)]));
}

#[test]
fn parser_parse_module_flag_name_special_chars() {
    assert_eq!(parse(r#"call Flag("some\"'flag֎")"#), module(None, vec![flag(r#"some"'flag֎"#, None, None)]));
}

#[test]
fn mod_parse_module_flag_name_special_chars() {
    assert_eq!(parse(r#"call Flag("some\"'flag֎")"#), module(None, vec![flag(r#"some"'flag֎"#, None, None)]));
}

#[test]
fn parse_module_comment_and_call() {
    assert_eq!(parse("\n\" Some normal comment.\ncall SomeFunc()\n"), module(None, vec![]));
}

#[test]
fn parser_parse_module_unicode() {
    assert_eq!(parse("\n\"\"\n\" Fun stuff 🎈 ( ͡° ͜ʖ ͡°)\n"), module(Some("Fun stuff 🎈 ( ͡° ͜ʖ ͡°)"), vec![]));
}

#[test]
fn mod_parse_module_unicode() {
    assert_eq!(parse("\n\"\"\n\" Fun stuff 🎈 ( ͡° ͜ʖ ͡°)\n"), module(Some("Fun stuff 🎈 ( ͡° ͜ʖ ͡°)"), vec![]));
}
