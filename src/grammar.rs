use vstd::prelude::*;
use vstd::string::*;

use crate::data::VimModule;
use crate::module::{describes, diagnostics, failing_indices, module_of, parse_module_tree, Diagnostic};
use crate::tree::{str_eq, NodeKind, TreeNode};

verus! {

#[verifier::external_type_specification]
#[verifier::external_body]
pub struct ExParser(tree_sitter::Parser);

#[verifier::external_type_specification]
#[verifier::external_body]
pub struct ExTree(tree_sitter::Tree);

#[verifier::external_type_specification]
#[verifier::external_body]
pub struct ExNode<'tree>(tree_sitter::Node<'tree>);

#[verifier::external_type_specification]
#[verifier::external_body]
pub struct ExLanguage(tree_sitter::Language);

#[verifier::external_type_specification]
#[verifier::external_body]
pub struct ExLanguageError(tree_sitter::LanguageError);

#[verifier::external_type_specification]
#[verifier::external_body]
pub struct ExIoError(std::io::Error);

/// The failures of parsing a plugin or module.
#[derive(Debug)]
pub enum Error {
    /// Any other failure, with its message.
    UnknownError(String),
    /// The grammar does not suit the parser's version.
    GrammarError(tree_sitter::LanguageError),
    /// The parser produced no tree.
    ParsingFailure,
    /// Reading a file or a directory failed.
    IOError(std::io::Error),
}

/// Relies on `tree_sitter_vim::language`: the vim grammar.
#[verifier::external_body]
pub fn vim_language() -> tree_sitter::Language {
    tree_sitter_vim::language()
}

/// Relies on `tree_sitter::Parser::new`: a parser without a language.
#[verifier::external_body]
fn new_parser() -> tree_sitter::Parser {
    tree_sitter::Parser::new()
}

/// Relies on `tree_sitter::Parser::set_language`, which fails when the
/// grammar was generated for another version of tree-sitter.
#[verifier::external_body]
fn set_language(parser: &mut tree_sitter::Parser, language: &tree_sitter::Language) -> Result<
    (),
    tree_sitter::LanguageError,
> {
    parser.set_language(language)
}

/// Relies on `tree_sitter::Parser::parse`: the syntax tree of `code`, or
/// none when parsing fails.
#[verifier::external_body]
fn parse_source(parser: &mut tree_sitter::Parser, code: &str) -> Option<tree_sitter::Tree> {
    parser.parse(code, None)
}

/// Relies on `tree_sitter::Tree::root_node`.
#[verifier::external_body]
fn root_node<'tree>(tree: &'tree tree_sitter::Tree) -> tree_sitter::Node<'tree> {
    tree.root_node()
}

/// Relies on `tree_sitter::Node::kind`: the grammar's name of the node's kind.
#[verifier::external_body]
fn node_kind(node: &tree_sitter::Node) -> &'static str {
    node.kind()
}

/// Relies on `tree_sitter::Node::is_named`.
#[verifier::external_body]
fn node_is_named(node: &tree_sitter::Node) -> bool {
    node.is_named()
}

/// Relies on `tree_sitter::Node::start_position`: the row and column where
/// the node starts.
#[verifier::external_body]
fn node_start(node: &tree_sitter::Node) -> (usize, usize) {
    let p = node.start_position();
    (p.row, p.column)
}

/// Relies on `tree_sitter::Node::child_count`.
#[verifier::external_body]
fn node_child_count(node: &tree_sitter::Node) -> usize {
    node.child_count()
}

/// Relies on `tree_sitter::Node::child`: the `i`th child, if any.
#[verifier::external_body]
fn node_child<'tree>(node: &tree_sitter::Node<'tree>, i: usize) -> Option<
    tree_sitter::Node<'tree>,
> {
    node.child(i)
}

/// Relies on `tree_sitter::Node::field_name_for_child`: the field under
/// which the node holds its `i`th child, if any.
#[verifier::external_body]
fn node_field_name(node: &tree_sitter::Node, i: u32) -> Option<&'static str> {
    node.field_name_for_child(i)
}

/// A contiguous run of the characters of `code`.
pub open spec fn is_piece(t: Seq<char>, code: Seq<char>) -> bool {
    exists|a: int, b: int| 0 <= a <= b <= code.len() && t == code.subrange(a, b)
}

/// Relies on `tree_sitter::Node::byte_range` and `str::get`: the source
/// text the node spans, a slice of `code`, if that range lies within
/// `code` on character boundaries.
#[verifier::external_body]
fn node_text(node: &tree_sitter::Node, code: &str) -> (r: Option<String>)
    ensures
        r matches Some(t) ==> is_piece(t@, code@),
{
    code.get(node.byte_range()).map(|t| t.to_string())
}

/// Relies on `tree_sitter::Node::descendant_count`: the number of nodes in
/// the node's subtree.
#[verifier::external_body]
fn node_descendant_count(node: &tree_sitter::Node) -> usize {
    node.descendant_count()
}

/// Copies a tree-sitter node and, `depth` levels down, its descendants into
/// a [TreeNode].
fn copy_node(node: &tree_sitter::Node, code: &str, field_name: Option<String>, depth: usize) -> (r:
    TreeNode)
    ensures
        r.field_name == field_name,
        is_piece(r.text@, code@),
    decreases depth,
{
    let kind = NodeKind::from_name(node_kind(node));
    let (row, column) = node_start(node);
    let text = match node_text(node, code) {
        Some(t) => t,
        None => {
            let empty = String::new();
            assert(empty@ == code@.subrange(0, 0));
            empty
        },
    };
    let mut children: Vec<TreeNode> = Vec::new();
    if depth > 0 {
        let count = node_child_count(node);
        let mut i: usize = 0;
        while i < count
            invariant
                depth > 0,
            decreases count - i,
        {
            match node_child(node, i) {
                Some(child) => {
                    let field = match node_field_name(node, i as u32) {
                        Some(f) => Some(String::from_str(f)),
                        None => None,
                    };
                    children.push(copy_node(&child, code, field, depth - 1));
                },
                None => {},
            }
            i = i + 1;
        }
    }
    TreeNode { kind, field_name, is_named: node_is_named(node), text, row, column, children }
}

/// The main entry point for parsing plugins.
pub struct VimParser {
    parser: tree_sitter::Parser,
}

impl VimParser {
    /// A parser for vimscript; fails when the grammar does not suit the
    /// parser's version.
    pub fn new() -> (r: Result<VimParser, Error>)
        ensures
            r is Err ==> r->Err_0 is GrammarError,
    {
        let mut parser = new_parser();
        match set_language(&mut parser, &vim_language()) {
            Ok(()) => Ok(VimParser { parser }),
            Err(e) => Err(Error::GrammarError(e)),
        }
    }

    /// Parses the source text of a module into a [TreeNode] whose children
    /// are the top-level statements. Whatever tree the parser produced, the
    /// root's text is a piece of `code`.
    pub fn parse_tree(&mut self, code: &str) -> (r: Option<TreeNode>)
        ensures
            r matches Some(t) ==> t.field_name is None && is_piece(t.text@, code@),
    {
        match parse_source(&mut self.parser, code) {
            Some(tree) => {
                let root = root_node(&tree);
                let depth = node_descendant_count(&root);
                Some(copy_node(&root, code, None, depth))
            },
            None => None,
        }
    }

    /// Parses a module and reports the top-level statements that yield no
    /// node although they should (see [Diagnostic]): whatever tree the parser
    /// produced, the module is the one that its top-level statements make,
    /// and the diagnostics are theirs.
    pub fn parse_module_str_with_diagnostics(&mut self, code: &str) -> (r: Result<
        (VimModule, Vec<Diagnostic>),
        Error,
    >)
        ensures
            match r {
                Ok((m, ds)) => m@.path is None && exists|cs: Seq<TreeNode>|
                    m@ == module_of(cs) && ds@.map_values(|d: Diagnostic| d.index as int)
                        == failing_indices(cs, cs.len() as int) && forall|t: int|
                        0 <= t < ds@.len() ==> describes(#[trigger] ds@[t], cs),
                Err(e) => e is ParsingFailure,
            },
    {
        match self.parse_tree(code) {
            Some(root) => {
                let m = parse_module_tree(&root.children);
                let ds = diagnostics(&root.children);
                Ok((m, ds))
            },
            None => Err(Error::ParsingFailure),
        }
    }

    /// Parses and returns metadata for a single module (a.k.a. file) of
    /// vimscript code: whatever tree the parser produced, the module is the
    /// one that its top-level statements make.
    pub fn parse_module_str(&mut self, code: &str) -> (r: Result<VimModule, Error>)
        ensures
            match r {
                Ok(m) => m@.path is None && exists|cs: Seq<TreeNode>| m@ == module_of(cs),
                Err(e) => e is ParsingFailure,
            },
    {
        match self.parse_module_str_with_diagnostics(code) {
            Ok((m, _)) => Ok(m),
            Err(e) => Err(e),
        }
    }
}

/// The grammar's names of the kinds that the extraction reads (see `kind_named`).
pub open spec fn used_kind_names() -> Seq<Seq<char>> {
    seq![
        "comment"@,
        "function_definition"@,
        "function_declaration"@,
        "function"@,
        "endfunction"@,
        "body"@,
        "parameters"@,
        "identifier"@,
        "spread"@,
        "command_statement"@,
        "command_attribute"@,
        "let_statement"@,
        "let"@,
        "list_assignment"@,
        "list"@,
        "="@,
        "call_statement"@,
        "call_expression"@,
        "string_literal"@,
        "ERROR"@,
    ]
}

/// The grammar's names of the kinds that the extraction reads.
pub fn used_kinds() -> (r: Vec<&'static str>)
    ensures
        r@.map_values(|s: &str| s@) == used_kind_names(),
{
    let r = vec![
        "comment",
        "function_definition",
        "function_declaration",
        "function",
        "endfunction",
        "body",
        "parameters",
        "identifier",
        "spread",
        "command_statement",
        "command_attribute",
        "let_statement",
        "let",
        "list_assignment",
        "list",
        "=",
        "call_statement",
        "call_expression",
        "string_literal",
        "ERROR",
    ];
    assert(r@.map_values(|s: &str| s@) =~= used_kind_names());
    r
}

/// The name of kind `id` in the vim grammar, as
/// `tree_sitter::Language::node_kind_for_id` gives it.
pub uninterp spec fn vim_kind_name(id: u16) -> Option<Seq<char>>;

/// Relies on `tree_sitter_vim::language` and
/// `tree_sitter::Language::node_kind_for_id`: the name of kind `id` in the
/// vim grammar, if it has one.
#[verifier::external_body]
fn vim_kind_name_of(id: u16) -> (r: Option<&'static str>)
    ensures
        match r {
            Some(n) => vim_kind_name(id) == Some(n@),
            None => vim_kind_name(id) is None,
        },
{
    tree_sitter_vim::language().node_kind_for_id(id)
}

/// The vim grammar names the kind `name`.
pub open spec fn named_by_vim(name: Seq<char>) -> bool {
    exists|id: u16| vim_kind_name(id) == Some(name)
}

/// The names among `names[..k]` that the vim grammar does not name, in order.
pub open spec fn missing_among(names: Seq<Seq<char>>, k: int) -> Seq<Seq<char>>
    decreases k,
{
    if k <= 0 {
        Seq::empty()
    } else {
        missing_among(names, k - 1) + if named_by_vim(names[k - 1]) {
            Seq::empty()
        } else {
            seq![names[k - 1]]
        }
    }
}

/// The kinds that the extraction reads but the vim grammar does not name,
/// in the order of [used_kinds]: the grammar suits the extraction when
/// there are none.
pub fn missing_kinds() -> (r: Vec<&'static str>)
    ensures
        r@.map_values(|s: &str| s@) == missing_among(
            used_kind_names(),
            used_kind_names().len() as int,
        ),
{
    let used = used_kinds();
    let ghost names = used_kind_names();
    let mut found: Vec<bool> = Vec::new();
    let mut k: usize = 0;
    while k < used.len()
        invariant
            k <= used@.len(),
            found@.len() == k,
            forall|t: int| 0 <= t < k ==> !found@[t],
        decreases used@.len() - k,
    {
        found.push(false);
        k = k + 1;
    }
    let mut id: u32 = 0;
    while id < 65536
        invariant
            id <= 65536,
            used@.map_values(|s: &str| s@) == names,
            names == used_kind_names(),
            found@.len() == used@.len(),
            forall|t: int|
                0 <= t < found@.len() ==> (#[trigger] found@[t] <==> exists|x: u16|
                    (x as int) < id && vim_kind_name(x) == Some(names[t])),
        decreases 65536 - id,
    {
        let name = vim_kind_name_of(id as u16);
        let ghost before = found@;
        let mut t: usize = 0;
        while t < used.len()
            invariant
                t <= used@.len(),
                id < 65536,
                match name {
                    Some(n) => vim_kind_name(id as u16) == Some(n@),
                    None => vim_kind_name(id as u16) is None,
                },
                used@.map_values(|s: &str| s@) == names,
                found@.len() == used@.len(),
                before.len() == used@.len(),
                forall|u: int|
                    0 <= u < t ==> (#[trigger] found@[u] <==> (before[u] || vim_kind_name(
                        id as u16,
                    ) == Some(names[u]))),
                forall|u: int| t <= u < found@.len() ==> #[trigger] found@[u] == before[u],
            decreases used@.len() - t,
        {
            assert(names[t as int] == used@[t as int]@);
            match name {
                Some(n) => {
                    if !found[t] && str_eq(n, used[t]) {
                        found.set(t, true);
                    }
                },
                None => {},
            }
            t = t + 1;
        }
        assert forall|u: int| 0 <= u < found@.len() implies (#[trigger] found@[u] <==> exists|x: u16|
            (x as int) < id + 1 && vim_kind_name(x) == Some(names[u])) by {
            if found@[u] && !before[u] {
                assert(vim_kind_name(id as u16) == Some(names[u]));
                assert((id as u16) as int == id);
            }
            if !found@[u] {
                assert forall|x: u16| (x as int) < id + 1 implies vim_kind_name(x) != Some(
                    names[u],
                ) by {
                    if (x as int) == id {
                        assert(x == id as u16);
                    }
                }
            }
        }
        id = id + 1;
    }
    let mut r: Vec<&'static str> = Vec::new();
    let mut k: usize = 0;
    while k < used.len()
        invariant
            k <= used@.len(),
            used@.map_values(|s: &str| s@) == names,
            names == used_kind_names(),
            found@.len() == used@.len(),
            forall|t: int|
                0 <= t < found@.len() ==> (#[trigger] found@[t] <==> exists|x: u16|
                    (x as int) < 65536 && vim_kind_name(x) == Some(names[t])),
            r@.map_values(|s: &str| s@) == missing_among(names, k as int),
        decreases used@.len() - k,
    {
        assert(names[k as int] == used@[k as int]@);
        assert(found@[k as int] <==> named_by_vim(names[k as int])) by {
            if named_by_vim(names[k as int]) {
                let x = choose|x: u16| vim_kind_name(x) == Some(names[k as int]);
                assert((x as int) < 65536);
            }
        }
        if !found[k] {
            let ghost prev = r@;
            r.push(used[k]);
            assert(r@.map_values(|s: &str| s@) =~= prev.map_values(|s: &str| s@).push(
                names[k as int],
            ));
        } else {
            assert(missing_among(names, k + 1) =~= missing_among(names, k as int));
        }
        k = k + 1;
    }
    r
}

} // verus!
