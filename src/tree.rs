use vstd::prelude::*;
use vstd::string::*;

verus! {

/// The node kinds of the vim grammar that the extraction reads.
#[derive(PartialEq, Eq, Structural, Clone, Copy, Debug)]
pub enum NodeKind {
    Comment,
    FunctionDefinition,
    FunctionDeclaration,
    FunctionKeyword,
    EndFunctionKeyword,
    Body,
    Parameters,
    Identifier,
    Spread,
    CommandStatement,
    CommandAttribute,
    LetStatement,
    LetKeyword,
    ListAssignment,
    List,
    AssignOperator,
    CallStatement,
    CallExpression,
    StringLiteral,
    SyntaxError,
    /// Any kind the extraction does not look at.
    Other,
}

/// The grammar's name for each kind that the extraction reads.
pub open spec fn kind_named(s: Seq<char>) -> NodeKind {
    if s == "comment"@ {
        NodeKind::Comment
    } else if s == "function_definition"@ {
        NodeKind::FunctionDefinition
    } else if s == "function_declaration"@ {
        NodeKind::FunctionDeclaration
    } else if s == "function"@ {
        NodeKind::FunctionKeyword
    } else if s == "endfunction"@ {
        NodeKind::EndFunctionKeyword
    } else if s == "body"@ {
        NodeKind::Body
    } else if s == "parameters"@ {
        NodeKind::Parameters
    } else if s == "identifier"@ {
        NodeKind::Identifier
    } else if s == "spread"@ {
        NodeKind::Spread
    } else if s == "command_statement"@ {
        NodeKind::CommandStatement
    } else if s == "command_attribute"@ {
        NodeKind::CommandAttribute
    } else if s == "let_statement"@ {
        NodeKind::LetStatement
    } else if s == "let"@ {
        NodeKind::LetKeyword
    } else if s == "list_assignment"@ {
        NodeKind::ListAssignment
    } else if s == "list"@ {
        NodeKind::List
    } else if s == "="@ {
        NodeKind::AssignOperator
    } else if s == "call_statement"@ {
        NodeKind::CallStatement
    } else if s == "call_expression"@ {
        NodeKind::CallExpression
    } else if s == "string_literal"@ {
        NodeKind::StringLiteral
    } else if s == "ERROR"@ {
        NodeKind::SyntaxError
    } else {
        NodeKind::Other
    }
}

/// Character-wise string equality.
pub fn str_eq(a: &str, b: &str) -> (r: bool)
    ensures
        r == (a@ == b@),
{
    let n = a.unicode_len();
    if n != b.unicode_len() {
        return false;
    }
    let mut i: usize = 0;
    while i < n
        invariant
            n == a@.len(),
            n == b@.len(),
            i <= n,
            a@.subrange(0, i as int) == b@.subrange(0, i as int),
        decreases n - i,
    {
        if a.get_char(i) != b.get_char(i) {
            return false;
        }
        assert(a@.subrange(0, i + 1) == a@.subrange(0, i as int).push(a@[i as int]));
        assert(b@.subrange(0, i + 1) == b@.subrange(0, i as int).push(b@[i as int]));
        i = i + 1;
    }
    assert(a@ == a@.subrange(0, n as int));
    assert(b@ == b@.subrange(0, n as int));
    true
}

impl NodeKind {
    /// The kind that the grammar calls `name`; `Other` for any kind not read.
    pub fn from_name(name: &str) -> (k: NodeKind)
        ensures
            k == kind_named(name@),
    {
        if str_eq(name, "comment") {
            NodeKind::Comment
        } else if str_eq(name, "function_definition") {
            NodeKind::FunctionDefinition
        } else if str_eq(name, "function_declaration") {
            NodeKind::FunctionDeclaration
        } else if str_eq(name, "function") {
            NodeKind::FunctionKeyword
        } else if str_eq(name, "endfunction") {
            NodeKind::EndFunctionKeyword
        } else if str_eq(name, "body") {
            NodeKind::Body
        } else if str_eq(name, "parameters") {
            NodeKind::Parameters
        } else if str_eq(name, "identifier") {
            NodeKind::Identifier
        } else if str_eq(name, "spread") {
            NodeKind::Spread
        } else if str_eq(name, "command_statement") {
            NodeKind::CommandStatement
        } else if str_eq(name, "command_attribute") {
            NodeKind::CommandAttribute
        } else if str_eq(name, "let_statement") {
            NodeKind::LetStatement
        } else if str_eq(name, "let") {
            NodeKind::LetKeyword
        } else if str_eq(name, "list_assignment") {
            NodeKind::ListAssignment
        } else if str_eq(name, "list") {
            NodeKind::List
        } else if str_eq(name, "=") {
            NodeKind::AssignOperator
        } else if str_eq(name, "call_statement") {
            NodeKind::CallStatement
        } else if str_eq(name, "call_expression") {
            NodeKind::CallExpression
        } else if str_eq(name, "string_literal") {
            NodeKind::StringLiteral
        } else if str_eq(name, "ERROR") {
            NodeKind::SyntaxError
        } else {
            NodeKind::Other
        }
    }
}

/// A syntax-tree node held as plain values: its kind, the field under which
/// its parent holds it, whether the grammar names it, its source text, the
/// row and column where it starts, and its children in source order.
pub struct TreeNode {
    pub kind: NodeKind,
    pub field_name: Option<String>,
    pub is_named: bool,
    pub text: String,
    pub row: usize,
    pub column: usize,
    pub children: Vec<TreeNode>,
}

impl TreeNode {
    pub fn is_kind(&self, kind: NodeKind) -> (r: bool)
        ensures
            r == (self.kind == kind),
    {
        self.kind == kind
    }

    pub fn get_text(&self) -> (r: &str)
        ensures
            r@ == self.text@,
    {
        self.text.as_str()
    }
}

} // verus!
