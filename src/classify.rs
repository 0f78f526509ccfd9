use vstd::prelude::*;
use vstd::string::*;

use crate::data::{clone_opt, opt_view, strings_view, NodeView, VimNode};
use crate::tree::{str_eq, NodeKind, TreeNode};

verus! {

broadcast use vstd::std_specs::vec::group_vec_axioms;

pub open spec fn opt_node_view(o: Option<VimNode>) -> Option<NodeView> {
    match o {
        Some(n) => Some(n@),
        None => None,
    }
}

/// The first index at or after `from` whose node has kind `k`; `cs.len()` if none.
pub open spec fn find_kind_from(cs: Seq<TreeNode>, k: NodeKind, from: int) -> int
    decreases cs.len() - from,
{
    if from >= cs.len() {
        cs.len() as int
    } else if cs[from].kind == k {
        from
    } else {
        find_kind_from(cs, k, from + 1)
    }
}

pub open spec fn has_field(n: TreeNode, f: Seq<char>) -> bool {
    opt_view(n.field_name) == Some(f)
}

/// The first index at or after `from` whose node sits under field `f`; `cs.len()` if none.
pub open spec fn find_field_from(cs: Seq<TreeNode>, f: Seq<char>, from: int) -> int
    decreases cs.len() - from,
{
    if from >= cs.len() {
        cs.len() as int
    } else if has_field(cs[from], f) {
        from
    } else {
        find_field_from(cs, f, from + 1)
    }
}

/// The first index at or after `from` whose node is named; `cs.len()` if none.
pub open spec fn find_named_from(cs: Seq<TreeNode>, from: int) -> int
    decreases cs.len() - from,
{
    if from >= cs.len() {
        cs.len() as int
    } else if cs[from].is_named {
        from
    } else {
        find_named_from(cs, from + 1)
    }
}

fn find_kind(cs: &Vec<TreeNode>, k: NodeKind, from: usize) -> (r: usize)
    requires
        from <= cs@.len(),
    ensures
        r as int == find_kind_from(cs@, k, from as int),
        from <= r <= cs@.len(),
{
    let mut i = from;
    while i < cs.len()
        invariant
            from <= i <= cs@.len(),
            find_kind_from(cs@, k, from as int) == find_kind_from(cs@, k, i as int),
        decreases cs@.len() - i,
    {
        if cs[i].kind == k {
            return i;
        }
        i = i + 1;
    }
    i
}

fn find_field(cs: &Vec<TreeNode>, f: &str, from: usize) -> (r: usize)
    requires
        from <= cs@.len(),
    ensures
        r as int == find_field_from(cs@, f@, from as int),
        from <= r <= cs@.len(),
{
    let mut i = from;
    while i < cs.len()
        invariant
            from <= i <= cs@.len(),
            find_field_from(cs@, f@, from as int) == find_field_from(cs@, f@, i as int),
        decreases cs@.len() - i,
    {
        let hit = match &cs[i].field_name {
            Some(name) => str_eq(name.as_str(), f),
            None => false,
        };
        if hit {
            return i;
        }
        i = i + 1;
    }
    i
}

fn find_named(cs: &Vec<TreeNode>, from: usize) -> (r: usize)
    requires
        from <= cs@.len(),
    ensures
        r as int == find_named_from(cs@, from as int),
        from <= r <= cs@.len(),
{
    let mut i = from;
    while i < cs.len()
        invariant
            from <= i <= cs@.len(),
            find_named_from(cs@, from as int) == find_named_from(cs@, i as int),
        decreases cs@.len() - i,
    {
        if cs[i].is_named {
            return i;
        }
        i = i + 1;
    }
    i
}

impl TreeNode {
    /// The children, in source order.
    pub fn children(&self) -> (r: &Vec<TreeNode>)
        ensures
            r == &self.children,
    {
        &self.children
    }

    /// The first child under the field `name`, if any.
    pub fn child_by_field_name(&self, name: &str) -> (r: Option<&TreeNode>)
        ensures
            match r {
                Some(c) => {
                    &&& find_field_from(self.children@, name@, 0) < self.children@.len()
                    &&& *c == self.children@[find_field_from(self.children@, name@, 0)]
                },
                None => find_field_from(self.children@, name@, 0) == self.children@.len(),
            },
    {
        let x = find_field(&self.children, name, 0);
        if x < self.children.len() {
            Some(&self.children[x])
        } else {
            None
        }
    }

    /// The `i`th of the named children, if there are that many.
    pub fn named_child(&self, i: usize) -> (r: Option<&TreeNode>)
        ensures
            match r {
                Some(c) => {
                    &&& i < named_children_of(*self).len()
                    &&& *c == self.children@[named_children_of(*self)[i as int]]
                },
                None => i >= named_children_of(*self).len(),
            },
    {
        let named = named_positions(&self.children);
        if i < named.len() {
            assert(named_children_of(*self)[i as int] == named@[i as int] as int);
            Some(&self.children[named[i]])
        } else {
            None
        }
    }
}

/// Which children's texts a declaration collects.
#[derive(PartialEq, Eq, Structural, Clone, Copy)]
pub enum Select {
    /// Qualifiers of a function header: anything but its keywords and its declaration.
    Modifiers,
    /// Parameters of a function: identifiers and the variadic marker.
    Arguments,
    /// Attributes of a command.
    Attributes,
}

pub open spec fn selects(s: Select, k: NodeKind) -> bool {
    match s {
        Select::Modifiers => !(k == NodeKind::FunctionKeyword || k == NodeKind::EndFunctionKeyword
            || k == NodeKind::FunctionDeclaration),
        Select::Arguments => k == NodeKind::Identifier || k == NodeKind::Spread,
        Select::Attributes => k == NodeKind::CommandAttribute,
    }
}

fn selects_kind(s: Select, k: NodeKind) -> (r: bool)
    ensures
        r == selects(s, k),
{
    match s {
        Select::Modifiers => !(k == NodeKind::FunctionKeyword || k == NodeKind::EndFunctionKeyword
            || k == NodeKind::FunctionDeclaration),
        Select::Arguments => k == NodeKind::Identifier || k == NodeKind::Spread,
        Select::Attributes => k == NodeKind::CommandAttribute,
    }
}

/// The texts, in order, of the nodes among `cs[..k]` that `s` selects.
pub open spec fn texts_where(cs: Seq<TreeNode>, k: int, s: Select) -> Seq<Seq<char>>
    decreases k,
{
    if k <= 0 {
        Seq::empty()
    } else {
        texts_where(cs, k - 1, s) + if selects(s, cs[k - 1].kind) {
            seq![cs[k - 1].text@]
        } else {
            Seq::empty()
        }
    }
}

fn collect_texts(cs: &Vec<TreeNode>, end: usize, s: Select) -> (r: Vec<String>)
    requires
        end <= cs@.len(),
    ensures
        strings_view(r@) == texts_where(cs@, end as int, s),
{
    let mut r: Vec<String> = Vec::new();
    let mut i: usize = 0;
    while i < end
        invariant
            i <= end <= cs@.len(),
            strings_view(r@) == texts_where(cs@, i as int, s),
        decreases end - i,
    {
        if selects_kind(s, cs[i].kind) {
            let t = cs[i].text.clone();
            let ghost before = r@;
            r.push(t);
            assert(strings_view(r@) =~= strings_view(before) + seq![t@]);
        } else {
            assert(texts_where(cs@, i + 1, s) =~= texts_where(cs@, i as int, s));
        }
        i = i + 1;
    }
    r
}

/// The index of the last function declaration among `cs[..k]`, if any.
pub open spec fn last_declaration(cs: Seq<TreeNode>, k: int) -> Option<int>
    decreases k,
{
    if k <= 0 {
        None
    } else if cs[k - 1].kind == NodeKind::FunctionDeclaration {
        Some(k - 1)
    } else {
        last_declaration(cs, k - 1)
    }
}

/// The parameter tokens of a function declaration.
pub open spec fn function_args(decl: TreeNode) -> Seq<Seq<char>> {
    let dc = decl.children@;
    let p = find_kind_from(dc, NodeKind::Parameters, 0);
    if p < dc.len() {
        texts_where(dc[p].children@, dc[p].children@.len() as int, Select::Arguments)
    } else {
        Seq::empty()
    }
}

/// A function definition: its name from the declaration's `name` field, its
/// parameters, and everything between keyword and body as modifiers; none
/// when the declaration or its name is missing or the name is empty.
pub open spec fn function_view(n: TreeNode, doc: Option<Seq<char>>) -> Option<NodeView> {
    let cs = n.children@;
    let b = find_kind_from(cs, NodeKind::Body, 0);
    match last_declaration(cs, b) {
        None => None,
        Some(d) => {
            let dc = cs[d].children@;
            let x = find_field_from(dc, "name"@, 0);
            if x < dc.len() && dc[x].text@.len() > 0 {
                Some(
                    NodeView::Function {
                        name: dc[x].text@,
                        args: function_args(cs[d]),
                        modifiers: texts_where(cs, b, Select::Modifiers),
                        doc,
                    },
                )
            } else {
                None
            }
        },
    }
}

pub fn get_func_node(n: &TreeNode, doc: &Option<String>) -> (r: Option<VimNode>)
    ensures
        opt_node_view(r) == function_view(*n, opt_view(*doc)),
{
    let cs = &n.children;
    let b = find_kind(cs, NodeKind::Body, 0);
    let mut k = b;
    while k > 0
        invariant
            k <= b <= cs@.len(),
            last_declaration(cs@, b as int) == last_declaration(cs@, k as int),
        ensures
            k == 0 || cs@[k - 1].kind == NodeKind::FunctionDeclaration,
            last_declaration(cs@, b as int) == last_declaration(cs@, k as int),
        decreases k,
    {
        if cs[k - 1].kind == NodeKind::FunctionDeclaration {
            break;
        }
        k = k - 1;
    }
    if k == 0 {
        return None;
    }
    let decl = &cs[k - 1];
    let name = match decl.child_by_field_name("name") {
        Some(ident) => {
            if ident.text.as_str().unicode_len() == 0 {
                return None;
            }
            ident.text.clone()
        },
        None => {
            return None;
        },
    };
    let dc = &decl.children;
    let p = find_kind(dc, NodeKind::Parameters, 0);
    let args = if p < dc.len() {
        collect_texts(&dc[p].children, dc[p].children.len(), Select::Arguments)
    } else {
        let none: Vec<String> = Vec::new();
        assert(strings_view(none@) =~= Seq::empty());
        none
    };
    assert(strings_view(args@) == function_args(cs@[k - 1]));
    let modifiers = collect_texts(cs, b, Select::Modifiers);
    Some(VimNode::Function { name, args, modifiers, doc: clone_opt(doc) })
}

/// A command definition: its name from the `name` field and its attributes
/// as modifiers; none when the name is missing or empty.
pub open spec fn command_view(n: TreeNode, doc: Option<Seq<char>>) -> Option<NodeView> {
    let cs = n.children@;
    let x = find_field_from(cs, "name"@, 0);
    if x < cs.len() && cs[x].text@.len() > 0 {
        Some(
            NodeView::Command {
                name: cs[x].text@,
                modifiers: texts_where(cs, cs.len() as int, Select::Attributes),
                doc,
            },
        )
    } else {
        None
    }
}

pub fn get_command_node(n: &TreeNode, doc: &Option<String>) -> (r: Option<VimNode>)
    ensures
        opt_node_view(r) == command_view(*n, opt_view(*doc)),
{
    match n.child_by_field_name("name") {
        Some(name) => {
            if name.text.as_str().unicode_len() == 0 {
                return None;
            }
            let cs = n.children();
            let modifiers = collect_texts(cs, cs.len(), Select::Attributes);
            Some(VimNode::Command { name: name.text.clone(), modifiers, doc: clone_opt(doc) })
        },
        None => None,
    }
}

/// The decimal digits of `n`.
pub open spec fn decimal_of(n: nat) -> Seq<char>
    decreases n,
{
    if n < 10 {
        seq!["0123456789"@[n as int]]
    } else {
        decimal_of(n / 10) + seq!["0123456789"@[(n % 10) as int]]
    }
}

/// Renders `n` in decimal.
pub fn decimal(n: usize) -> (r: String)
    ensures
        r@ == decimal_of(n as nat),
    decreases n,
{
    let digits = "0123456789";
    proof {
        reveal_strlit("0123456789");
    }
    if n < 10 {
        String::from_str(digits.substring_char(n, n + 1))
    } else {
        let mut r = decimal(n / 10);
        r.append(digits.substring_char(n % 10, n % 10 + 1));
        r
    }
}

/// The indices, in order, of the named nodes among `cs[..k]`.
pub open spec fn named_indices(cs: Seq<TreeNode>, k: int) -> Seq<int>
    decreases k,
{
    if k <= 0 {
        Seq::empty()
    } else {
        named_indices(cs, k - 1) + if cs[k - 1].is_named {
            seq![k - 1]
        } else {
            Seq::empty()
        }
    }
}

pub open spec fn named_children_of(n: TreeNode) -> Seq<int> {
    named_indices(n.children@, n.children@.len() as int)
}

fn named_positions(cs: &Vec<TreeNode>) -> (r: Vec<usize>)
    ensures
        r@.map_values(|i: usize| i as int) == named_indices(cs@, cs@.len() as int),
        forall|t: int| 0 <= t < r@.len() ==> r@[t] < cs@.len(),
{
    let mut r: Vec<usize> = Vec::new();
    let mut i: usize = 0;
    while i < cs.len()
        invariant
            i <= cs@.len(),
            r@.map_values(|i: usize| i as int) == named_indices(cs@, i as int),
            forall|t: int| 0 <= t < r@.len() ==> r@[t] < i,
        decreases cs@.len() - i,
    {
        if cs[i].is_named {
            let ghost before = r@;
            r.push(i);
            assert(r@.map_values(|i: usize| i as int) =~= before.map_values(|i: usize| i as int)
                + seq![i as int]);
        } else {
            assert(named_indices(cs@, i + 1) =~= named_indices(cs@, i as int));
        }
        i = i + 1;
    }
    r
}

/// The initializer of the `k`th name of a destructuring assignment: the
/// matching element where the right side is a list literal of as many
/// elements, else the right side indexed by `k`.
pub open spec fn destructured_init(rhs: TreeNode, literal: bool, k: int) -> Seq<char> {
    if literal {
        rhs.children@[named_children_of(rhs)[k]].text@
    } else {
        rhs.text@ + "["@ + decimal_of(k as nat) + "]"@
    }
}

/// The variables that an assignment `let lhs = rhs` introduces: one for a
/// plain name, one per name for a destructuring `[a, b, ...]`, none for a
/// compound assignment, a statement of another shape, or an empty name.
pub open spec fn let_view(n: TreeNode, doc: Option<Seq<char>>) -> Seq<NodeView> {
    let cs = n.children@;
    if cs.len() < 4 || cs[0].kind != NodeKind::LetKeyword || cs[2].kind
        != NodeKind::AssignOperator {
        Seq::empty()
    } else if cs[1].kind == NodeKind::ListAssignment {
        let lhs = cs[1];
        let rhs = cs[3];
        let names = named_children_of(lhs);
        let literal = rhs.kind == NodeKind::List && names.len() == named_children_of(rhs).len();
        if exists|k: int| 0 <= k < names.len() && lhs.children@[names[k]].text@.len() == 0 {
            Seq::empty()
        } else {
            Seq::new(
                names.len(),
                |k: int|
                    NodeView::Variable {
                        name: lhs.children@[names[k]].text@,
                        init_value_token: destructured_init(rhs, literal, k),
                        doc,
                    },
            )
        }
    } else if cs[1].text@.len() == 0 {
        Seq::empty()
    } else {
        seq![NodeView::Variable { name: cs[1].text@, init_value_token: cs[3].text@, doc }]
    }
}

pub open spec fn nodes_of(v: Seq<VimNode>) -> Seq<NodeView> {
    v.map_values(|n: VimNode| n@)
}

pub fn get_let_nodes(n: &TreeNode, doc: &Option<String>) -> (r: Vec<VimNode>)
    ensures
        nodes_of(r@) == let_view(*n, opt_view(*doc)),
{
    let cs = &n.children;
    let mut r: Vec<VimNode> = Vec::new();
    if cs.len() < 4 || cs[0].kind != NodeKind::LetKeyword || cs[2].kind
        != NodeKind::AssignOperator {
        assert(nodes_of(r@) =~= Seq::empty());
        return r;
    }
    if cs[1].kind != NodeKind::ListAssignment {
        if cs[1].text.as_str().unicode_len() == 0 {
            assert(nodes_of(r@) =~= Seq::empty());
            return r;
        }
        r.push(
            VimNode::Variable {
                name: cs[1].text.clone(),
                init_value_token: cs[3].text.clone(),
                doc: clone_opt(doc),
            },
        );
        assert(nodes_of(r@) =~= let_view(*n, opt_view(*doc)));
        return r;
    }
    let lhs = &cs[1];
    let rhs = &cs[3];
    let names = named_positions(&lhs.children);
    let values = named_positions(&rhs.children);
    let literal = rhs.kind == NodeKind::List && names.len() == values.len();
    let mut j: usize = 0;
    while j < names.len()
        invariant
            lhs == &n.children@[1],
            cs == &n.children,
            cs@.len() >= 4,
            cs@[0].kind == NodeKind::LetKeyword,
            cs@[2].kind == NodeKind::AssignOperator,
            cs@[1].kind == NodeKind::ListAssignment,
            r@.len() == 0,
            forall|t: int| 0 <= t < names@.len() ==> names@[t] < lhs.children@.len(),
            names@.map_values(|i: usize| i as int) == named_children_of(*lhs),
            j <= names@.len(),
            forall|t: int| 0 <= t < j ==> lhs.children@[names@[t] as int].text@.len() > 0,
        decreases names@.len() - j,
    {
        if lhs.children[names[j]].text.as_str().unicode_len() == 0 {
            assert(named_children_of(*lhs)[j as int] == names@[j as int] as int);
            assert(lhs.children@[named_children_of(*lhs)[j as int]].text@.len() == 0);
            assert(let_view(*n, opt_view(*doc)) =~= Seq::empty());
            assert(nodes_of(r@) =~= Seq::empty());
            return r;
        }
        j = j + 1;
    }
    assert forall|k: int| 0 <= k < named_children_of(*lhs).len() implies lhs.children@[named_children_of(*lhs)[k]].text@.len() > 0 by {
        assert(named_children_of(*lhs)[k] == names@[k] as int);
    }
    let ghost want = let_view(*n, opt_view(*doc));
    let mut k: usize = 0;
    while k < names.len()
        invariant
            k <= names@.len(),
            want == let_view(*n, opt_view(*doc)),
            lhs == &n.children@[1],
            rhs == &n.children@[3],
            cs == &n.children,
            cs@.len() >= 4,
            cs@[0].kind == NodeKind::LetKeyword,
            cs@[2].kind == NodeKind::AssignOperator,
            cs@[1].kind == NodeKind::ListAssignment,
            names@.map_values(|i: usize| i as int) == named_children_of(*lhs),
            values@.map_values(|i: usize| i as int) == named_children_of(*rhs),
            forall|t: int| 0 <= t < names@.len() ==> names@[t] < lhs.children@.len(),
            forall|t: int| 0 <= t < values@.len() ==> values@[t] < rhs.children@.len(),
            literal == (rhs.kind == NodeKind::List && names@.len() == values@.len()),
            want.len() == names@.len(),
            nodes_of(r@) == want.subrange(0, k as int),
        decreases names@.len() - k,
    {
        let init = if literal {
            assert(named_children_of(*rhs)[k as int] == values@[k as int] as int);
            rhs.children[values[k]].text.clone()
        } else {
            let mut s = rhs.text.clone();
            s.append("[");
            s.append(decimal(k).as_str());
            s.append("]");
            s
        };
        assert(named_children_of(*lhs)[k as int] == names@[k as int] as int);
        let ghost before = r@;
        r.push(
            VimNode::Variable {
                name: lhs.children[names[k]].text.clone(),
                init_value_token: init,
                doc: clone_opt(doc),
            },
        );
        assert(nodes_of(r@) =~= nodes_of(before).push(want[k as int]));
        assert(want.subrange(0, k + 1) =~= want.subrange(0, k as int).push(want[k as int]));
        k = k + 1;
    }
    assert(want.subrange(0, names@.len() as int) =~= want);
    r
}

/// The text of the last identifier of `n`'s subtree in pre-order.
pub open spec fn last_identifier(n: TreeNode) -> Option<Seq<char>>
    decreases n, n.children@.len() + 1,
{
    match last_identifier_among(n, n.children@.len() as int) {
        Some(t) => Some(t),
        None => if n.kind == NodeKind::Identifier {
            Some(n.text@)
        } else {
            None
        },
    }
}

/// The text of the last identifier, in pre-order, of the subtrees of `n.children[..k]`.
pub open spec fn last_identifier_among(n: TreeNode, k: int) -> Option<Seq<char>>
    decreases n, k,
{
    if k <= 0 || k > n.children@.len() {
        None
    } else {
        match last_identifier(n.children@[k - 1]) {
            Some(t) => Some(t),
            None => last_identifier_among(n, k - 1),
        }
    }
}

fn find_last_identifier(n: &TreeNode) -> (r: Option<&str>)
    ensures
        match r {
            Some(t) => last_identifier(*n) == Some(t@),
            None => last_identifier(*n) is None,
        },
    decreases n,
{
    let mut k = n.children.len();
    while k > 0
        invariant
            k <= n.children@.len(),
            last_identifier_among(*n, n.children@.len() as int) == last_identifier_among(
                *n,
                k as int,
            ),
        decreases k,
    {
        assert(decreases_to!(*n => n.children@[k - 1]));
        match find_last_identifier(&n.children[k - 1]) {
            Some(t) => {
                return Some(t);
            },
            None => {},
        }
        k = k - 1;
    }
    if n.kind == NodeKind::Identifier {
        Some(n.text.as_str())
    } else {
        None
    }
}

/// The inputs on which `quoted_string::unquote_unchecked` returns: it slices
/// off the last byte of a string that opens with `"`.
pub open spec fn unquote_defined(s: Seq<char>) -> bool {
    s.len() <= 1 || s[0] != '"' || (s.last() as u32) < 128
}

/// Each backslash escapes the character after it; a final lone backslash stays.
pub open spec fn unescape(s: Seq<char>) -> Seq<char>
    decreases s.len(),
{
    if s.len() == 0 {
        Seq::empty()
    } else if s[0] == '\\' {
        if s.len() == 1 {
            seq!['\\']
        } else {
            seq![s[1]] + unescape(s.subrange(2, s.len() as int))
        }
    } else {
        seq![s[0]] + unescape(s.drop_first())
    }
}

/// A string that opens with `"` loses its first and last characters and has
/// its escapes undone; any other string stays as it is.
pub open spec fn unquoted(s: Seq<char>) -> Seq<char> {
    if s.len() == 0 || s[0] != '"' {
        s
    } else if s.len() == 1 {
        Seq::empty()
    } else {
        unescape(s.subrange(1, s.len() - 1))
    }
}

/// Relies on `quoted_string::unquote_unchecked`, which undoes the quoting of a
/// double-quoted string and hands any other string back unchanged.
#[verifier::external_body]
fn unquote(s: &str) -> (r: String)
    requires
        unquote_defined(s@),
    ensures
        r@ == unquoted(s@),
{
    quoted_string::unquote_unchecked(s).into_owned()
}

/// The name that a flag's string literal spells: a single-quoted literal
/// loses its quotes, a double-quoted one is unquoted with escapes undone.
pub open spec fn flag_name_of(t: Seq<char>) -> Seq<char> {
    if t.len() >= 2 && t[0] == '\'' && t.last() == '\'' {
        t.subrange(1, t.len() - 1)
    } else if unquote_defined(t) {
        unquoted(t)
    } else {
        t
    }
}

fn flag_name(t: &str) -> (r: String)
    ensures
        r@ == flag_name_of(t@),
{
    let n = t.unicode_len();
    if n >= 2 && t.get_char(0) == '\'' && t.get_char(n - 1) == '\'' {
        return String::from_str(t.substring_char(1, n - 1));
    }
    if n <= 1 || t.get_char(0) != '"' || (t.get_char(n - 1) as u32) < 128 {
        unquote(t)
    } else {
        String::from_str(t)
    }
}

/// A call statement `call ...Flag('name'[, default])`: the callee's last
/// identifier is `Flag` and its first argument is a string literal. The
/// second argument, if any, is the default value token. A flag with an
/// empty name is dropped.
pub open spec fn flag_view(n: TreeNode, doc: Option<Seq<char>>) -> Option<NodeView> {
    let cs = n.children@;
    let c = find_kind_from(cs, NodeKind::CallExpression, 0);
    if c >= cs.len() {
        None
    } else {
        let ce = cs[c].children@;
        let f = find_field_from(ce, "function"@, 0);
        if f >= ce.len() || last_identifier(ce[f]) != Some("Flag"@) {
            None
        } else {
            let a1 = find_named_from(ce, f + 1);
            if a1 >= ce.len() || ce[a1].kind != NodeKind::StringLiteral || flag_name_of(
                ce[a1].text@,
            ).len() == 0 {
                None
            } else {
                let a2 = find_named_from(ce, a1 + 1);
                Some(
                    NodeView::Flag {
                        name: flag_name_of(ce[a1].text@),
                        default_value_token: if a2 < ce.len() {
                            Some(ce[a2].text@)
                        } else {
                            None
                        },
                        doc,
                    },
                )
            }
        }
    }
}

pub fn get_flag_node(n: &TreeNode, doc: &Option<String>) -> (r: Option<VimNode>)
    ensures
        opt_node_view(r) == flag_view(*n, opt_view(*doc)),
{
    let cs = &n.children;
    let c = find_kind(cs, NodeKind::CallExpression, 0);
    if c >= cs.len() {
        return None;
    }
    let ce = &cs[c].children;
    let f = find_field(ce, "function", 0);
    if f >= ce.len() {
        return None;
    }
    let is_flag = match find_last_identifier(&ce[f]) {
        Some(t) => str_eq(t, "Flag"),
        None => false,
    };
    if !is_flag {
        return None;
    }
    let a1 = find_named(ce, f + 1);
    if a1 >= ce.len() || ce[a1].kind != NodeKind::StringLiteral {
        return None;
    }
    let name = flag_name(ce[a1].text.as_str());
    if name.as_str().unicode_len() == 0 {
        return None;
    }
    let a2 = find_named(ce, a1 + 1);
    let default_value_token = if a2 < ce.len() {
        Some(ce[a2].text.clone())
    } else {
        None
    };
    Some(
        VimNode::Flag {
            name,
            default_value_token,
            doc: clone_opt(doc),
        },
    )
}

/// The nodes that a statement yields, given the doc block attached to it.
pub open spec fn classify_view(n: TreeNode, doc: Option<Seq<char>>) -> Seq<NodeView> {
    match n.kind {
        NodeKind::FunctionDefinition => option_seq(function_view(n, doc)),
        NodeKind::CommandStatement => option_seq(command_view(n, doc)),
        NodeKind::LetStatement => let_view(n, doc),
        NodeKind::CallStatement => option_seq(flag_view(n, doc)),
        _ => Seq::empty(),
    }
}

pub open spec fn option_seq(o: Option<NodeView>) -> Seq<NodeView> {
    match o {
        Some(v) => seq![v],
        None => Seq::empty(),
    }
}

fn option_vec(o: Option<VimNode>) -> (r: Vec<VimNode>)
    ensures
        nodes_of(r@) == option_seq(opt_node_view(o)),
{
    let mut r: Vec<VimNode> = Vec::new();
    match o {
        Some(v) => {
            r.push(v);
            assert(nodes_of(r@) =~= seq![v@]);
        },
        None => {
            assert(nodes_of(r@) =~= Seq::empty());
        },
    }
    r
}

/// Classifies one statement: a function, command, assignment or flag
/// declaration yields its nodes, carrying `doc`; any other statement, and a
/// declaration missing its name, yields none.
pub fn classify(n: &TreeNode, doc: &Option<String>) -> (r: Vec<VimNode>)
    ensures
        nodes_of(r@) == classify_view(*n, opt_view(*doc)),
{
    match n.kind {
        NodeKind::FunctionDefinition => option_vec(get_func_node(n, doc)),
        NodeKind::CommandStatement => option_vec(get_command_node(n, doc)),
        NodeKind::LetStatement => get_let_nodes(n, doc),
        NodeKind::CallStatement => option_vec(get_flag_node(n, doc)),
        _ => {
            let r: Vec<VimNode> = Vec::new();
            assert(nodes_of(r@) =~= Seq::empty());
            r
        },
    }
}

/// Every node that a statement yields carries the doc block attached to it.
pub proof fn lemma_classified_nodes_carry_doc(n: TreeNode, doc: Option<Seq<char>>)
    ensures
        forall|k: int|
            0 <= k < classify_view(n, doc).len() ==> (#[trigger] classify_view(n, doc)[k]).doc()
                == doc,
{
}

/// A compound assignment such as `let x += 1` introduces no variable.
pub proof fn lemma_compound_assignment_yields_nothing(n: TreeNode, doc: Option<Seq<char>>)
    requires
        n.kind == NodeKind::LetStatement,
        n.children@.len() >= 4,
        n.children@[2].kind != NodeKind::AssignOperator,
    ensures
        classify_view(n, doc) == Seq::<NodeView>::empty(),
{
}

pub open spec fn node_name(v: NodeView) -> Seq<char> {
    match v {
        NodeView::StandaloneDocComment { .. } => Seq::empty(),
        NodeView::Function { name, .. } => name,
        NodeView::Command { name, .. } => name,
        NodeView::Variable { name, .. } => name,
        NodeView::Flag { name, .. } => name,
    }
}

/// No declaration node has an empty name: the classifier drops such
/// declarations instead.
pub proof fn lemma_classified_names_nonempty(n: TreeNode, doc: Option<Seq<char>>)
    ensures
        forall|k: int|
            0 <= k < classify_view(n, doc).len() ==> node_name(#[trigger] classify_view(n, doc)[k]).len()
                > 0,
{
}

} // verus!
