use vstd::prelude::*;

verus! {

#[allow(inconsistent_fields)]
#[derive(Debug)]
/// A representation of a single high-level grammar token of vim syntax,
/// such as a comment or function.
pub enum VimNode {
    StandaloneDocComment { doc: String },
    Function { name: String, args: Vec<String>, modifiers: Vec<String>, doc: Option<String> },
    Command { name: String, modifiers: Vec<String>, doc: Option<String> },
    Variable { name: String, init_value_token: String, doc: Option<String> },
    /// A defined "Flag" like the mechanism used in google/vim-maktaba.
    Flag { name: String, default_value_token: Option<String>, doc: Option<String> },
}

#[allow(inconsistent_fields)]
/// What a [VimNode] holds, as sequences of characters.
pub ghost enum NodeView {
    StandaloneDocComment { doc: Seq<char> },
    Function {
        name: Seq<char>,
        args: Seq<Seq<char>>,
        modifiers: Seq<Seq<char>>,
        doc: Option<Seq<char>>,
    },
    Command { name: Seq<char>, modifiers: Seq<Seq<char>>, doc: Option<Seq<char>> },
    Variable { name: Seq<char>, init_value_token: Seq<char>, doc: Option<Seq<char>> },
    Flag { name: Seq<char>, default_value_token: Option<Seq<char>>, doc: Option<Seq<char>> },
}

pub open spec fn opt_view(o: Option<String>) -> Option<Seq<char>> {
    match o {
        Some(s) => Some(s@),
        None => None,
    }
}

pub open spec fn strings_view(v: Seq<String>) -> Seq<Seq<char>> {
    v.map_values(|s: String| s@)
}

impl View for VimNode {
    type V = NodeView;

    open spec fn view(&self) -> NodeView {
        match self {
            VimNode::StandaloneDocComment { doc } => NodeView::StandaloneDocComment { doc: doc@ },
            VimNode::Function { name, args, modifiers, doc } => NodeView::Function {
                name: name@,
                args: strings_view(args@),
                modifiers: strings_view(modifiers@),
                doc: opt_view(*doc),
            },
            VimNode::Command { name, modifiers, doc } => NodeView::Command {
                name: name@,
                modifiers: strings_view(modifiers@),
                doc: opt_view(*doc),
            },
            VimNode::Variable { name, init_value_token, doc } => NodeView::Variable {
                name: name@,
                init_value_token: init_value_token@,
                doc: opt_view(*doc),
            },
            VimNode::Flag { name, default_value_token, doc } => NodeView::Flag {
                name: name@,
                default_value_token: opt_view(*default_value_token),
                doc: opt_view(*doc),
            },
        }
    }
}

impl NodeView {
    pub open spec fn doc(self) -> Option<Seq<char>> {
        match self {
            NodeView::StandaloneDocComment { doc } => Some(doc),
            NodeView::Function { doc, .. } => doc,
            NodeView::Command { doc, .. } => doc,
            NodeView::Variable { doc, .. } => doc,
            NodeView::Flag { doc, .. } => doc,
        }
    }
}

impl VimNode {
    pub fn is_standalone(&self) -> (r: bool)
        ensures
            r == self@ is StandaloneDocComment,
    {
        match self {
            VimNode::StandaloneDocComment { .. } => true,
            _ => false,
        }
    }

    /// A copy of the node.
    pub fn clone_node(&self) -> (r: VimNode)
        ensures
            r@ == self@,
    {
        match self {
            VimNode::StandaloneDocComment { doc } => VimNode::StandaloneDocComment { doc: doc.clone() },
            VimNode::Function { name, args, modifiers, doc } => VimNode::Function {
                name: name.clone(),
                args: clone_strings(args),
                modifiers: clone_strings(modifiers),
                doc: clone_opt(doc),
            },
            VimNode::Command { name, modifiers, doc } => VimNode::Command {
                name: name.clone(),
                modifiers: clone_strings(modifiers),
                doc: clone_opt(doc),
            },
            VimNode::Variable { name, init_value_token, doc } => VimNode::Variable {
                name: name.clone(),
                init_value_token: init_value_token.clone(),
                doc: clone_opt(doc),
            },
            VimNode::Flag { name, default_value_token, doc } => VimNode::Flag {
                name: name.clone(),
                default_value_token: clone_opt(default_value_token),
                doc: clone_opt(doc),
            },
        }
    }

    pub fn get_doc(&self) -> (r: Option<&str>)
        ensures
            match r {
                Some(d) => self@.doc() == Some(d@),
                None => self@.doc() is None,
            },
    {
        match self {
            VimNode::StandaloneDocComment { doc } => Some(doc.as_str()),
            VimNode::Function { doc, .. } => match doc {
                Some(d) => Some(d.as_str()),
                None => None,
            },
            VimNode::Command { doc, .. } => match doc {
                Some(d) => Some(d.as_str()),
                None => None,
            },
            VimNode::Variable { doc, .. } => match doc {
                Some(d) => Some(d.as_str()),
                None => None,
            },
            VimNode::Flag { doc, .. } => match doc {
                Some(d) => Some(d.as_str()),
                None => None,
            },
        }
    }
}

/// An individual module (a.k.a. file) of vimscript code.
#[derive(Debug)]
pub struct VimModule {
    /// The file's path relative to the plugin root, with `/` between parts.
    pub path: Option<String>,
    pub doc: Option<String>,
    pub nodes: Vec<VimNode>,
}

pub ghost struct ModuleView {
    pub path: Option<Seq<char>>,
    pub doc: Option<Seq<char>>,
    pub nodes: Seq<NodeView>,
}

pub open spec fn nodes_view(v: Seq<VimNode>) -> Seq<NodeView> {
    v.map_values(|n: VimNode| n@)
}

impl View for VimModule {
    type V = ModuleView;

    open spec fn view(&self) -> ModuleView {
        ModuleView { path: opt_view(self.path), doc: opt_view(self.doc), nodes: nodes_view(self.nodes@) }
    }
}

/// An entire vim plugin with all the metadata parsed from its files.
#[derive(Debug)]
pub struct VimPlugin {
    pub content: Vec<VimModule>,
}

impl View for VimPlugin {
    type V = Seq<ModuleView>;

    open spec fn view(&self) -> Seq<ModuleView> {
        self.content@.map_values(|m: VimModule| m@)
    }
}

/// A copy of an optional string.
pub fn clone_opt(o: &Option<String>) -> (r: Option<String>)
    ensures
        opt_view(r) == opt_view(*o),
{
    match o {
        Some(s) => Some(s.clone()),
        None => None,
    }
}

/// A copy of a list of strings.
pub fn clone_strings(v: &Vec<String>) -> (r: Vec<String>)
    ensures
        strings_view(r@) == strings_view(v@),
{
    let mut r: Vec<String> = Vec::new();
    let mut i: usize = 0;
    while i < v.len()
        invariant
            i <= v@.len(),
            strings_view(r@) == strings_view(v@.subrange(0, i as int)),
        decreases v@.len() - i,
    {
        let ghost before = r@;
        let c = v[i].clone();
        assert(c@ == v@[i as int]@);
        r.push(c);
        assert(v@.subrange(0, i + 1) =~= v@.subrange(0, i as int).push(v@[i as int]));
        assert(strings_view(r@) =~= strings_view(before).push(c@));
        assert(strings_view(v@.subrange(0, i + 1)) =~= strings_view(v@.subrange(0, i as int)).push(
            c@,
        ));
        i = i + 1;
    }
    assert(v@.subrange(0, v@.len() as int) =~= v@);
    r
}

fn opt_eq(a: &Option<String>, b: &Option<String>) -> (r: bool)
    ensures
        r == (opt_view(*a) == opt_view(*b)),
{
    match (a, b) {
        (Some(x), Some(y)) => x.eq(y),
        (None, None) => true,
        _ => false,
    }
}

fn strings_eq(a: &Vec<String>, b: &Vec<String>) -> (r: bool)
    ensures
        r == (strings_view(a@) == strings_view(b@)),
{
    if a.len() != b.len() {
        assert(strings_view(a@).len() != strings_view(b@).len());
        return false;
    }
    let mut i: usize = 0;
    while i < a.len()
        invariant
            i <= a@.len() == b@.len(),
            forall|j: int| 0 <= j < i ==> a@[j]@ == b@[j]@,
        decreases a@.len() - i,
    {
        if !a[i].eq(&b[i]) {
            assert(strings_view(a@)[i as int] != strings_view(b@)[i as int]);
            return false;
        }
        i = i + 1;
    }
    assert(strings_view(a@) =~= strings_view(b@));
    true
}

impl PartialEq for VimNode {
    fn eq(&self, other: &VimNode) -> (r: bool) {
        match (self, other) {
            (
                VimNode::StandaloneDocComment { doc: a },
                VimNode::StandaloneDocComment { doc: b },
            ) => a.eq(b),
            (
                VimNode::Function { name: n1, args: a1, modifiers: m1, doc: d1 },
                VimNode::Function { name: n2, args: a2, modifiers: m2, doc: d2 },
            ) => n1.eq(n2) && strings_eq(a1, a2) && strings_eq(m1, m2) && opt_eq(d1, d2),
            (
                VimNode::Command { name: n1, modifiers: m1, doc: d1 },
                VimNode::Command { name: n2, modifiers: m2, doc: d2 },
            ) => n1.eq(n2) && strings_eq(m1, m2) && opt_eq(d1, d2),
            (
                VimNode::Variable { name: n1, init_value_token: v1, doc: d1 },
                VimNode::Variable { name: n2, init_value_token: v2, doc: d2 },
            ) => n1.eq(n2) && v1.eq(v2) && opt_eq(d1, d2),
            (
                VimNode::Flag { name: n1, default_value_token: v1, doc: d1 },
                VimNode::Flag { name: n2, default_value_token: v2, doc: d2 },
            ) => n1.eq(n2) && opt_eq(v1, v2) && opt_eq(d1, d2),
            _ => false,
        }
    }
}

impl vstd::std_specs::cmp::PartialEqSpecImpl for VimNode {
    open spec fn obeys_eq_spec() -> bool {
        true
    }

    open spec fn eq_spec(&self, other: &VimNode) -> bool {
        self@ == other@
    }
}

fn nodes_eq(a: &Vec<VimNode>, b: &Vec<VimNode>) -> (r: bool)
    ensures
        r == (nodes_view(a@) == nodes_view(b@)),
{
    if a.len() != b.len() {
        assert(nodes_view(a@).len() != nodes_view(b@).len());
        return false;
    }
    let mut i: usize = 0;
    while i < a.len()
        invariant
            i <= a@.len() == b@.len(),
            forall|j: int| 0 <= j < i ==> a@[j]@ == b@[j]@,
        decreases a@.len() - i,
    {
        if !a[i].eq(&b[i]) {
            assert(nodes_view(a@)[i as int] != nodes_view(b@)[i as int]);
            return false;
        }
        i = i + 1;
    }
    assert(nodes_view(a@) =~= nodes_view(b@));
    true
}

impl PartialEq for VimModule {
    fn eq(&self, other: &VimModule) -> (r: bool) {
        opt_eq(&self.path, &other.path) && opt_eq(&self.doc, &other.doc) && nodes_eq(
            &self.nodes,
            &other.nodes,
        )
    }
}

impl vstd::std_specs::cmp::PartialEqSpecImpl for VimModule {
    open spec fn obeys_eq_spec() -> bool {
        true
    }

    open spec fn eq_spec(&self, other: &VimModule) -> bool {
        self@ == other@
    }
}

impl PartialEq for VimPlugin {
    fn eq(&self, other: &VimPlugin) -> (r: bool) {
        let a = &self.content;
        let b = &other.content;
        if a.len() != b.len() {
            assert(self@.len() != other@.len());
            return false;
        }
        let mut i: usize = 0;
        while i < a.len()
            invariant
                a == &self.content,
                b == &other.content,
                i <= a@.len() == b@.len(),
                forall|j: int| 0 <= j < i ==> a@[j]@ == b@[j]@,
            decreases a@.len() - i,
        {
            if !a[i].eq(&b[i]) {
                assert(self@[i as int] != other@[i as int]);
                return false;
            }
            i = i + 1;
        }
        assert(self@ =~= other@);
        true
    }
}

impl vstd::std_specs::cmp::PartialEqSpecImpl for VimPlugin {
    open spec fn obeys_eq_spec() -> bool {
        true
    }

    open spec fn eq_spec(&self, other: &VimPlugin) -> bool {
        self@ == other@
    }
}

} // verus!
