use vstd::prelude::*;

use crate::classify::{
    classify, classify_view, command_view, function_view, get_command_node, get_func_node,
    get_let_nodes, lemma_classified_nodes_carry_doc, let_view, nodes_of,
};
use crate::data::{opt_view, ModuleView, NodeView, VimModule, VimNode};
use crate::docs::{block_doc, block_doc_of, has_doc_leader, has_leader, texts_of};
use crate::tree::{NodeKind, TreeNode};

verus! {

/// `cs[j]` starts `j - i` lines below `cs[i]`, in the same column.
pub open spec fn in_line_below(cs: Seq<TreeNode>, i: int, j: int) -> bool {
    cs[j].row == cs[i].row + (j - i) && cs[j].column == cs[i].column
}

/// A comment with the doc leader, which opens a doc block.
pub open spec fn opens_block(n: TreeNode) -> bool {
    n.kind == NodeKind::Comment && has_leader(n.text@)
}

/// The end of the doc block that `cs[i]` opens, scanning from `j`: each
/// further comment must start on the next line, in the same column.
pub open spec fn run_end(cs: Seq<TreeNode>, i: int, j: int) -> int
    decreases cs.len() - j,
{
    if j < cs.len() && cs[j].kind == NodeKind::Comment && in_line_below(cs, i, j) {
        run_end(cs, i, j + 1)
    } else {
        j
    }
}

/// The end of the group that starts at `cs[i]`: a doc block, or one other
/// statement or comment.
pub open spec fn group_end(cs: Seq<TreeNode>, i: int) -> int {
    if opens_block(cs[i]) {
        run_end(cs, i, i + 1)
    } else {
        i + 1
    }
}

/// The doc text of the block `cs[i..e]`.
pub open spec fn doc_of_block(cs: Seq<TreeNode>, i: int, e: int) -> Option<Seq<char>> {
    block_doc_of(texts_of(cs, i, e))
}

/// The doc block `cs[i..e]` documents the statement right after it: that
/// statement starts on the next line, in the same column, and is a
/// declaration that the classifier recognizes.
pub open spec fn attaches(cs: Seq<TreeNode>, i: int, e: int) -> bool {
    e < cs.len() && in_line_below(cs, i, e) && classify_view(cs[e], doc_of_block(cs, i, e)).len() > 0
}

pub open spec fn standalone(doc: Option<Seq<char>>) -> Seq<NodeView> {
    match doc {
        Some(d) => seq![NodeView::StandaloneDocComment { doc: d }],
        None => Seq::empty(),
    }
}

/// The nodes that the statements from `cs[i]` on yield. A doc block that
/// attaches goes to the declaration after it; one that does not stands
/// alone; a comment without the doc leader yields nothing and documents
/// nothing; every other statement is classified without a doc.
pub open spec fn emitted_from(cs: Seq<TreeNode>, i: int) -> Seq<NodeView>
    decreases cs.len() - i,
{
    if i < 0 || i >= cs.len() {
        Seq::empty()
    } else if opens_block(cs[i]) {
        let e = group_end(cs, i);
        if e <= i || e > cs.len() {
            Seq::empty()
        } else if attaches(cs, i, e) {
            classify_view(cs[e], doc_of_block(cs, i, e)) + emitted_from(cs, e + 1)
        } else {
            standalone(doc_of_block(cs, i, e)) + emitted_from(cs, e)
        }
    } else if cs[i].kind == NodeKind::Comment {
        emitted_from(cs, i + 1)
    } else {
        classify_view(cs[i], None) + emitted_from(cs, i + 1)
    }
}

/// The module that the statements `cs` make: when the first node they yield
/// is a standalone doc block, it becomes the module doc instead.
pub open spec fn module_of(cs: Seq<TreeNode>) -> ModuleView {
    let all = emitted_from(cs, 0);
    if all.len() > 0 && all[0] is StandaloneDocComment {
        ModuleView { path: None, doc: Some(all[0]->StandaloneDocComment_doc), nodes: all.drop_first() }
    } else {
        ModuleView { path: None, doc: None, nodes: all }
    }
}

proof fn lemma_run_end_bounds(cs: Seq<TreeNode>, i: int, j: int)
    requires
        0 <= i < j <= cs.len(),
    ensures
        j <= run_end(cs, i, j) <= cs.len(),
    decreases cs.len() - j,
{
    if j < cs.len() && cs[j].kind == NodeKind::Comment && in_line_below(cs, i, j) {
        lemma_run_end_bounds(cs, i, j + 1);
    }
}

fn consume_block_comment(cs: &Vec<TreeNode>, i: usize) -> (e: usize)
    requires
        i < cs@.len(),
        opens_block(cs@[i as int]),
    ensures
        e as int == group_end(cs@, i as int),
        i < e <= cs@.len(),
{
    let n = cs.len();
    let mut j = i + 1;
    while j < n
        invariant
            n == cs@.len(),
            i < j <= cs@.len(),
            run_end(cs@, i as int, i + 1) == run_end(cs@, i as int, j as int),
        ensures
            i < j <= cs@.len(),
            run_end(cs@, i as int, i + 1) == j,
        decreases cs@.len() - j,
    {
        let next_line = cs[j].kind == NodeKind::Comment && cs[j].row >= cs[i].row && cs[j].row
            - cs[i].row == j - i && cs[j].column == cs[i].column;
        if !next_line {
            break;
        }
        j = j + 1;
    }
    j
}

fn follows_in_line(cs: &Vec<TreeNode>, i: usize, e: usize) -> (r: bool)
    requires
        i < e < cs@.len(),
    ensures
        r == in_line_below(cs@, i as int, e as int),
{
    cs[e].row >= cs[i].row && cs[e].row - cs[i].row == e - i && cs[e].column == cs[i].column
}

/// Appends `nodes` to `out`.
fn append_nodes(out: &mut Vec<VimNode>, nodes: &Vec<VimNode>)
    ensures
        nodes_of(final(out)@) == nodes_of(old(out)@) + nodes_of(nodes@),
{
    let ghost start = nodes_of(out@);
    let mut k: usize = 0;
    while k < nodes.len()
        invariant
            k <= nodes@.len(),
            nodes_of(out@) == start + nodes_of(nodes@).subrange(0, k as int),
        decreases nodes@.len() - k,
    {
        let ghost prev = nodes_of(out@);
        out.push(nodes[k].clone_node());
        assert(nodes_of(out@) =~= prev.push(nodes@[k as int]@));
        assert(nodes_of(nodes@).subrange(0, k + 1) =~= nodes_of(nodes@).subrange(0, k as int).push(
            nodes@[k as int]@,
        ));
        k = k + 1;
    }
    assert(nodes_of(nodes@).subrange(0, nodes@.len() as int) =~= nodes_of(nodes@));
}

/// The nodes that the statements `cs` yield, in order (see [emitted_from]).
pub fn collect_nodes(cs: &Vec<TreeNode>) -> (r: Vec<VimNode>)
    ensures
        nodes_of(r@) == emitted_from(cs@, 0),
{
    let mut out: Vec<VimNode> = Vec::new();
    let none: Option<String> = None;
    let mut i: usize = 0;
    while i < cs.len()
        invariant
            i <= cs@.len(),
            none is None,
            nodes_of(out@) + emitted_from(cs@, i as int) == emitted_from(cs@, 0),
        decreases cs@.len() - i,
    {
        let ghost before = nodes_of(out@);
        let ghost rest = emitted_from(cs@, i as int);
        if cs[i].kind == NodeKind::Comment && has_doc_leader(cs[i].text.as_str()) {
            let e = consume_block_comment(cs, i);
            let doc = block_doc(cs, i, e);
            let mut attached = false;
            if e < cs.len() && follows_in_line(cs, i, e) {
                let nodes = classify(&cs[e], &doc);
                if nodes.len() > 0 {
                    assert(rest == classify_view(cs@[e as int], opt_view(doc)) + emitted_from(
                        cs@,
                        e + 1,
                    ));
                    append_nodes(&mut out, &nodes);
                    assert(nodes_of(out@) + emitted_from(cs@, e + 1) =~= before + rest);
                    attached = true;
                    i = e + 1;
                }
            }
            if !attached {
                assert(rest == standalone(opt_view(doc)) + emitted_from(cs@, e as int));
                match doc {
                    Some(d) => {
                        out.push(VimNode::StandaloneDocComment { doc: d });
                        assert(nodes_of(out@) =~= before + standalone(opt_view(doc)));
                    },
                    None => {},
                }
                assert(nodes_of(out@) + emitted_from(cs@, e as int) =~= before + rest);
                i = e;
            }
        } else if cs[i].kind == NodeKind::Comment {
            i = i + 1;
        } else {
            let nodes = classify(&cs[i], &none);
            assert(rest == classify_view(cs@[i as int], None) + emitted_from(cs@, i + 1));
            append_nodes(&mut out, &nodes);
            assert(nodes_of(out@) + emitted_from(cs@, i + 1) =~= before + rest);
            i = i + 1;
        }
    }
    assert(nodes_of(out@) =~= nodes_of(out@) + emitted_from(cs@, i as int));
    out
}

/// Builds the module whose top-level statements are `cs`, in one pass: the
/// doc blocks are attached or kept, the declarations classified, and a
/// leading standalone doc block made the module doc (see [module_of]).
pub fn parse_module_tree(cs: &Vec<TreeNode>) -> (m: VimModule)
    ensures
        m@ == module_of(cs@),
{
    let mut nodes = collect_nodes(cs);
    let ghost all = nodes_of(nodes@);
    if nodes.len() > 0 && nodes[0].is_standalone() {
        let first = nodes.remove(0);
        assert(nodes_of(nodes@) =~= all.drop_first());
        match first {
            VimNode::StandaloneDocComment { doc } => VimModule {
                path: None,
                doc: Some(doc),
                nodes,
            },
            _ => {
                assert(false);
                VimModule { path: None, doc: None, nodes }
            },
        }
    } else {
        VimModule { path: None, doc: None, nodes }
    }
}

/// A doc block that attaches hands its text to every node of the
/// declaration right after it, and yields no standalone doc block itself.
pub proof fn lemma_doc_attaches(cs: Seq<TreeNode>, i: int)
    requires
        0 <= i < cs.len(),
        opens_block(cs[i]),
        attaches(cs, i, group_end(cs, i)),
    ensures
        ({
            let e = group_end(cs, i);
            let doc = doc_of_block(cs, i, e);
            &&& emitted_from(cs, i) == classify_view(cs[e], doc) + emitted_from(cs, e + 1)
            &&& forall|k: int|
                0 <= k < classify_view(cs[e], doc).len() ==> (#[trigger] classify_view(
                    cs[e],
                    doc,
                )[k]).doc() == doc
        }),
{
    let e = group_end(cs, i);
    lemma_run_end_bounds(cs, i, i + 1);
    lemma_classified_nodes_carry_doc(cs[e], doc_of_block(cs, i, e));
}

/// A doc block that does not attach stands alone, where it is, unless it
/// holds no text.
pub proof fn lemma_doc_stands_alone(cs: Seq<TreeNode>, i: int)
    requires
        0 <= i < cs.len(),
        opens_block(cs[i]),
        !attaches(cs, i, group_end(cs, i)),
    ensures
        emitted_from(cs, i) == standalone(doc_of_block(cs, i, group_end(cs, i))) + emitted_from(
            cs,
            group_end(cs, i),
        ),
{
    lemma_run_end_bounds(cs, i, i + 1);
}

/// A module that opens with a doc block that does not attach and holds
/// text has that text as its doc, and the block is not among its nodes.
pub proof fn lemma_leading_doc_is_module_doc(cs: Seq<TreeNode>)
    requires
        cs.len() > 0,
        opens_block(cs[0]),
        !attaches(cs, 0, group_end(cs, 0)),
        doc_of_block(cs, 0, group_end(cs, 0)) is Some,
    ensures
        module_of(cs).doc == doc_of_block(cs, 0, group_end(cs, 0)),
        module_of(cs).nodes == emitted_from(cs, group_end(cs, 0)),
{
    lemma_doc_stands_alone(cs, 0);
    let e = group_end(cs, 0);
    let all = emitted_from(cs, 0);
    assert(all.drop_first() =~= emitted_from(cs, e));
}

/// A comment without the doc leader, where no doc block takes it in as a
/// continuation line, yields no node and documents nothing: the statements
/// after it yield what they would without it.
pub proof fn lemma_plain_comment_is_ignored(cs: Seq<TreeNode>, i: int)
    requires
        0 <= i < cs.len(),
        cs[i].kind == NodeKind::Comment,
        !has_leader(cs[i].text@),
    ensures
        emitted_from(cs, i) == emitted_from(cs, i + 1),
{
}

/// A top-level statement that yields no node although it should: a
/// syntax error, or a declaration whose name is missing or empty.
#[derive(Debug)]
pub struct Diagnostic {
    /// The statement's position among the top-level statements.
    pub index: usize,
    pub kind: NodeKind,
    pub row: usize,
    pub column: usize,
    /// The statement's source text.
    pub text: String,
}

/// An assignment `let lhs = rhs`, whatever `lhs` is.
pub open spec fn is_plain_assignment(n: TreeNode) -> bool {
    n.kind == NodeKind::LetStatement && n.children@.len() >= 4 && n.children@[0].kind
        == NodeKind::LetKeyword && n.children@[2].kind == NodeKind::AssignOperator
}

/// The statement is a syntax error, or a function, command or assignment
/// that the classifier drops.
pub open spec fn fails_classification(n: TreeNode) -> bool {
    ||| n.kind == NodeKind::SyntaxError
    ||| (n.kind == NodeKind::FunctionDefinition && function_view(n, None) is None)
    ||| (n.kind == NodeKind::CommandStatement && command_view(n, None) is None)
    ||| (is_plain_assignment(n) && let_view(n, None).len() == 0)
}

/// The indices, in order, of the statements among `cs[..k]` that fail.
pub open spec fn failing_indices(cs: Seq<TreeNode>, k: int) -> Seq<int>
    decreases k,
{
    if k <= 0 {
        Seq::empty()
    } else {
        failing_indices(cs, k - 1) + if fails_classification(cs[k - 1]) {
            seq![k - 1]
        } else {
            Seq::empty()
        }
    }
}

/// The diagnostic describes the statement it names.
pub open spec fn describes(d: Diagnostic, cs: Seq<TreeNode>) -> bool {
    &&& d.index < cs.len()
    &&& d.kind == cs[d.index as int].kind
    &&& d.row == cs[d.index as int].row
    &&& d.column == cs[d.index as int].column
    &&& d.text@ == cs[d.index as int].text@
}

fn fails(n: &TreeNode) -> (r: bool)
    ensures
        r == fails_classification(*n),
{
    let none: Option<String> = None;
    match n.kind {
        NodeKind::SyntaxError => true,
        NodeKind::FunctionDefinition => get_func_node(n, &none).is_none(),
        NodeKind::CommandStatement => get_command_node(n, &none).is_none(),
        NodeKind::LetStatement => {
            let cs = n.children();
            cs.len() >= 4 && cs[0].kind == NodeKind::LetKeyword && cs[2].kind
                == NodeKind::AssignOperator && get_let_nodes(n, &none).len() == 0
        },
        _ => false,
    }
}

/// The diagnostics of the statements `cs`: one for each statement that
/// fails (see [fails_classification]), in order, naming its kind, position
/// and text.
pub fn diagnostics(cs: &Vec<TreeNode>) -> (r: Vec<Diagnostic>)
    ensures
        r@.map_values(|d: Diagnostic| d.index as int) == failing_indices(cs@, cs@.len() as int),
        forall|t: int| 0 <= t < r@.len() ==> describes(#[trigger] r@[t], cs@),
{
    let mut r: Vec<Diagnostic> = Vec::new();
    let mut i: usize = 0;
    while i < cs.len()
        invariant
            i <= cs@.len(),
            r@.map_values(|d: Diagnostic| d.index as int) == failing_indices(cs@, i as int),
            forall|t: int| 0 <= t < r@.len() ==> describes(#[trigger] r@[t], cs@),
        decreases cs@.len() - i,
    {
        let n = &cs[i];
        if fails(n) {
            let ghost before = r@;
            r.push(
                Diagnostic { index: i, kind: n.kind, row: n.row, column: n.column, text: n.text.clone() },
            );
            assert(r@.map_values(|d: Diagnostic| d.index as int) =~= before.map_values(
                |d: Diagnostic| d.index as int,
            ).push(i as int));
        } else {
            assert(failing_indices(cs@, i + 1) =~= failing_indices(cs@, i as int));
        }
        i = i + 1;
    }
    r
}

} // verus!
