use vstd::prelude::*;

use crate::classify::{
    classify_view, find_field_from, find_kind_from, find_named_from, last_declaration,
    last_identifier, last_identifier_among, named_indices, texts_where, Select,
};
use crate::data::opt_view;
use crate::docs::{block_doc_of, texts_of};
use crate::module::{emitted_from, group_end, module_of, run_end};
use crate::tree::TreeNode;

verus! {

broadcast use vstd::std_specs::vec::group_vec_axioms;

/// Two syntax trees hold the same kinds, fields, texts and positions,
/// all the way down.
pub open spec fn same_tree(a: TreeNode, b: TreeNode) -> bool
    decreases a, a.children@.len() + 1,
{
    &&& a.kind == b.kind
    &&& opt_view(a.field_name) == opt_view(b.field_name)
    &&& a.is_named == b.is_named
    &&& a.text@ == b.text@
    &&& a.row == b.row
    &&& a.column == b.column
    &&& a.children@.len() == b.children@.len()
    &&& same_children_upto(a, b, a.children@.len() as int)
}

/// The first `k` children of `a` and `b` are pairwise the same trees.
pub open spec fn same_children_upto(a: TreeNode, b: TreeNode, k: int) -> bool
    decreases a, k,
{
    if k <= 0 || k > a.children@.len() || k > b.children@.len() {
        k <= 0
    } else {
        same_tree(a.children@[k - 1], b.children@[k - 1]) && same_children_upto(a, b, k - 1)
    }
}

/// Two sequences of syntax trees that are pairwise the same.
pub open spec fn same_trees(a: Seq<TreeNode>, b: Seq<TreeNode>) -> bool {
    a.len() == b.len() && forall|i: int| 0 <= i < a.len() ==> #[trigger] same_tree(a[i], b[i])
}

proof fn lemma_same_children(a: TreeNode, b: TreeNode)
    requires
        same_tree(a, b),
    ensures
        same_trees(a.children@, b.children@),
{
    lemma_same_children_upto(a, b, a.children@.len() as int);
}

proof fn lemma_same_children_upto(a: TreeNode, b: TreeNode, k: int)
    requires
        same_children_upto(a, b, k),
    ensures
        forall|i: int| 0 <= i < k ==> #[trigger] same_tree(a.children@[i], b.children@[i]),
    decreases k,
{
    if k > 0 {
        lemma_same_children_upto(a, b, k - 1);
    }
}

proof fn lemma_find_kind(a: Seq<TreeNode>, b: Seq<TreeNode>, k: crate::tree::NodeKind, from: int)
    requires
        same_trees(a, b),
        0 <= from,
    ensures
        find_kind_from(a, k, from) == find_kind_from(b, k, from),
        find_kind_from(a, k, from) >= 0,
        from <= a.len() ==> find_kind_from(a, k, from) <= a.len(),
    decreases a.len() - from,
{
    if 0 <= from < a.len() {
        assert(same_tree(a[from], b[from]));
        lemma_find_kind(a, b, k, from + 1);
    }
}

proof fn lemma_find_field(a: Seq<TreeNode>, b: Seq<TreeNode>, f: Seq<char>, from: int)
    requires
        same_trees(a, b),
        0 <= from,
    ensures
        find_field_from(a, f, from) == find_field_from(b, f, from),
        find_field_from(a, f, from) >= 0,
    decreases a.len() - from,
{
    if 0 <= from < a.len() {
        assert(same_tree(a[from], b[from]));
        lemma_find_field(a, b, f, from + 1);
    }
}

proof fn lemma_find_named(a: Seq<TreeNode>, b: Seq<TreeNode>, from: int)
    requires
        same_trees(a, b),
        0 <= from,
    ensures
        find_named_from(a, from) == find_named_from(b, from),
        find_named_from(a, from) >= 0,
    decreases a.len() - from,
{
    if 0 <= from < a.len() {
        assert(same_tree(a[from], b[from]));
        lemma_find_named(a, b, from + 1);
    }
}

proof fn lemma_texts_where(a: Seq<TreeNode>, b: Seq<TreeNode>, k: int, s: Select)
    requires
        same_trees(a, b),
        k <= a.len(),
    ensures
        texts_where(a, k, s) == texts_where(b, k, s),
    decreases k,
{
    if k > 0 {
        assert(same_tree(a[k - 1], b[k - 1]));
        lemma_texts_where(a, b, k - 1, s);
    }
}

proof fn lemma_last_declaration(a: Seq<TreeNode>, b: Seq<TreeNode>, k: int)
    requires
        same_trees(a, b),
        k <= a.len(),
    ensures
        last_declaration(a, k) == last_declaration(b, k),
    decreases k,
{
    if k > 0 {
        assert(same_tree(a[k - 1], b[k - 1]));
        lemma_last_declaration(a, b, k - 1);
    }
}

proof fn lemma_named_indices(a: Seq<TreeNode>, b: Seq<TreeNode>, k: int)
    requires
        same_trees(a, b),
        k <= a.len(),
    ensures
        named_indices(a, k) == named_indices(b, k),
    decreases k,
{
    if k > 0 {
        assert(same_tree(a[k - 1], b[k - 1]));
        lemma_named_indices(a, b, k - 1);
    }
}

proof fn lemma_named_indices_bound(cs: Seq<TreeNode>, k: int)
    requires
        k <= cs.len(),
    ensures
        forall|t: int|
            0 <= t < named_indices(cs, k).len() ==> 0 <= #[trigger] named_indices(cs, k)[t] < k,
    decreases k,
{
    if k > 0 {
        lemma_named_indices_bound(cs, k - 1);
        let prev = named_indices(cs, k - 1);
        assert forall|t: int| 0 <= t < named_indices(cs, k).len() implies 0 <= #[trigger] named_indices(cs, k)[t] < k by {
            if t < prev.len() {
                assert(named_indices(cs, k)[t] == prev[t]);
            }
        }
    }
}

proof fn lemma_last_identifier(a: TreeNode, b: TreeNode)
    requires
        same_tree(a, b),
    ensures
        last_identifier(a) == last_identifier(b),
    decreases a, a.children@.len() + 1,
{
    lemma_last_identifier_among(a, b, a.children@.len() as int);
}

proof fn lemma_last_identifier_among(a: TreeNode, b: TreeNode, k: int)
    requires
        same_tree(a, b),
    ensures
        last_identifier_among(a, k) == last_identifier_among(b, k),
    decreases a, k,
{
    if 0 < k <= a.children@.len() {
        lemma_same_children(a, b);
        assert(same_tree(a.children@[k - 1], b.children@[k - 1]));
        assert(decreases_to!(a => a.children@[k - 1]));
        lemma_last_identifier(a.children@[k - 1], b.children@[k - 1]);
        lemma_last_identifier_among(a, b, k - 1);
    }
}

proof fn lemma_function(a: TreeNode, b: TreeNode, doc: Option<Seq<char>>)
    requires
        same_tree(a, b),
    ensures
        crate::classify::function_view(a, doc) == crate::classify::function_view(b, doc),
{
    let ac = a.children@;
    let bc = b.children@;
    lemma_same_children(a, b);
    lemma_find_kind(ac, bc, crate::tree::NodeKind::Body, 0);
    let body = find_kind_from(ac, crate::tree::NodeKind::Body, 0);
    if body <= ac.len() {
        lemma_last_declaration(ac, bc, body);
        lemma_texts_where(ac, bc, body, Select::Modifiers);
        match last_declaration(ac, body) {
            Some(d) => {
                lemma_last_declaration_bound(ac, body);
                assert(same_tree(ac[d], bc[d]));
                lemma_same_children(ac[d], bc[d]);
                let dac = ac[d].children@;
                let dbc = bc[d].children@;
                lemma_find_field(dac, dbc, "name"@, 0);
                lemma_find_kind(dac, dbc, crate::tree::NodeKind::Parameters, 0);
                let p = find_kind_from(dac, crate::tree::NodeKind::Parameters, 0);
                if 0 <= p < dac.len() {
                    assert(same_tree(dac[p], dbc[p]));
                    lemma_same_children(dac[p], dbc[p]);
                    lemma_texts_where(
                        dac[p].children@,
                        dbc[p].children@,
                        dac[p].children@.len() as int,
                        Select::Arguments,
                    );
                }
                let x = find_field_from(dac, "name"@, 0);
                if 0 <= x < dac.len() {
                    assert(same_tree(dac[x], dbc[x]));
                }
            },
            None => {},
        }
    }
}

proof fn lemma_command(a: TreeNode, b: TreeNode, doc: Option<Seq<char>>)
    requires
        same_tree(a, b),
    ensures
        crate::classify::command_view(a, doc) == crate::classify::command_view(b, doc),
{
    let ac = a.children@;
    let bc = b.children@;
    lemma_same_children(a, b);
    lemma_find_field(ac, bc, "name"@, 0);
    lemma_texts_where(ac, bc, ac.len() as int, Select::Attributes);
    let x = find_field_from(ac, "name"@, 0);
    if 0 <= x < ac.len() {
        assert(same_tree(ac[x], bc[x]));
    }
}

proof fn lemma_let(a: TreeNode, b: TreeNode, doc: Option<Seq<char>>)
    requires
        same_tree(a, b),
    ensures
        crate::classify::let_view(a, doc) == crate::classify::let_view(b, doc),
{
    let ac = a.children@;
    let bc = b.children@;
    lemma_same_children(a, b);
    if ac.len() >= 4 {
        assert(same_tree(ac[0], bc[0]));
        assert(same_tree(ac[1], bc[1]));
        assert(same_tree(ac[2], bc[2]));
        assert(same_tree(ac[3], bc[3]));
        let (la, lb, ra, rb) = (ac[1], bc[1], ac[3], bc[3]);
        lemma_same_children(la, lb);
        lemma_same_children(ra, rb);
        lemma_named_indices(la.children@, lb.children@, la.children@.len() as int);
        lemma_named_indices(ra.children@, rb.children@, ra.children@.len() as int);
        lemma_named_indices_bound(la.children@, la.children@.len() as int);
        lemma_named_indices_bound(ra.children@, ra.children@.len() as int);
        let names = named_indices(la.children@, la.children@.len() as int);
        let values = named_indices(ra.children@, ra.children@.len() as int);
        assert forall|k: int| 0 <= k < names.len() implies same_tree(
            la.children@[#[trigger] names[k]],
            lb.children@[names[k]],
        ) by {}
        assert forall|k: int| 0 <= k < values.len() implies same_tree(
            ra.children@[#[trigger] values[k]],
            rb.children@[values[k]],
        ) by {}
        assert(crate::classify::let_view(a, doc) =~= crate::classify::let_view(b, doc));
    }
}

proof fn lemma_flag(a: TreeNode, b: TreeNode, doc: Option<Seq<char>>)
    requires
        same_tree(a, b),
    ensures
        crate::classify::flag_view(a, doc) == crate::classify::flag_view(b, doc),
{
    let ac = a.children@;
    let bc = b.children@;
    lemma_same_children(a, b);
    lemma_find_kind(ac, bc, crate::tree::NodeKind::CallExpression, 0);
    let c = find_kind_from(ac, crate::tree::NodeKind::CallExpression, 0);
    if 0 <= c < ac.len() {
        assert(same_tree(ac[c], bc[c]));
        lemma_same_children(ac[c], bc[c]);
        let cea = ac[c].children@;
        let ceb = bc[c].children@;
        lemma_find_field(cea, ceb, "function"@, 0);
        let f = find_field_from(cea, "function"@, 0);
        if 0 <= f < cea.len() {
            assert(same_tree(cea[f], ceb[f]));
            lemma_last_identifier(cea[f], ceb[f]);
            lemma_find_named(cea, ceb, f + 1);
            let a1 = find_named_from(cea, f + 1);
            if 0 <= a1 < cea.len() {
                assert(same_tree(cea[a1], ceb[a1]));
                lemma_find_named(cea, ceb, a1 + 1);
                let a2 = find_named_from(cea, a1 + 1);
                if 0 <= a2 < cea.len() {
                    assert(same_tree(cea[a2], ceb[a2]));
                }
            }
        }
    }
}

proof fn lemma_classify(a: TreeNode, b: TreeNode, doc: Option<Seq<char>>)
    requires
        same_tree(a, b),
    ensures
        classify_view(a, doc) == classify_view(b, doc),
{
    lemma_function(a, b, doc);
    lemma_command(a, b, doc);
    lemma_let(a, b, doc);
    lemma_flag(a, b, doc);
}

proof fn lemma_last_declaration_bound(cs: Seq<TreeNode>, k: int)
    ensures
        last_declaration(cs, k) matches Some(d) ==> 0 <= d < k,
    decreases k,
{
    if k > 0 {
        lemma_last_declaration_bound(cs, k - 1);
    }
}

proof fn lemma_run_end(a: Seq<TreeNode>, b: Seq<TreeNode>, i: int, j: int)
    requires
        same_trees(a, b),
        0 <= i < a.len(),
        0 <= j,
    ensures
        run_end(a, i, j) == run_end(b, i, j),
    decreases a.len() - j,
{
    assert(same_tree(a[i], b[i]));
    if 0 <= j < a.len() {
        assert(same_tree(a[j], b[j]));
        lemma_run_end(a, b, i, j + 1);
    }
}

proof fn lemma_emitted(a: Seq<TreeNode>, b: Seq<TreeNode>, i: int)
    requires
        same_trees(a, b),
    ensures
        emitted_from(a, i) == emitted_from(b, i),
    decreases a.len() - i,
{
    if 0 <= i < a.len() {
        assert(same_tree(a[i], b[i]));
        lemma_run_end(a, b, i, i + 1);
        let e = group_end(a, i);
        assert(e == group_end(b, i));
        lemma_classify(a[i], b[i], None);
        if i < e <= a.len() {
            assert(texts_of(a, i, e) =~= texts_of(b, i, e)) by {
                assert forall|k: int| 0 <= k < e - i implies texts_of(a, i, e)[k] == texts_of(
                    b,
                    i,
                    e,
                )[k] by {
                    assert(same_tree(a[i + k], b[i + k]));
                }
            }
            if e < a.len() {
                assert(same_tree(a[e], b[e]));
                lemma_classify(a[e], b[e], block_doc_of(texts_of(a, i, e)));
                lemma_emitted(a, b, e + 1);
            }
            lemma_emitted(a, b, e);
        }
        lemma_emitted(a, b, i + 1);
    }
}

/// The extraction is idempotent: statements that hold the same kinds,
/// fields, texts and positions make structurally equal modules, so a source
/// text parsed twice into the same tree gives equal modules.
pub proof fn lemma_same_statements_same_module(a: Seq<TreeNode>, b: Seq<TreeNode>)
    requires
        same_trees(a, b),
    ensures
        module_of(a) == module_of(b),
{
    lemma_emitted(a, b, 0);
}

} // verus!
