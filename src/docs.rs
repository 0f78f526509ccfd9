use vstd::prelude::*;
use vstd::string::*;

use crate::data::opt_view;
use crate::tree::TreeNode;

verus! {

/// The Unicode `White_Space` characters, which `char::is_whitespace` and
/// `str::trim_end` treat as whitespace.
pub open spec fn is_white(c: char) -> bool {
    let u = c as int;
    ||| 9 <= u <= 13
    ||| u == 32
    ||| u == 0x85
    ||| u == 0xA0
    ||| u == 0x1680
    ||| 0x2000 <= u <= 0x200A
    ||| u == 0x2028
    ||| u == 0x2029
    ||| u == 0x202F
    ||| u == 0x205F
    ||| u == 0x3000
}

/// `s` without its trailing whitespace.
pub open spec fn trimmed_end(s: Seq<char>) -> Seq<char>
    decreases s.len(),
{
    if s.len() > 0 && is_white(s.last()) {
        trimmed_end(s.drop_last())
    } else {
        s
    }
}

/// What is left after trimming ends in a character that is not whitespace.
pub proof fn lemma_trimmed_end_not_blank(s: Seq<char>)
    ensures
        trimmed_end(s).len() > 0 ==> !is_white(trimmed_end(s).last()),
        trimmed_end(s).len() <= s.len(),
    decreases s.len(),
{
    if s.len() > 0 && is_white(s.last()) {
        lemma_trimmed_end_not_blank(s.drop_last());
    }
}

/// Relies on `str::trim_end`: the string without its trailing `White_Space`
/// characters.
#[verifier::external_body]
fn trim_end(s: &str) -> (r: String)
    ensures
        r@ == trimmed_end(s@),
{
    s.trim_end().to_string()
}

/// `s` without one leading space, if it has one.
pub open spec fn strip_space(s: Seq<char>) -> Seq<char> {
    if s.len() > 0 && s[0] == ' ' {
        s.drop_first()
    } else {
        s
    }
}

/// `s` without its leading comment marker `"`, if it has one.
pub open spec fn strip_marker(s: Seq<char>) -> Seq<char> {
    if s.len() > 0 && s[0] == '"' {
        s.drop_first()
    } else {
        s
    }
}

/// A comment that opens a doc block starts with a doubled marker `""`.
pub open spec fn has_leader(s: Seq<char>) -> bool {
    s.len() >= 2 && s[0] == '"' && s[1] == '"'
}

/// The first line of a doc block: the text after the leader, without one
/// leading space; none when that text is blank.
pub open spec fn leader_line(s: Seq<char>) -> Seq<Seq<char>> {
    let rest = s.subrange(2, s.len() as int);
    if trimmed_end(rest).len() > 0 {
        seq![strip_space(rest)]
    } else {
        Seq::empty()
    }
}

/// A continuation line: the comment without its marker and one leading space.
pub open spec fn continuation_line(s: Seq<char>) -> Seq<char> {
    strip_space(strip_marker(s))
}

/// The lines joined with newlines.
pub open spec fn join_lines(ls: Seq<Seq<char>>) -> Seq<char>
    decreases ls.len(),
{
    if ls.len() == 0 {
        Seq::empty()
    } else if ls.len() == 1 {
        ls[0]
    } else {
        join_lines(ls.drop_last()) + seq!['\n'] + ls.last()
    }
}

/// The content lines of a run of comment texts whose first one has the leader.
pub open spec fn block_lines(texts: Seq<Seq<char>>) -> Seq<Seq<char>> {
    leader_line(texts[0]) + Seq::new(
        (texts.len() - 1) as nat,
        |k: int| continuation_line(texts[k + 1]),
    )
}

/// The doc text of a run of comment texts: the joined content lines with
/// trailing whitespace trimmed; none unless the first text has the leader,
/// and none when nothing is left after trimming.
pub open spec fn block_doc_of(texts: Seq<Seq<char>>) -> Option<Seq<char>> {
    if texts.len() > 0 && has_leader(texts[0]) && trimmed_end(join_lines(block_lines(texts))).len()
        > 0 {
        Some(trimmed_end(join_lines(block_lines(texts))))
    } else {
        None
    }
}

/// The texts of the nodes `cs[start..end]`.
pub open spec fn texts_of(cs: Seq<TreeNode>, start: int, end: int) -> Seq<Seq<char>> {
    Seq::new((end - start) as nat, |k: int| cs[start + k].text@)
}

fn strip_space_str(s: &str) -> (r: &str)
    ensures
        r@ == strip_space(s@),
{
    let n = s.unicode_len();
    if n > 0 && s.get_char(0) == ' ' {
        s.substring_char(1, n)
    } else {
        s
    }
}

fn strip_marker_str(s: &str) -> (r: &str)
    ensures
        r@ == strip_marker(s@),
{
    let n = s.unicode_len();
    if n > 0 && s.get_char(0) == '"' {
        s.substring_char(1, n)
    } else {
        s
    }
}

/// Joins the lines with newlines.
pub fn join(lines: &Vec<String>) -> (r: String)
    ensures
        r@ == join_lines(lines@.map_values(|l: String| l@)),
{
    let ghost ls = lines@.map_values(|l: String| l@);
    let mut r = String::new();
    let mut k: usize = 0;
    while k < lines.len()
        invariant
            k <= lines.len(),
            ls == lines@.map_values(|l: String| l@),
            r@ == join_lines(ls.subrange(0, k as int)),
        decreases lines.len() - k,
    {
        assert(ls.subrange(0, k + 1).drop_last() == ls.subrange(0, k as int));
        if k > 0 {
            let nl = "\n";
            proof {
                reveal_strlit("\n");
            }
            r.append(nl);
        } else {
            assert(r@ == Seq::<char>::empty());
        }
        r.append(lines[k].as_str());
        k = k + 1;
    }
    assert(ls.subrange(0, lines.len() as int) == ls);
    r
}

/// The doc text of the comment block `cs[start..end]` (see [block_doc_of]).
pub fn block_doc(cs: &Vec<TreeNode>, start: usize, end: usize) -> (r: Option<String>)
    requires
        start < end <= cs@.len(),
    ensures
        opt_view(r) == block_doc_of(texts_of(cs@, start as int, end as int)),
{
    let ghost texts = texts_of(cs@, start as int, end as int);
    let first = cs[start].text.as_str();
    if !has_doc_leader(first) {
        return None;
    }
    let n = first.unicode_len();
    let rest = first.substring_char(2, n);
    let mut lines: Vec<String> = Vec::new();
    let trimmed = trim_end(rest);
    if trimmed.as_str().unicode_len() > 0 {
        lines.push(String::from_str(strip_space_str(rest)));
    }
    let ghost lead = lines@.map_values(|l: String| l@);
    assert(lead == leader_line(texts[0]));
    let mut j: usize = start + 1;
    while j < end
        invariant
            start < j <= end <= cs@.len(),
            texts == texts_of(cs@, start as int, end as int),
            lines@.map_values(|l: String| l@) == lead + Seq::new(
                (j - start - 1) as nat,
                |k: int| continuation_line(texts[k + 1]),
            ),
        decreases end - j,
    {
        let line = strip_space_str(strip_marker_str(cs[j].text.as_str()));
        assert(texts[j - start] == cs@[j as int].text@);
        let ghost before = lines@.map_values(|l: String| l@);
        lines.push(String::from_str(line));
        assert(lines@.map_values(|l: String| l@) =~= before.push(line@));
        assert(lines@.map_values(|l: String| l@) =~= lead + Seq::new(
            (j + 1 - start - 1) as nat,
            |k: int| continuation_line(texts[k + 1]),
        ));
        j = j + 1;
    }
    assert(lines@.map_values(|l: String| l@) =~= block_lines(texts));
    let joined = join(&lines);
    let doc = trim_end(joined.as_str());
    if doc.as_str().unicode_len() > 0 {
        Some(doc)
    } else {
        None
    }
}

/// Whether the comment text opens a doc block (see [has_leader]).
pub fn has_doc_leader(s: &str) -> (r: bool)
    ensures
        r == has_leader(s@),
{
    let n = s.unicode_len();
    n >= 2 && s.get_char(0) == '"' && s.get_char(1) == '"'
}

/// A doc text is never blank: it ends in a character that is not
/// whitespace.
pub proof fn lemma_doc_not_blank(texts: Seq<Seq<char>>)
    ensures
        block_doc_of(texts) matches Some(d) ==> d.len() > 0 && !is_white(d.last()),
{
    lemma_trimmed_end_not_blank(join_lines(block_lines(texts)));
}

} // verus!
