use vstd::prelude::*;
use vstd::string::*;

use crate::data::{opt_view, VimModule};
use crate::tree::str_eq;

verus! {

/// The number of sections a plugin may hold files in.
pub const SECTION_COUNT: usize = 11;

/// The directories that can hold vimscript (`:help vimfiles`, plus the
/// `instant` directory some plugins use), in load order. Each one may also
/// appear under `after/`, which comes after all of them.
pub open spec fn section_names() -> Seq<Seq<char>> {
    seq![
        "plugin"@,
        "instant"@,
        "autoload"@,
        "syntax"@,
        "indent"@,
        "ftdetect"@,
        "ftplugin"@,
        "compiler"@,
        "spell"@,
        "lang"@,
        "colors"@,
    ]
}

/// The position of `name` in [section_names], if it is a section.
pub open spec fn section_position(name: Seq<char>) -> Option<nat> {
    position_from(name, 0)
}

/// The first position at or after `i` of `name` in [section_names].
pub open spec fn position_from(name: Seq<char>, i: int) -> Option<nat>
    decreases section_names().len() - i,
{
    if i < 0 || i >= section_names().len() {
        None
    } else if section_names()[i] == name {
        Some(i as nat)
    } else {
        position_from(name, i + 1)
    }
}

proof fn lemma_position_from(name: Seq<char>, i: int)
    requires
        0 <= i,
    ensures
        position_from(name, i) matches Some(j) ==> i <= j < section_names().len()
            && section_names()[j as int] == name,
        position_from(name, i) is None ==> forall|t: int|
            i <= t < section_names().len() ==> section_names()[t] != name,
    decreases section_names().len() - i,
{
    if i < section_names().len() && section_names()[i] != name {
        lemma_position_from(name, i + 1);
    }
}

/// The sort key of a path below a root (plain or `after/`) at `offset`,
/// where `depth` is the length of the whole path: the root itself, the
/// root's `menu.vim`, a section, a file in a section, or any path under
/// `autoload`; none for any other path.
pub open spec fn key_below(parts: Seq<Seq<char>>, offset: nat, depth: nat) -> Option<(nat, nat)> {
    if parts.len() == 0 {
        Some((offset, depth))
    } else if parts.len() == 1 && parts[0] == "menu.vim"@ {
        Some((offset, depth))
    } else if parts[0] == "autoload"@ || parts.len() <= 2 {
        match section_position(parts[0]) {
            Some(idx) => Some((offset + idx, depth)),
            None => None,
        }
    } else {
        None
    }
}

/// The sort key of a path relative to the plugin root, from its parts:
/// `(overlay offset + section index, depth)`, where `after/` paths have the
/// offset [SECTION_COUNT]; none for a path that the plugin does not load.
pub open spec fn order_in_sections_of(parts: Seq<Seq<char>>) -> Option<(nat, nat)> {
    match key_below(parts, 0, parts.len()) {
        Some(k) => Some(k),
        None => if parts.len() > 0 && parts[0] == "after"@ {
            key_below(parts.drop_first(), SECTION_COUNT as nat, parts.len())
        } else {
            None
        },
    }
}

pub open spec fn parts_view(parts: Seq<String>) -> Seq<Seq<char>> {
    parts.map_values(|s: String| s@)
}

pub fn section_index(name: &str) -> (r: Option<usize>)
    ensures
        match r {
            Some(i) => section_position(name@) == Some(i as nat),
            None => section_position(name@) is None,
        },
        r matches Some(i) ==> i < SECTION_COUNT,
{
    let names = [
        "plugin",
        "instant",
        "autoload",
        "syntax",
        "indent",
        "ftdetect",
        "ftplugin",
        "compiler",
        "spell",
        "lang",
        "colors",
    ];
    let ghost want = section_names();
    assert(names@.map_values(|s: &str| s@) =~= want);
    let mut i: usize = 0;
    while i < SECTION_COUNT
        invariant
            i <= SECTION_COUNT,
            names@.len() == SECTION_COUNT,
            want == section_names(),
            names@.map_values(|s: &str| s@) == want,
            position_from(name@, 0) == position_from(name@, i as int),
        decreases SECTION_COUNT - i,
    {
        assert(names@[i as int]@ == want[i as int]);
        if str_eq(names[i], name) {
            return Some(i);
        }
        i = i + 1;
    }
    None
}

proof fn lemma_section_name_facts()
    ensures
        section_names()[0][0] == 'p' && section_names()[0].len() == 6,
        section_names()[1][0] == 'i' && section_names()[1].len() == 7,
        section_names()[2][0] == 'a' && section_names()[2].len() == 8,
        section_names()[3][0] == 's' && section_names()[3].len() == 6,
        section_names()[4][0] == 'i' && section_names()[4].len() == 6,
        section_names()[5][0] == 'f' && section_names()[5][2] == 'd' && section_names()[5].len() == 8,
        section_names()[6][0] == 'f' && section_names()[6][2] == 'p' && section_names()[6].len() == 8,
        section_names()[7][0] == 'c' && section_names()[7].len() == 8,
        section_names()[8][0] == 's' && section_names()[8].len() == 5,
        section_names()[9][0] == 'l' && section_names()[9].len() == 4,
        section_names()[10][0] == 'c' && section_names()[10].len() == 6,
{
    reveal_strlit("plugin");
    reveal_strlit("instant");
    reveal_strlit("autoload");
    reveal_strlit("syntax");
    reveal_strlit("indent");
    reveal_strlit("ftdetect");
    reveal_strlit("ftplugin");
    reveal_strlit("compiler");
    reveal_strlit("spell");
    reveal_strlit("lang");
    reveal_strlit("colors");
}

proof fn lemma_section_names_distinct(a: int, b: int)
    requires
        0 <= a < section_names().len(),
        0 <= b < section_names().len(),
        a != b,
    ensures
        section_names()[a] != section_names()[b],
{
    lemma_section_name_facts();
    let ns = section_names();
    if ns[a] == ns[b] {
        assert(ns[a].len() == ns[b].len());
        assert(ns[a][0] == ns[b][0]);
        if ns[a].len() == 8 && ns[a][0] == 'f' {
            assert(ns[a][2] == ns[b][2]);
        }
    }
}

fn key_below_exec(parts: &Vec<String>, start: usize, offset: usize, depth: usize) -> (r: Option<
    (usize, usize),
>)
    requires
        start <= parts@.len(),
        offset == 0 || offset == SECTION_COUNT,
    ensures
        match r {
            Some((a, b)) => key_below(
                parts_view(parts@).subrange(start as int, parts@.len() as int),
                offset as nat,
                depth as nat,
            ) == Some((a as nat, b as nat)),
            None => key_below(
                parts_view(parts@).subrange(start as int, parts@.len() as int),
                offset as nat,
                depth as nat,
            ) is None,
        },
{
    let ghost ps = parts_view(parts@).subrange(start as int, parts@.len() as int);
    let n = parts.len() - start;
    if n == 0 {
        return Some((offset, depth));
    }
    assert(ps[0] == parts@[start as int]@);
    let first = parts[start].as_str();
    if n == 1 && str_eq(first, "menu.vim") {
        return Some((offset, depth));
    }
    if str_eq(first, "autoload") || n <= 2 {
        match section_index(first) {
            Some(idx) => Some((offset + idx, depth)),
            None => None,
        }
    } else {
        None
    }
}

/// The sort key of a path relative to the plugin root, given by its parts
/// (see [order_in_sections_of]).
pub fn order_in_sections(parts: &Vec<String>) -> (r: Option<(usize, usize)>)
    ensures
        match r {
            Some((a, b)) => order_in_sections_of(parts_view(parts@)) == Some((a as nat, b as nat)),
            None => order_in_sections_of(parts_view(parts@)) is None,
        },
{
    let ghost ps = parts_view(parts@);
    assert(ps.subrange(0, parts@.len() as int) =~= ps);
    let depth = parts.len();
    match key_below_exec(parts, 0, 0, depth) {
        Some(k) => Some(k),
        None => {
            if parts.len() > 0 && str_eq(parts[0].as_str(), "after") {
                assert(ps.subrange(1, parts@.len() as int) =~= ps.drop_first());
                key_below_exec(parts, 1, SECTION_COUNT, depth)
            } else {
                None
            }
        },
    }
}

/// An entry below the plugin root: the parts of its path relative to the
/// root, and whether it is a regular file.
pub struct PluginEntry {
    pub parts: Vec<String>,
    pub is_file: bool,
}

pub open spec fn ends_with_vim(s: Seq<char>) -> bool {
    s.len() >= 4 && s[s.len() - 4] == '.' && s[s.len() - 3] == 'v' && s[s.len() - 2] == 'i'
        && s[s.len() - 1] == 'm'
}

pub open spec fn entry_key(e: PluginEntry) -> Option<(nat, nat)> {
    order_in_sections_of(parts_view(e.parts@))
}

/// A vimscript file in one of the plugin's sections.
pub open spec fn is_module_file(e: PluginEntry) -> bool {
    e.is_file && e.parts@.len() > 0 && ends_with_vim(e.parts@.last()@) && entry_key(e) is Some
}

pub open spec fn key_lt(a: (nat, nat), b: (nat, nat)) -> bool {
    a.0 < b.0 || (a.0 == b.0 && a.1 < b.1)
}

/// Lexicographic order of texts, by character code.
pub open spec fn text_lt(a: Seq<char>, b: Seq<char>) -> bool
    decreases a.len(),
{
    if a.len() == 0 {
        b.len() > 0
    } else if b.len() == 0 {
        false
    } else if a[0] != b[0] {
        (a[0] as int) < (b[0] as int)
    } else {
        text_lt(a.drop_first(), b.drop_first())
    }
}

/// Two texts are equal or one goes before the other, not both ways.
proof fn lemma_text_lt_total(a: Seq<char>, b: Seq<char>)
    ensures
        a == b || text_lt(a, b) || text_lt(b, a),
        !(text_lt(a, b) && text_lt(b, a)),
    decreases a.len(),
{
    if a.len() == 0 && b.len() == 0 {
        assert(a =~= b);
    } else if a.len() > 0 && b.len() > 0 {
        if a[0] == b[0] {
            lemma_text_lt_total(a.drop_first(), b.drop_first());
            if a.drop_first() == b.drop_first() {
                assert(a =~= seq![a[0]] + a.drop_first());
                assert(b =~= seq![b[0]] + b.drop_first());
            }
        } else {
            assert((a[0] as int) != (b[0] as int));
        }
    }
}

proof fn lemma_text_lt_trans(a: Seq<char>, b: Seq<char>, c: Seq<char>)
    requires
        text_lt(a, b),
        text_lt(b, c),
    ensures
        text_lt(a, c),
    decreases a.len(),
{
    if a.len() > 0 && b.len() > 0 && c.len() > 0 && a[0] == b[0] && b[0] == c[0] {
        lemma_text_lt_trans(a.drop_first(), b.drop_first(), c.drop_first());
    }
}

/// Whether `a` goes before `b` in [text_lt] order.
fn text_before(a: &str, b: &str) -> (r: bool)
    ensures
        r == text_lt(a@, b@),
{
    let la = a.unicode_len();
    let lb = b.unicode_len();
    assert(a@.subrange(0, la as int) =~= a@);
    assert(b@.subrange(0, lb as int) =~= b@);
    let mut i: usize = 0;
    while i < la && i < lb
        invariant
            la == a@.len(),
            lb == b@.len(),
            i <= la,
            i <= lb,
            text_lt(a@, b@) == text_lt(a@.subrange(i as int, la as int), b@.subrange(i as int, lb as int)),
        decreases la - i,
    {
        let ca = a.get_char(i);
        let cb = b.get_char(i);
        let ghost sa = a@.subrange(i as int, la as int);
        let ghost sb = b@.subrange(i as int, lb as int);
        assert(sa[0] == ca && sb[0] == cb);
        if ca != cb {
            return (ca as u32) < (cb as u32);
        }
        assert(sa.drop_first() =~= a@.subrange(i + 1, la as int));
        assert(sb.drop_first() =~= b@.subrange(i + 1, lb as int));
        i = i + 1;
    }
    i == la && i < lb
}

/// The path of an entry, relative to the plugin root.
pub open spec fn entry_path(e: PluginEntry) -> Seq<char> {
    joined_path(parts_view(e.parts@))
}

/// Entry `i` goes before entry `j`: by key, then by path, then (for the
/// same path listed twice) by position in the listing.
pub open spec fn comes_before(es: Seq<PluginEntry>, i: int, j: int) -> bool {
    let ki = entry_key(es[i])->Some_0;
    let kj = entry_key(es[j])->Some_0;
    let pi = entry_path(es[i]);
    let pj = entry_path(es[j]);
    key_lt(ki, kj) || (ki == kj && (text_lt(pi, pj) || (pi == pj && i < j)))
}

proof fn lemma_comes_before_total(es: Seq<PluginEntry>, x: int, y: int)
    requires
        x != y,
    ensures
        comes_before(es, x, y) || comes_before(es, y, x),
{
    lemma_text_lt_total(entry_path(es[x]), entry_path(es[y]));
}

proof fn lemma_comes_before_trans(es: Seq<PluginEntry>, x: int, y: int, z: int)
    requires
        comes_before(es, x, y),
        comes_before(es, y, z),
    ensures
        comes_before(es, x, z),
{
    let (px, py, pz) = (entry_path(es[x]), entry_path(es[y]), entry_path(es[z]));
    if text_lt(px, py) && text_lt(py, pz) {
        lemma_text_lt_trans(px, py, pz);
    }
}

/// `order` lists each module file of `es` once, by key and then by
/// position in `es`.
pub open spec fn is_plugin_order(es: Seq<PluginEntry>, order: Seq<int>) -> bool {
    &&& forall|t: int|
        0 <= t < order.len() ==> 0 <= #[trigger] order[t] < es.len() && is_module_file(
            es[order[t]],
        )
    &&& forall|i: int|
        0 <= i < es.len() && #[trigger] is_module_file(es[i]) ==> exists|t: int|
            0 <= t < order.len() && order[t] == i
    &&& forall|a: int, b: int|
        0 <= a < b < order.len() ==> comes_before(es, #[trigger] order[a], #[trigger] order[b])
}

fn is_vim_file_name(s: &str) -> (r: bool)
    ensures
        r == ends_with_vim(s@),
{
    let n = s.unicode_len();
    n >= 4 && s.get_char(n - 4) == '.' && s.get_char(n - 3) == 'v' && s.get_char(n - 2) == 'i'
        && s.get_char(n - 1) == 'm'
}

proof fn lemma_insert_sorted(es: Seq<PluginEntry>, r: Seq<usize>, p: int, i: usize)
    requires
        0 <= p <= r.len(),
        forall|t: int| 0 <= t < r.len() ==> #[trigger] r[t] < i,
        forall|a: int, b: int|
            0 <= a < b < r.len() ==> comes_before(es, #[trigger] r[a] as int, #[trigger] r[b] as int),
        forall|t: int| 0 <= t < p ==> !comes_before(es, i as int, #[trigger] r[t] as int),
        p < r.len() ==> comes_before(es, i as int, r[p] as int),
    ensures
        forall|a: int, b: int|
            0 <= a < b < r.insert(p, i).len() ==> comes_before(
                es,
                #[trigger] r.insert(p, i)[a] as int,
                #[trigger] r.insert(p, i)[b] as int,
            ),
{
    let n = r.insert(p, i);
    assert forall|a: int, b: int| 0 <= a < b < n.len() implies comes_before(
        es,
        #[trigger] n[a] as int,
        #[trigger] n[b] as int,
    ) by {
        if a < p && b < p {
            assert(n[a] == r[a] && n[b] == r[b]);
        } else if a < p && b == p {
            assert(n[a] == r[a] && n[b] == i);
            lemma_comes_before_total(es, i as int, r[a] as int);
        } else if a < p {
            assert(n[a] == r[a] && n[b] == r[b - 1]);
        } else if a == p {
            assert(n[a] == i && n[b] == r[b - 1]);
            if b - 1 > p {
                assert(comes_before(es, r[p] as int, r[b - 1] as int));
                lemma_comes_before_trans(es, i as int, r[p] as int, r[b - 1] as int);
            }
        } else {
            assert(n[a] == r[a - 1] && n[b] == r[b - 1]);
        }
    }
}

fn key_before(a: (usize, usize), b: (usize, usize)) -> (r: bool)
    ensures
        r == key_lt((a.0 as nat, a.1 as nat), (b.0 as nat, b.1 as nat)),
{
    a.0 < b.0 || (a.0 == b.0 && a.1 < b.1)
}

/// The order in which the plugin's modules are read: the positions in
/// `entries` of the vimscript files that lie in a section, sorted by their
/// key (see [order_in_sections_of]) and then by path, so that the order
/// does not depend on the order of the listing. Files elsewhere are left
/// out.
pub fn plugin_file_order(entries: &Vec<PluginEntry>) -> (r: Vec<usize>)
    ensures
        is_plugin_order(entries@, r@.map_values(|i: usize| i as int)),
{
    let ghost es = entries@;
    let mut r: Vec<usize> = Vec::new();
    let mut rk: Vec<(usize, usize)> = Vec::new();
    let mut rp: Vec<String> = Vec::new();
    let mut i: usize = 0;
    while i < entries.len()
        invariant
            es == entries@,
            i <= es.len(),
            rk@.len() == r@.len(),
            rp@.len() == r@.len(),
            forall|t: int|
                0 <= t < r@.len() ==> #[trigger] r@[t] < i && is_module_file(es[r@[t] as int])
                    && entry_key(es[r@[t] as int]) == Some((rk@[t].0 as nat, rk@[t].1 as nat))
                    && entry_path(es[r@[t] as int]) == rp@[t]@,
            forall|j: int|
                0 <= j < i && #[trigger] is_module_file(es[j]) ==> exists|t: int|
                    0 <= t < r@.len() && r@[t] == j,
            forall|a: int, b: int|
                0 <= a < b < r@.len() ==> comes_before(
                    es,
                    #[trigger] r@[a] as int,
                    #[trigger] r@[b] as int,
                ),
        decreases es.len() - i,
    {
        let e = &entries[i];
        let key = if e.is_file && e.parts.len() > 0 && is_vim_file_name(
            e.parts[e.parts.len() - 1].as_str(),
        ) {
            order_in_sections(&e.parts)
        } else {
            None
        };
        match key {
            Some(k) => {
                let path = relative_path(&e.parts);
                assert(is_module_file(es[i as int]));
                assert(entry_key(es[i as int]) == Some((k.0 as nat, k.1 as nat)));
                let mut p: usize = 0;
                while p < rk.len()
                    invariant
                        p <= rk@.len(),
                        rk@.len() == r@.len(),
                        rp@.len() == r@.len(),
                        i < es.len(),
                        entry_key(es[i as int]) == Some((k.0 as nat, k.1 as nat)),
                        entry_path(es[i as int]) == path@,
                        forall|t: int|
                            0 <= t < r@.len() ==> #[trigger] r@[t] < i && entry_key(
                                es[r@[t] as int],
                            ) == Some((rk@[t].0 as nat, rk@[t].1 as nat)) && entry_path(
                                es[r@[t] as int],
                            ) == rp@[t]@,
                        forall|t: int|
                            0 <= t < p ==> !comes_before(es, i as int, #[trigger] r@[t] as int),
                    ensures
                        p <= rk@.len(),
                        forall|t: int|
                            0 <= t < p ==> !comes_before(es, i as int, #[trigger] r@[t] as int),
                        p < rk@.len() ==> comes_before(es, i as int, r@[p as int] as int),
                    decreases rk@.len() - p,
                {
                    let kp = rk[p];
                    let first = key_before(k, kp) || (k.0 == kp.0 && k.1 == kp.1 && text_before(
                        path.as_str(),
                        rp[p].as_str(),
                    ));
                    assert(first == comes_before(es, i as int, r@[p as int] as int));
                    if first {
                        break;
                    }
                    p = p + 1;
                }
                let ghost old_r = r@;
                let ghost old_rp = rp@;
                r.insert(p, i);
                rk.insert(p, k);
                rp.insert(p, path);
                assert forall|t: int| 0 <= t < r@.len() implies #[trigger] r@[t] < i + 1
                    && is_module_file(es[r@[t] as int]) && entry_key(es[r@[t] as int]) == Some(
                    (rk@[t].0 as nat, rk@[t].1 as nat),
                ) && entry_path(es[r@[t] as int]) == rp@[t]@ by {
                    if t < p {
                        assert(r@[t] == old_r[t]);
                    } else if t > p {
                        assert(r@[t] == old_r[t - 1]);
                    }
                }
                assert forall|j: int|
                    0 <= j < i + 1 && #[trigger] is_module_file(es[j]) implies exists|t: int|
                    0 <= t < r@.len() && r@[t] == j by {
                    if j == i {
                        assert(r@[p as int] == i);
                    } else {
                        let t0 = choose|t: int| 0 <= t < old_r.len() && old_r[t] == j;
                        if t0 < p {
                            assert(r@[t0] == j);
                        } else {
                            assert(r@[t0 + 1] == j);
                        }
                    }
                }
                proof {
                    lemma_insert_sorted(es, old_r, p as int, i);
                }
                assert(r@ == old_r.insert(p as int, i));
            },
            None => {
                assert(!is_module_file(es[i as int]));
            },
        }
        i = i + 1;
    }
    let ghost order = r@.map_values(|i: usize| i as int);
    assert forall|i: int| 0 <= i < es.len() && #[trigger] is_module_file(es[i]) implies exists|t: int|
        0 <= t < order.len() && order[t] == i by {
        let t0 = choose|t: int| 0 <= t < r@.len() && r@[t] == i;
        assert(order[t0] == i);
    }
    assert forall|a: int, b: int| 0 <= a < b < order.len() implies comes_before(
        es,
        #[trigger] order[a],
        #[trigger] order[b],
    ) by {
        assert(comes_before(es, r@[a] as int, r@[b] as int));
    }
    r
}

/// The parts of a path joined with `/`.
pub open spec fn joined_path(parts: Seq<Seq<char>>) -> Seq<char>
    decreases parts.len(),
{
    if parts.len() == 0 {
        Seq::empty()
    } else if parts.len() == 1 {
        parts[0]
    } else {
        joined_path(parts.drop_last()) + seq!['/'] + parts.last()
    }
}

/// The path, relative to the plugin root, that a module read from the
/// entry with these parts carries.
pub fn relative_path(parts: &Vec<String>) -> (r: String)
    ensures
        r@ == joined_path(parts_view(parts@)),
{
    let ghost ps = parts_view(parts@);
    let mut r = String::new();
    let mut k: usize = 0;
    while k < parts.len()
        invariant
            k <= parts@.len(),
            ps == parts_view(parts@),
            r@ == joined_path(ps.subrange(0, k as int)),
        decreases parts@.len() - k,
    {
        assert(ps.subrange(0, k + 1).drop_last() == ps.subrange(0, k as int));
        if k > 0 {
            let sep = "/";
            proof {
                reveal_strlit("/");
            }
            r.append(sep);
        } else {
            assert(r@ == Seq::<char>::empty());
        }
        r.append(parts[k].as_str());
        k = k + 1;
    }
    assert(ps.subrange(0, parts@.len() as int) == ps);
    r
}

/// The module read from the entry with these parts, carrying its path
/// relative to the plugin root.
pub fn module_at(m: VimModule, parts: &Vec<String>) -> (r: VimModule)
    ensures
        r@.path == Some(joined_path(parts_view(parts@))),
        r@.doc == m@.doc,
        r@.nodes == m@.nodes,
{
    VimModule { path: Some(relative_path(parts)), doc: m.doc, nodes: m.nodes }
}

/// A path under the `after/` overlay.
pub open spec fn is_overlay(parts: Seq<Seq<char>>) -> bool {
    parts.len() > 0 && parts[0] == "after"@
}

proof fn lemma_not_a_section_name(name: Seq<char>)
    requires
        name == "after"@ || name == "menu.vim"@,
    ensures
        section_position(name) is None,
{
    reveal_strlit("after");
    reveal_strlit("menu.vim");
    lemma_section_name_facts();
    let ns = section_names();
    lemma_position_from(name, 0);
    assert forall|i: int| 0 <= i < ns.len() implies ns[i] != name by {
        if ns[i] == name {
            assert(ns[i].len() == name.len());
            assert(ns[i][0] == name[0]);
        }
    }
}

proof fn lemma_section_position_bound(name: Seq<char>)
    ensures
        section_position(name) matches Some(i) ==> i < SECTION_COUNT,
{
    lemma_position_from(name, 0);
}

/// The key of a loaded path is below [SECTION_COUNT] exactly when the path
/// is not under `after/`.
pub proof fn lemma_overlay_key(parts: Seq<Seq<char>>)
    requires
        order_in_sections_of(parts) is Some,
    ensures
        (order_in_sections_of(parts)->Some_0.0 >= SECTION_COUNT) == is_overlay(parts),
{
    reveal_strlit("after");
    reveal_strlit("autoload");
    reveal_strlit("menu.vim");
    if parts.len() > 0 {
        lemma_section_position_bound(parts[0]);
        if parts[0] == "after"@ {
            lemma_not_a_section_name(parts[0]);
            assert(parts[0] != "autoload"@) by {
                assert(parts[0].len() != "autoload"@.len());
            }
            assert(parts[0] != "menu.vim"@) by {
                assert(parts[0].len() != "menu.vim"@.len());
            }
            assert(key_below(parts, 0, parts.len()) is None);
        }
    }
}

/// In a plugin, the modules come in the order of their sections, and every
/// module under the `after/` overlay comes after every module that is not.
pub proof fn lemma_plugin_section_order(es: Seq<PluginEntry>, order: Seq<int>)
    requires
        is_plugin_order(es, order),
    ensures
        forall|a: int, b: int|
            0 <= a < b < order.len() ==> entry_key(es[#[trigger] order[a]])->Some_0.0 <= entry_key(
                es[#[trigger] order[b]],
            )->Some_0.0,
        forall|a: int, b: int|
            0 <= a < order.len() && 0 <= b < order.len() && is_overlay(
                parts_view(es[#[trigger] order[a]].parts@),
            ) && !is_overlay(parts_view(es[#[trigger] order[b]].parts@)) ==> b < a,
{
    assert forall|a: int, b: int|
        0 <= a < order.len() && 0 <= b < order.len() && is_overlay(
            parts_view(es[#[trigger] order[a]].parts@),
        ) && !is_overlay(parts_view(es[#[trigger] order[b]].parts@)) implies b < a by {
        lemma_overlay_key(parts_view(es[order[a]].parts@));
        lemma_overlay_key(parts_view(es[order[b]].parts@));
        if a < b {
            assert(comes_before(es, order[a], order[b]));
        }
    }
    assert forall|a: int, b: int| 0 <= a < b < order.len() implies entry_key(
        es[#[trigger] order[a]],
    )->Some_0.0 <= entry_key(es[#[trigger] order[b]])->Some_0.0 by {
        assert(comes_before(es, order[a], order[b]));
    }
}

/// A path that a plugin does not load: outside every section, or two or
/// more levels below a section other than `autoload` (plain or under
/// `after/`).
pub open spec fn outside_sections(parts: Seq<Seq<char>>) -> bool {
    ||| (parts.len() >= 3 && parts[0] != "autoload"@ && parts[0] != "after"@)
    ||| (parts.len() >= 4 && parts[0] == "after"@ && parts[1] != "autoload"@)
    ||| (parts.len() >= 1 && section_position(parts[0]) is None && parts[0] != "after"@ && parts[0]
        != "menu.vim"@)
    ||| (parts.len() >= 2 && parts[0] == "after"@ && section_position(parts[1]) is None
        && parts[1] != "menu.vim"@)
}

/// No entry outside the sections is ever among a plugin's modules.
pub proof fn lemma_outside_never_loaded(es: Seq<PluginEntry>, order: Seq<int>, i: int)
    requires
        is_plugin_order(es, order),
        0 <= i < es.len(),
        outside_sections(parts_view(es[i].parts@)),
    ensures
        order_in_sections_of(parts_view(es[i].parts@)) is None,
        forall|t: int| 0 <= t < order.len() ==> order[t] != i,
{
    reveal_strlit("after");
    reveal_strlit("autoload");
    reveal_strlit("menu.vim");
    let parts = parts_view(es[i].parts@);
    assert(parts.len() == es[i].parts@.len());
    if parts.len() > 0 && parts[0] == "after"@ {
        lemma_not_a_section_name(parts[0]);
        assert(parts[0] != "autoload"@) by {
            assert(parts[0].len() != "autoload"@.len());
        }
        assert(parts[0] != "menu.vim"@) by {
            assert(parts[0].len() != "menu.vim"@.len());
        }
        assert(parts.drop_first()[0] == parts[1]);
    }
    assert forall|t: int| 0 <= t < order.len() implies order[t] != i by {
        if order[t] == i {
            assert(is_module_file(es[order[t]]));
        }
    }
}

/// A plugin's modules come in the order of their keys and then of their
/// paths, whatever the order in which the entries were listed.
pub proof fn lemma_order_by_key_and_path(es: Seq<PluginEntry>, order: Seq<int>)
    requires
        is_plugin_order(es, order),
    ensures
        forall|a: int, b: int|
            0 <= a < b < order.len() ==> {
                let ka = entry_key(es[#[trigger] order[a]])->Some_0;
                let kb = entry_key(es[#[trigger] order[b]])->Some_0;
                key_lt(ka, kb) || (ka == kb && (text_lt(entry_path(es[order[a]]), entry_path(es[order[b]]))
                    || entry_path(es[order[a]]) == entry_path(es[order[b]])))
            },
{
    assert forall|a: int, b: int| 0 <= a < b < order.len() implies {
        let ka = entry_key(es[#[trigger] order[a]])->Some_0;
        let kb = entry_key(es[#[trigger] order[b]])->Some_0;
        key_lt(ka, kb) || (ka == kb && (text_lt(entry_path(es[order[a]]), entry_path(es[order[b]]))
            || entry_path(es[order[a]]) == entry_path(es[order[b]])))
    } by {
        assert(comes_before(es, order[a], order[b]));
    }
}

proof fn lemma_section_position_of(k: int)
    requires
        0 <= k < section_names().len(),
    ensures
        section_position(section_names()[k]) == Some(k as nat),
{
    let name = section_names()[k];
    lemma_position_from(name, 0);
    match position_from(name, 0) {
        Some(c) => {
            if c != k {
                lemma_section_names_distinct(c as int, k);
            }
        },
        None => {},
    }
}

/// A file directly in the `i`th section, or anywhere under `autoload`, has
/// the key `(i, depth)`; the same path under `after/` has the key
/// `(SECTION_COUNT + i, depth + 1)`, so it follows every plain section.
pub proof fn lemma_section_keys(parts: Seq<Seq<char>>, i: int)
    requires
        0 <= i < SECTION_COUNT,
        parts.len() >= 1,
        parts[0] == section_names()[i],
        parts.len() <= 2 || parts[0] == "autoload"@,
    ensures
        order_in_sections_of(parts) == Some((i as nat, parts.len())),
        order_in_sections_of(seq!["after"@] + parts) == Some(
            ((SECTION_COUNT + i) as nat, parts.len() + 1),
        ),
{
    reveal_strlit("after");
    reveal_strlit("autoload");
    reveal_strlit("menu.vim");
    lemma_section_position_of(i);
    if parts[0] == "menu.vim"@ {
        lemma_not_a_section_name(parts[0]);
    }
    let q = seq!["after"@] + parts;
    assert(q[0] == "after"@);
    assert(q.drop_first() =~= parts);
    lemma_not_a_section_name(q[0]);
    assert(q[0] != "autoload"@) by {
        assert(q[0].len() != "autoload"@.len());
    }
    assert(q[0] != "menu.vim"@) by {
        assert(q[0].len() != "menu.vim"@.len());
    }
    assert(key_below(q, 0, q.len()) is None);
}

} // verus!
