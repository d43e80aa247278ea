use vstd::prelude::*;
use crate::rpc::File;
use crate::text::{chars_of, lemma_lex_total, lemma_lex_trans, lex_lt, string_of};

verus! {

broadcast use vstd::seq_lib::group_seq_properties;

/// A node of the file tree of a torrent: a path segment with the total size
/// and progress of the files below it.
#[derive(Debug)]
pub struct Node {
    pub name: String,
    pub path: String,
    pub size: u64,
    pub downloaded: u64,
    pub children: Vec<Node>,
}

/// A file as the tree builder reads it: length, bytes done, path segments.
pub type Entry = (u64, u64, Vec<String>);

pub type EntryView = (u64, u64, Seq<Seq<char>>);

pub open spec fn segs(e: Entry) -> Seq<Seq<char>> {
    e.2@.map_values(|s: String| s@)
}

pub open spec fn ev(e: Entry) -> EntryView {
    (e.0, e.1, segs(e))
}

pub open spec fn evs(xs: Seq<Entry>) -> Seq<EntryView> {
    xs.map_values(|e: Entry| ev(e))
}

fn lex_less(a: &Vec<char>, b: &Vec<char>) -> (r: bool)
    ensures
        r == lex_lt(a@, b@),
{
    let mut i: usize = 0;
    assert(a@.subrange(0, a@.len() as int) == a@ && b@.subrange(0, b@.len() as int) == b@);
    while i < a.len() && i < b.len() && a[i] == b[i]
        invariant
            i <= a@.len() && i <= b@.len(),
            lex_lt(a@, b@) == lex_lt(a@.subrange(i as int, a@.len() as int), b@.subrange(i as int, b@.len() as int)),
        decreases a@.len() - i,
    {
        proof {
            let sa = a@.subrange(i as int, a@.len() as int);
            let sb = b@.subrange(i as int, b@.len() as int);
            assert(sa.drop_first() == a@.subrange(i + 1, a@.len() as int));
            assert(sb.drop_first() == b@.subrange(i + 1, b@.len() as int));
        }
        i = i + 1;
    }
    proof {
        let sa = a@.subrange(i as int, a@.len() as int);
        let sb = b@.subrange(i as int, b@.len() as int);
        if i < a@.len() && i < b@.len() {
            assert(sa[0] == a@[i as int] && sb[0] == b@[i as int]);
        }
    }
    if i == a.len() {
        i < b.len()
    } else if i == b.len() {
        false
    } else {
        a[i] < b[i]
    }
}

/// The entries that lie below segment `name` at depth `level`.
pub open spec fn under(level: nat, name: Seq<char>) -> spec_fn(EntryView) -> bool {
    |e: EntryView| e.2.len() > level && e.2[level as int] == name
}

pub open spec fn size_total(s: Seq<EntryView>) -> nat
    decreases s.len(),
{
    if s.len() == 0 {
        0
    } else {
        (size_total(s.drop_last()) + s.last().0) as nat
    }
}

pub open spec fn done_total(s: Seq<EntryView>) -> nat
    decreases s.len(),
{
    if s.len() == 0 {
        0
    } else {
        (done_total(s.drop_last()) + s.last().1) as nat
    }
}

/// A total, capped at the largest `u64`.
pub open spec fn capped(n: nat) -> u64 {
    if n > u64::MAX {
        u64::MAX
    } else {
        n as u64
    }
}

pub open spec fn join_path(parent: Seq<char>, name: Seq<char>) -> Seq<char> {
    if parent.len() == 0 {
        name
    } else {
        parent + seq!['/'] + name
    }
}

/// One level of the tree: one node per distinct segment at `level`, in
/// ascending order, each with its path and the totals of the entries below
/// it; a segment with a single entry below it has no children.
pub open spec fn level_ok(nodes: Seq<Node>, parent: Seq<char>, level: nat, xs: Seq<EntryView>) -> bool {
    &&& forall|a: int, b: int| 0 <= a < b < nodes.len() ==> lex_lt(nodes[a].name@, nodes[b].name@)
    &&& forall|k: int| 0 <= k < nodes.len() ==> #[trigger] xs.filter(under(level, nodes[k].name@)).len() > 0
    &&& forall|i: int| 0 <= i < xs.len() && xs[i].2.len() > level ==> exists|k: int|
        0 <= k < nodes.len() && #[trigger] nodes[k].name@ == xs[i].2[level as int]
    &&& forall|k: int| #![trigger nodes[k]] 0 <= k < nodes.len() ==> {
        let below = xs.filter(under(level, nodes[k].name@));
        &&& nodes[k].path@ == join_path(parent, nodes[k].name@)
        &&& nodes[k].size == capped(size_total(below))
        &&& nodes[k].downloaded == capped(done_total(below))
        &&& below.len() <= 1 ==> nodes[k].children@.len() == 0
    }
}

/// The whole tree below `parent`, down to `fuel` levels.
pub open spec fn tree_ok(nodes: Seq<Node>, parent: Seq<char>, level: nat, xs: Seq<EntryView>, fuel: nat) -> bool
    decreases fuel,
{
    &&& level_ok(nodes, parent, level, xs)
    &&& fuel > 0 ==> forall|k: int| #![trigger nodes[k]] 0 <= k < nodes.len() && xs.filter(under(level, nodes[k].name@)).len() > 1
        ==> tree_ok(nodes[k].children@, nodes[k].path@, level + 1, xs.filter(under(level, nodes[k].name@)), (fuel - 1) as nat)
}

fn clone_segments(v: &Vec<String>) -> (r: Vec<String>)
    ensures
        r@.map_values(|s: String| s@) == v@.map_values(|s: String| s@),
{
    let mut r: Vec<String> = Vec::new();
    let mut i: usize = 0;
    while i < v.len()
        invariant
            i <= v@.len(),
            r@.len() == i,
            forall|j: int| 0 <= j < i ==> r@[j]@ == v@[j]@,
        decreases v@.len() - i,
    {
        r.push(v[i].clone());
        i = i + 1;
    }
    assert(r@.map_values(|s: String| s@) =~= v@.map_values(|s: String| s@));
    r
}

/// The distinct segments at `level`, ascending.
fn segment_names(level: usize, xs: &Vec<Entry>) -> (names: Vec<Vec<char>>)
    ensures
        forall|a: int, b: int| 0 <= a < b < names@.len() ==> lex_lt(names@[a]@, names@[b]@),
        forall|k: int| 0 <= k < names@.len() ==> #[trigger] evs(xs@).filter(under(level as nat, names@[k]@)).len() > 0,
        forall|i: int| 0 <= i < xs@.len() && segs(xs@[i]).len() > level ==> exists|k: int|
            0 <= k < names@.len() && #[trigger] names@[k]@ == segs(xs@[i])[level as int],
{
    let mut names: Vec<Vec<char>> = Vec::new();
    let mut i: usize = 0;
    while i < xs.len()
        invariant
            i <= xs@.len(),
            forall|a: int, b: int| 0 <= a < b < names@.len() ==> lex_lt(names@[a]@, names@[b]@),
            forall|k: int| 0 <= k < names@.len() ==> #[trigger] evs(xs@).filter(under(level as nat, names@[k]@)).len() > 0,
            forall|j: int| 0 <= j < i && segs(xs@[j]).len() > level ==> exists|k: int|
                0 <= k < names@.len() && #[trigger] names@[k]@ == segs(xs@[j])[level as int],
        decreases xs@.len() - i,
    {
        if level < xs[i].2.len() {
            let name = chars_of(xs[i].2[level].as_str());
            proof {
                assert(segs(xs@[i as int])[level as int] == xs@[i as int].2@[level as int]@);
                assert(under(level as nat, name@)(ev(xs@[i as int])));
            }
            let mut p: usize = 0;
            while p < names.len() && lex_less(&names[p], &name)
                invariant
                    p <= names@.len(),
                    forall|m: int| 0 <= m < p ==> lex_lt(names@[m]@, name@),
                decreases names@.len() - p,
            {
                p = p + 1;
            }
            let ghost old_names = names@;
            let dup = p < names.len() && !lex_less(&name, &names[p]);
            if dup {
                proof {
                    lemma_lex_total(name@, names@[p as int]@);
                }
            } else {
                proof {
                    assert forall|m: int| p <= m < names@.len() implies lex_lt(name@, #[trigger] names@[m]@) by {
                        if m > p {
                            lemma_lex_trans(name@, names@[p as int]@, names@[m]@);
                        }
                    }
                }
                names.insert(p, name);
                proof {
                    assert forall|a: int, b: int| 0 <= a < b < names@.len() implies lex_lt(names@[a]@, names@[b]@) by {
                        if b == p as int {
                            assert(names@[a] == old_names[a]);
                        } else if a == p as int {
                            assert(names@[b] == old_names[b - 1]);
                        } else {
                            let a0 = if a < p { a } else { a - 1 };
                            let b0 = if b < p { b } else { b - 1 };
                            assert(names@[a] == old_names[a0] && names@[b] == old_names[b0]);
                        }
                    }
                    assert forall|k: int| 0 <= k < names@.len() implies #[trigger] evs(xs@).filter(under(level as nat, names@[k]@)).len() > 0 by {
                        if k == p as int {
                            assert(evs(xs@)[i as int] == ev(xs@[i as int]));
                            evs(xs@).lemma_filter_contains(under(level as nat, names@[k]@), i as int);
                        } else {
                            let k0 = if k < p { k } else { k - 1 };
                            assert(names@[k] == old_names[k0]);
                        }
                    }
                    assert forall|j: int| 0 <= j < i && segs(xs@[j]).len() > level implies exists|k: int|
                        0 <= k < names@.len() && #[trigger] names@[k]@ == segs(xs@[j])[level as int] by {
                        let k0 = choose|k: int| 0 <= k < old_names.len() && #[trigger] old_names[k]@ == segs(xs@[j])[level as int];
                        if k0 < p {
                            assert(names@[k0] == old_names[k0]);
                        } else {
                            assert(names@[k0 + 1] == old_names[k0]);
                        }
                    }
                }
            }
            proof {
                assert(names@[p as int]@ == segs(xs@[i as int])[level as int]);
            }
        }
        i = i + 1;
    }
    names
}

/// Node `n` of a level: its path, the totals of the entries below it, and
/// (within `fuel` levels) the subtree of those entries.
pub open spec fn node_ok(n: Node, parent: Seq<char>, level: nat, xs: Seq<EntryView>, fuel: nat) -> bool {
    let below = xs.filter(under(level, n.name@));
    &&& n.path@ == join_path(parent, n.name@)
    &&& n.size == capped(size_total(below))
    &&& n.downloaded == capped(done_total(below))
    &&& below.len() <= 1 ==> n.children@.len() == 0
    &&& fuel > 0 && below.len() > 1 ==> tree_ok(n.children@, n.path@, level + 1, below, (fuel - 1) as nat)
}

proof fn lemma_evs_push(xs: Seq<Entry>, i: int)
    requires
        0 <= i < xs.len(),
    ensures
        evs(xs.subrange(0, i + 1)) == evs(xs.subrange(0, i)).push(ev(xs[i])),
        evs(xs)[i] == ev(xs[i]),
{
    assert(evs(xs.subrange(0, i + 1)) =~= evs(xs.subrange(0, i)).push(ev(xs[i])));
}

/// Builds the level `level` of the tree below `parent_path` from the
/// entries; `bound` is no less than the depth of any entry.
fn build_level(parent_path: &str, level: usize, xs: &Vec<Entry>, bound: usize) -> (r: Vec<Node>)
    requires
        level <= bound,
        forall|i: int| 0 <= i < xs@.len() ==> xs@[i].2@.len() <= bound,
    ensures
        tree_ok(r@, parent_path@, level as nat, evs(xs@), (bound - level) as nat),
    decreases bound - level,
{
    let names = segment_names(level, xs);
    let ghost xv = evs(xs@);
    let ghost fuel: nat = (bound - level) as nat;
    let mut nodes: Vec<Node> = Vec::new();
    let mut k: usize = 0;
    while k < names.len()
        invariant
            level <= bound,
            fuel == bound - level,
            xv == evs(xs@),
            forall|i: int| 0 <= i < xs@.len() ==> xs@[i].2@.len() <= bound,
            k <= names@.len(),
            nodes@.len() == k,
            forall|m: int| 0 <= m < k ==> #[trigger] nodes@[m].name@ == names@[m]@,
            forall|m: int| 0 <= m < k ==> node_ok(#[trigger] nodes@[m], parent_path@, level as nat, xv, fuel),
        decreases names@.len() - k,
    {
        let name = string_of(&names[k]);
        let mut children: Vec<Entry> = Vec::new();
        let mut size: u64 = 0;
        let mut done: u64 = 0;
        let mut i: usize = 0;
        proof {
            reveal(Seq::filter);
            assert(evs(xs@.subrange(0, 0)) =~= Seq::<EntryView>::empty());
            assert(evs(children@) =~= Seq::<EntryView>::empty());
        }
        while i < xs.len()
            invariant
                level <= bound,
                forall|j: int| 0 <= j < xs@.len() ==> xs@[j].2@.len() <= bound,
                i <= xs@.len(),
                evs(children@) == evs(xs@.subrange(0, i as int)).filter(under(level as nat, name@)),
                size == capped(size_total(evs(children@))),
                done == capped(done_total(evs(children@))),
                forall|j: int| 0 <= j < children@.len() ==> level < #[trigger] children@[j].2@.len() <= bound,
            decreases xs@.len() - i,
        {
            let e = &xs[i];
            proof {
                lemma_evs_push(xs@, i as int);
                evs(xs@.subrange(0, i as int)).lemma_filter_push(ev(xs@[i as int]), under(level as nat, name@));
            }
            if level < e.2.len() && crate::text::same_text(e.2[level].as_str(), name.as_str()) {
                let ghost before = evs(children@);
                size = if size > u64::MAX - e.0 { u64::MAX } else { size + e.0 };
                done = if done > u64::MAX - e.1 { u64::MAX } else { done + e.1 };
                let c: Entry = (e.0, e.1, clone_segments(&e.2));
                children.push(c);
                proof {
                    assert(ev(c) == ev(*e));
                    assert(evs(children@) =~= before.push(ev(*e)));
                    assert(before.push(ev(*e)).drop_last() == before);
                }
            } else {
                proof {
                    if level < e.2@.len() {
                        assert(segs(*e)[level as int] == e.2@[level as int]@);
                    }
                }
            }
            i = i + 1;
        }
        proof {
            assert(xs@.subrange(0, xs@.len() as int) == xs@);
        }
        let path = if parent_path.unicode_len() == 0 {
            name.clone()
        } else {
            String::from_str(parent_path).concat("/").concat(name.as_str())
        };
        proof {
            reveal_strlit("/");
        }
        let cs = if children.len() > 1 && level < bound {
            build_level(path.as_str(), level + 1, &children, bound)
        } else {
            Vec::new()
        };
        proof {
            if children@.len() > 0 {
                assert(level < children@[0].2@.len() <= bound);
            }
        }
        let node = Node { name, path, size, downloaded: done, children: cs };
        proof {
            let below = xv.filter(under(level as nat, node.name@));
            assert(evs(children@) == below);
            assert(node.path@ == join_path(parent_path@, node.name@));
            assert(node.size == capped(size_total(below)));
            assert(below.len() == children@.len());
            assert(below.len() <= 1 ==> node.children@.len() == 0);
            assert(fuel > 0 && below.len() > 1 ==> tree_ok(node.children@, node.path@, level as nat + 1, below, (fuel - 1) as nat));
            assert(node_ok(node, parent_path@, level as nat, xv, fuel));
        }
        nodes.push(node);
        k = k + 1;
    }
    proof {
        assert forall|m: int| 0 <= m < nodes@.len() implies #[trigger] xv.filter(under(level as nat, nodes@[m].name@)).len() > 0 by {
            assert(nodes@[m].name@ == names@[m]@);
        }
        assert forall|i: int| 0 <= i < xv.len() && xv[i].2.len() > level implies exists|m: int|
            0 <= m < nodes@.len() && #[trigger] nodes@[m].name@ == xv[i].2[level as int] by {
            assert(xv[i] == ev(xs@[i]));
            let m = choose|m: int| 0 <= m < names@.len() && #[trigger] names@[m]@ == segs(xs@[i])[level as int];
            assert(nodes@[m].name@ == names@[m]@);
        }
        assert forall|a: int, b: int| 0 <= a < b < nodes@.len() implies lex_lt(nodes@[a].name@, nodes@[b].name@) by {
            assert(nodes@[a].name@ == names@[a]@ && nodes@[b].name@ == names@[b]@);
        }
        assert forall|m: int| #![trigger nodes@[m]] 0 <= m < nodes@.len() implies node_ok(nodes@[m], parent_path@, level as nat, xv, fuel) by {}
    }
    nodes
}

/// The greatest number of segments of an entry.
pub open spec fn max_depth(xs: Seq<EntryView>) -> nat
    decreases xs.len(),
{
    if xs.len() == 0 {
        0
    } else {
        let d = max_depth(xs.drop_last());
        if xs.last().2.len() > d {
            xs.last().2.len()
        } else {
            d
        }
    }
}

/// How many levels below `level` the entries reach.
pub open spec fn depth_below(xs: Seq<EntryView>, level: nat) -> nat {
    if max_depth(xs) > level {
        (max_depth(xs) - level) as nat
    } else {
        0
    }
}

/// Groups entries into a tree of path segments below `parent_path`,
/// starting at segment depth `level`: siblings are distinct and ascending,
/// each node carries the capped totals of the entries below it, and only a
/// segment with more than one entry below it gets children.
pub fn do_build_tree(parent_path: &str, level: usize, xs: Vec<Entry>) -> (r: Vec<Node>)
    ensures
        tree_ok(r@, parent_path@, level as nat, evs(xs@), depth_below(evs(xs@), level as nat)),
{
    let mut bound: usize = level;
    let mut i: usize = 0;
    while i < xs.len()
        invariant
            i <= xs@.len(),
            bound == if max_depth(evs(xs@.subrange(0, i as int))) > level {
                max_depth(evs(xs@.subrange(0, i as int))) as int
            } else {
                level as int
            },
            forall|j: int| 0 <= j < i ==> xs@[j].2@.len() <= bound,
        decreases xs@.len() - i,
    {
        proof {
            lemma_evs_push(xs@, i as int);
            assert(evs(xs@.subrange(0, i as int)).push(ev(xs@[i as int])).drop_last() == evs(xs@.subrange(0, i as int)));
            assert(segs(xs@[i as int]).len() == xs@[i as int].2@.len());
        }
        if xs[i].2.len() > bound {
            bound = xs[i].2.len();
        }
        i = i + 1;
    }
    proof {
        assert(xs@.subrange(0, xs@.len() as int) == xs@);
    }
    build_level(parent_path, level, &xs, bound)
}

/// `s` is the parts joined with `/` between them.
pub open spec fn join_slash(parts: Seq<Seq<char>>) -> Seq<char>
    decreases parts.len(),
{
    if parts.len() == 0 {
        Seq::empty()
    } else if parts.len() == 1 {
        parts[0]
    } else {
        join_slash(parts.drop_last()) + seq!['/'] + parts.last()
    }
}

/// Relies on str::split with a `/` pattern: the pieces between slashes, in
/// order, at least one, none holding a slash, and joined by slashes they
/// give the text back.
#[verifier::external_body]
fn split_slash(s: &str) -> (r: Vec<String>)
    ensures
        r@.len() >= 1,
        forall|k: int| 0 <= k < r@.len() ==> !(#[trigger] r@[k]@).contains('/'),
        join_slash(r@.map_values(|p: String| p@)) == s@,
{
    s.split('/').map(String::from).collect()
}

/// The entry views of a file list: each file's size, progress and the
/// segments of its name.
pub open spec fn file_entries(files: Seq<File>, xv: Seq<EntryView>) -> bool {
    &&& xv.len() == files.len()
    &&& forall|k: int| #![trigger xv[k]] 0 <= k < xv.len() ==> {
        &&& xv[k].0 == files[k].length
        &&& xv[k].1 == files[k].bytes_completed
        &&& join_slash(xv[k].2) == files[k].name@
        &&& forall|j: int| 0 <= j < xv[k].2.len() ==> !(#[trigger] xv[k].2[j]).contains('/')
    }
}

/// The file tree of a torrent: its files' names split at `/`, grouped from
/// the top level down.
pub fn build_tree(files: &[File]) -> (r: Vec<Node>)
    ensures
        exists|xv: Seq<EntryView>| file_entries(files@, xv) && tree_ok(r@, Seq::empty(), 0, xv, depth_below(xv, 0)),
{
    let mut xs: Vec<Entry> = Vec::new();
    let mut k: usize = 0;
    while k < files.len()
        invariant
            k <= files@.len(),
            file_entries(files@.subrange(0, k as int), evs(xs@)),
        decreases files@.len() - k,
    {
        let parts = split_slash(files[k].name.as_str());
        let ghost before = xs@;
        xs.push((files[k].length, files[k].bytes_completed, parts));
        proof {
            assert(evs(xs@) =~= evs(before).push(ev(xs@[k as int])));
            assert(files@.subrange(0, k + 1).drop_last() =~= files@.subrange(0, k as int));
            let xv = evs(xs@);
            assert forall|j: int| #![trigger xv[j]] 0 <= j < xv.len() implies {
                &&& xv[j].0 == files@.subrange(0, k + 1)[j].length
                &&& xv[j].1 == files@.subrange(0, k + 1)[j].bytes_completed
                &&& join_slash(xv[j].2) == files@.subrange(0, k + 1)[j].name@
                &&& forall|m: int| 0 <= m < xv[j].2.len() ==> !(#[trigger] xv[j].2[m]).contains('/')
            } by {
                if j < k {
                    assert(xv[j] == evs(before)[j]);
                } else {
                    assert(xv[j].2 == parts@.map_values(|p: String| p@));
                }
            }
        }
        k = k + 1;
    }
    proof {
        assert(files@.subrange(0, files@.len() as int) == files@);
    }
    let r = do_build_tree("", 0, xs);
    proof {
        reveal_strlit("");
        assert(""@ =~= Seq::<char>::empty());
    }
    r
}

/// The row a move through the visible rows of the file tree lands on: the
/// first row when none is selected, else one row down or up, kept within
/// the rows.
pub fn step_index(current: Option<usize>, len: usize, down: bool) -> (r: usize)
    requires
        len > 0,
    ensures
        r < len,
        r == match current {
            None => 0int,
            Some(c) => {
                let moved: int = if down {
                    if c < usize::MAX { c + 1 } else { c as int }
                } else {
                    if c > 0 { c - 1 } else { 0 }
                };
                if moved < len - 1 { moved } else { len - 1 }
            },
        },
{
    match current {
        None => 0,
        Some(c) => {
            let moved = if down {
                if c < usize::MAX { c + 1 } else { c }
            } else {
                if c > 0 { c - 1 } else { 0 }
            };
            if moved < len - 1 { moved } else { len - 1 }
        },
    }
}

} // verus!
