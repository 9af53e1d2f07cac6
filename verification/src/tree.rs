//! The directory-tree model: nodes, the per-level build decisions, and the
//! indentation-based renderer.
//!
//! Walking the filesystem itself is I/O and lives with the caller; this
//! module decides, for one directory level at a time, which entries become
//! nodes and where to descend (`plan_level`), assembles the nodes once the
//! subtrees are in hand (`assemble_level`), and renders a finished tree
//! (`format_tree`).

use vstd::prelude::*;

verus! {

/// One filesystem entry encountered during traversal, with the entries
/// found inside it (empty for files, and for directories at the depth
/// limit).
#[derive(Debug)]
pub struct DirNode {
    pub name: String,
    pub is_directory: bool,
    pub children: Vec<DirNode>,
}

impl DirNode {
    /// Well-formedness: a node with children is a directory, recursively.
    pub open spec fn wf(self) -> bool
        decreases self,
    {
        (self.children@.len() > 0 ==> self.is_directory) && (forall|i: int|
            0 <= i < self.children@.len() ==> (#[trigger] self.children@[i]).wf())
    }

    /// Builds a node; files (and directories whose contents were not
    /// walked) carry no children, so a well-formed node comes out of
    /// well-formed children.
    pub fn new(name: String, is_directory: bool, children: Vec<DirNode>) -> (r: DirNode)
        requires
            children@.len() > 0 ==> is_directory,
        ensures
            r.name == name,
            r.is_directory == is_directory,
            r.children == children,
            (forall|i: int| 0 <= i < children@.len() ==> (#[trigger] children@[i]).wf())
                ==> r.wf(),
    {
        DirNode { name, is_directory, children }
    }
}

/// Every node of the sequence is well-formed.
pub open spec fn all_wf(nodes: Seq<DirNode>) -> bool {
    forall|j: int| 0 <= j < nodes.len() ==> (#[trigger] nodes[j]).wf()
}

/// What one directory listing hands the builder about an entry: its base
/// name and whether it is a directory.
#[derive(Debug)]
pub struct EntryInfo {
    pub name: String,
    pub is_dir: bool,
}

/// A planned descent into one subdirectory: the joined path to read and
/// the depth budget left for it.
#[derive(Debug)]
pub struct RecursePlan {
    pub subpath: String,
    pub budget: i32,
}

/// The builder's decision for one directory level: abandon the level
/// entirely (depth budget exhausted), or keep every entry, descending
/// where a plan is given.
#[derive(Debug)]
pub enum LevelPlan {
    Stop,
    Descend(Vec<Option<RecursePlan>>),
}

/// Decides one directory level. A zero budget abandons the whole level:
/// the check sits ahead of the enumeration, so no sibling survives it.
/// Otherwise every entry is kept; each directory entry gets a descent
/// plan with the joined path `path/name` and the budget decremented by
/// one (a negative budget stands for "unlimited" and simply keeps
/// falling).
pub fn plan_level(path: &str, entries: &Vec<EntryInfo>, budget: i32) -> (r: LevelPlan)
    requires
        budget > i32::MIN,
    ensures
        (budget == 0) == (r is Stop),
        r matches LevelPlan::Descend(plans) ==> {
            &&& plans@.len() == entries@.len()
            &&& forall|i: int|
                0 <= i < entries@.len() ==> (entries@[i].is_dir <==> (#[trigger] plans@[i]) is Some)
            &&& forall|i: int|
                0 <= i < entries@.len() && entries@[i].is_dir ==> ((#[trigger] plans@[i]) matches Some(p)
                    && p.subpath@ == path@ + "/"@ + entries@[i].name@ && p.budget == budget - 1)
        },
{
    if budget == 0 {
        return LevelPlan::Stop;
    }
    let mut plans: Vec<Option<RecursePlan>> = Vec::new();
    let mut i: usize = 0;
    while i < entries.len()
        invariant
            budget != 0,
            budget > i32::MIN,
            i <= entries.len(),
            plans@.len() == i,
            forall|k: int| 0 <= k < i ==> (entries@[k].is_dir <==> (#[trigger] plans@[k]) is Some),
            forall|k: int|
                0 <= k < i && entries@[k].is_dir ==> ((#[trigger] plans@[k]) matches Some(p)
                    && p.subpath@ == path@ + "/"@ + entries@[k].name@ && p.budget == budget - 1),
        decreases entries.len() - i,
    {
        if entries[i].is_dir {
            let mut sub = String::from_str(path);
            sub.append("/");
            sub.append(entries[i].name.as_str());
            plans.push(Some(RecursePlan { subpath: sub, budget: budget - 1 }));
        } else {
            plans.push(None);
        }
        i = i + 1;
    }
    LevelPlan::Descend(plans)
}

/// Assembles one directory level: entry `i` becomes node `i`, carrying its
/// name, its directory flag, and the subtree walked for it (empty for
/// files). Order is kept, one node per entry, so the level's node count
/// equals its entry count and the names come through unchanged.
pub fn assemble_level(entries: Vec<EntryInfo>, subtrees: Vec<Vec<DirNode>>) -> (r: Vec<DirNode>)
    requires
        subtrees@.len() == entries@.len(),
        forall|i: int|
            0 <= i < entries@.len() && !entries@[i].is_dir ==> (#[trigger] subtrees@[i])@.len()
                == 0,
    ensures
        r@.len() == entries@.len(),
        forall|i: int|
            0 <= i < entries@.len() ==> {
                &&& (#[trigger] r@[i]).name == entries@[i].name
                &&& r@[i].is_directory == entries@[i].is_dir
                &&& r@[i].children == subtrees@[i]
            },
        forall|i: int|
            0 <= i < entries@.len() && all_wf((#[trigger] subtrees@[i])@) ==> r@[i].wf(),
{
    let ghost e0 = entries@;
    let ghost s0 = subtrees@;
    let mut entries = entries;
    let mut subtrees = subtrees;
    let mut r: Vec<DirNode> = Vec::new();
    while entries.len() > 0
        invariant
            r@.len() <= e0.len(),
            entries@ == e0.skip(r@.len() as int),
            subtrees@ == s0.skip(r@.len() as int),
            s0.len() == e0.len(),
            forall|i: int|
                0 <= i < e0.len() && !e0[i].is_dir ==> (#[trigger] s0[i])@.len() == 0,
            forall|i: int|
                0 <= i < r@.len() ==> {
                    &&& (#[trigger] r@[i]).name == e0[i].name
                    &&& r@[i].is_directory == e0[i].is_dir
                    &&& r@[i].children == s0[i]
                },
            forall|i: int| 0 <= i < r@.len() && all_wf((#[trigger] s0[i])@) ==> r@[i].wf(),
        decreases entries@.len(),
    {
        let ghost k = r@.len() as int;
        let e = entries.remove(0);
        let sub = subtrees.remove(0);
        proof {
            assert(e == e0[k]);
            assert(sub == s0[k]);
            assert(entries@ =~= e0.skip(k + 1));
            assert(subtrees@ =~= s0.skip(k + 1));
        }
        let node = DirNode::new(e.name, e.is_dir, sub);
        r.push(node);
    }
    proof {
        assert(r@.len() == e0.len());
    }
    r
}

/// `k` repetitions of the three-space indent unit.
pub open spec fn indent_prefix(k: nat) -> Seq<char> {
    Seq::new(3 * k, |i: int| ' ')
}

/// The fixed branch glyph drawn before every entry name.
pub open spec fn branch_glyph() -> Seq<char> {
    "\u{2514}\u{2500}\u{2500}"@
}

/// The line terminator each rendered line carries.
pub open spec fn newline() -> Seq<char> {
    "\n"@
}

/// The rendered line of a node at indent level `indent`: `indent - 1`
/// indent units, the branch glyph, the name, a newline.
pub open spec fn spec_line(name: Seq<char>, indent: nat) -> Seq<char>
    recommends
        indent >= 1,
{
    indent_prefix((indent - 1) as nat) + branch_glyph() + name + newline()
}

/// The rendered lines of a node sequence, pre-order: each node's own line,
/// then its children one level deeper, then its later siblings.
pub open spec fn spec_render(nodes: Seq<DirNode>, indent: nat) -> Seq<Seq<char>>
    decreases nodes,
{
    if nodes.len() == 0 {
        Seq::empty()
    } else {
        seq![spec_line(nodes[0].name@, indent)] + spec_render(nodes[0].children@, indent + 1)
            + spec_render(nodes.drop_first(), indent)
    }
}

/// Rendering splits off the last sibling: its line and its children's
/// lines come after everything rendered for the earlier siblings.
proof fn lemma_render_snoc(nodes: Seq<DirNode>, indent: nat)
    requires
        nodes.len() >= 1,
        indent >= 1,
    ensures
        spec_render(nodes, indent) == spec_render(nodes.drop_last(), indent) + seq![
            spec_line(nodes.last().name@, indent),
        ] + spec_render(nodes.last().children@, indent + 1),
    decreases nodes,
{
    let df = nodes.drop_first();
    let dl = nodes.drop_last();
    if nodes.len() == 1 {
        assert(dl =~= Seq::<DirNode>::empty());
        assert(df =~= Seq::<DirNode>::empty());
        assert(spec_render(df, indent) =~= Seq::<Seq<char>>::empty());
        assert(spec_render(dl, indent) =~= Seq::<Seq<char>>::empty());
        assert(nodes.last() == nodes[0]);
        assert(spec_render(nodes, indent) =~= spec_render(dl, indent) + seq![
            spec_line(nodes.last().name@, indent),
        ] + spec_render(nodes.last().children@, indent + 1));
    } else {
        lemma_render_snoc(df, indent);
        assert(df.drop_last() =~= dl.drop_first());
        assert(df.last() == nodes.last());
        assert(dl.len() >= 1 && dl[0] == nodes[0]);
        let a = seq![spec_line(nodes[0].name@, indent)];
        let b = spec_render(nodes[0].children@, indent + 1);
        let c = spec_render(df.drop_last(), indent);
        let d = seq![spec_line(nodes.last().name@, indent)];
        let e = spec_render(nodes.last().children@, indent + 1);
        assert(spec_render(nodes, indent) == a + b + spec_render(df, indent));
        assert(spec_render(df, indent) == c + d + e);
        assert(spec_render(dl, indent) == a + b + c);
        assert(a + b + (c + d + e) =~= (a + b + c) + d + e);
        assert(spec_render(nodes, indent) == spec_render(dl, indent) + d + e);
    }
}

/// The node stands at nesting depth `d` in the forest `nodes`, where the
/// top nodes (a root's direct children) have depth 1.
pub open spec fn node_at_depth(nodes: Seq<DirNode>, node: DirNode, d: nat) -> bool
    decreases nodes,
{
    if d == 1 {
        exists|i: int| 0 <= i < nodes.len() && nodes[i] == node
    } else {
        exists|i: int|
            0 <= i < nodes.len() && node_at_depth(
                (#[trigger] nodes[i]).children@,
                node,
                (d - 1) as nat,
            )
    }
}

proof fn lemma_contains_left<A>(a: Seq<A>, b: Seq<A>, x: A)
    requires
        a.contains(x),
    ensures
        (a + b).contains(x),
{
    let j = choose|j: int| 0 <= j < a.len() && a[j] == x;
    assert((a + b)[j] == x);
}

proof fn lemma_contains_right<A>(a: Seq<A>, b: Seq<A>, x: A)
    requires
        b.contains(x),
    ensures
        (a + b).contains(x),
{
    let j = choose|j: int| 0 <= j < b.len() && b[j] == x;
    assert((a + b)[a.len() + j] == x);
}

/// The rendering of a forest holds, for each node at depth `d` below it,
/// that node's line at indent `indent + d - 1`.
proof fn lemma_render_contains(nodes: Seq<DirNode>, node: DirNode, d: nat, indent: nat)
    requires
        d >= 1,
        indent >= 1,
        node_at_depth(nodes, node, d),
    ensures
        spec_render(nodes, indent).contains(spec_line(node.name@, (d + indent - 1) as nat)),
    decreases nodes,
{
    let line = spec_line(node.name@, (d + indent - 1) as nat);
    let a = seq![spec_line(nodes[0].name@, indent)];
    let b = spec_render(nodes[0].children@, indent + 1);
    let c = spec_render(nodes.drop_first(), indent);
    assert(spec_render(nodes, indent) == a + b + c);
    if d == 1 {
        let i = choose|i: int| 0 <= i < nodes.len() && nodes[i] == node;
        if i == 0 {
            assert((a + b + c)[0] == line);
            assert((a + b + c).contains(line));
        } else {
            let df = nodes.drop_first();
            assert(df[i - 1] == node);
            assert(node_at_depth(df, node, d));
            lemma_render_contains(df, node, d, indent);
            lemma_contains_right(a + b, c, line);
        }
    } else {
        let i = choose|i: int|
            0 <= i < nodes.len() && node_at_depth(nodes[i].children@, node, (d - 1) as nat);
        if i == 0 {
            lemma_render_contains(nodes[0].children@, node, (d - 1) as nat, indent + 1);
            assert(((d - 1) + (indent + 1) - 1) as nat == (d + indent - 1) as nat);
            lemma_contains_right(a, b, line);
            lemma_contains_left(a + b, c, line);
        } else {
            let df = nodes.drop_first();
            assert(df[i - 1] == nodes[i]);
            assert(node_at_depth(df, node, d));
            lemma_render_contains(df, node, d, indent);
            lemma_contains_right(a + b, c, line);
        }
    }
}

/// Determinism law: rendering is a pure function of the node sequence and
/// the starting indent, so rendering the same sequence twice yields
/// identical output. `format_tree` returns exactly this function of its
/// input.
pub proof fn lemma_render_deterministic(nodes1: Seq<DirNode>, nodes2: Seq<DirNode>, indent: nat)
    requires
        nodes1 == nodes2,
    ensures
        spec_render(nodes1, indent) == spec_render(nodes2, indent),
{
}

/// Indentation law: a node at nesting depth `d` (a root's direct children
/// have depth 1) has its line in the rendering, and that line is made of
/// exactly `d - 1` repetitions of the three-space indent unit, then the
/// three-character branch glyph, then the node's name and a newline.
pub proof fn lemma_indentation(nodes: Seq<DirNode>, node: DirNode, d: nat)
    requires
        d >= 1,
        node_at_depth(nodes, node, d),
    ensures
        spec_render(nodes, 1).contains(spec_line(node.name@, d)),
        spec_line(node.name@, d).subrange(0, 3 * (d - 1)) == indent_prefix((d - 1) as nat),
        spec_line(node.name@, d).subrange(3 * (d - 1), 3 * (d - 1) + 3) == branch_glyph(),
        spec_line(node.name@, d).len() == 3 * (d - 1) + 3 + node.name@.len() + 1,
{
    lemma_render_contains(nodes, node, d, 1);
    assert((d + 1 - 1) as nat == d);
    reveal_strlit("\u{2514}\u{2500}\u{2500}");
    reveal_strlit("\n");
    let line = spec_line(node.name@, d);
    assert(indent_prefix((d - 1) as nat).len() == 3 * (d - 1));
    assert(branch_glyph().len() == 3);
    assert(newline().len() == 1);
    assert(line.subrange(0, 3 * (d - 1)) =~= indent_prefix((d - 1) as nat));
    assert(line.subrange(3 * (d - 1), 3 * (d - 1) + 3) =~= branch_glyph());
}

/// Renders the nodes with a precomputed indent prefix; `indent` is the
/// level the prefix stands for.
fn render_with(nodes: &Vec<DirNode>, prefix: &str, indent: Ghost<nat>) -> (r: Vec<String>)
    requires
        indent@ >= 1,
        prefix@ == indent_prefix((indent@ - 1) as nat),
    ensures
        r.deep_view() == spec_render(nodes@, indent@),
    decreases nodes@,
{
    let mut out: Vec<String> = Vec::new();
    let mut i: usize = 0;
    proof {
        assert(out.deep_view() =~= spec_render(nodes@.take(0), indent@));
    }
    while i < nodes.len()
        invariant
            i <= nodes.len(),
            indent@ >= 1,
            prefix@ == indent_prefix((indent@ - 1) as nat),
            out.deep_view() == spec_render(nodes@.take(i as int), indent@),
        decreases nodes@.len() - i,
    {
        let node = &nodes[i];
        let mut line = String::from_str(prefix);
        line.append("\u{2514}\u{2500}\u{2500}");
        line.append(node.name.as_str());
        line.append("\n");
        proof {
            assert(line@ == spec_line(node.name@, indent@));
        }
        let ghost out_before = out.deep_view();
        out.push(line);
        proof {
            assert(out.deep_view() =~= out_before.push(spec_line(node.name@, indent@)));
        }
        if node.children.len() > 0 {
            let mut child_prefix = String::from_str(prefix);
            child_prefix.append("   ");
            proof {
                reveal_strlit("   ");
                assert(child_prefix@ =~= indent_prefix(((indent@ + 1) - 1) as nat));
            }
            let ghost mid = out.deep_view();
            let mut sub = render_with(&node.children, child_prefix.as_str(), Ghost(indent@ + 1));
            let ghost sub_dv = sub.deep_view();
            out.append(&mut sub);
            proof {
                assert(out.deep_view() =~= mid + sub_dv);
            }
        } else {
            proof {
                assert(spec_render(node.children@, indent@ + 1) =~= Seq::<Seq<char>>::empty());
            }
        }
        proof {
            let t = nodes@.take(i + 1 as int);
            lemma_render_snoc(t, indent@);
            assert(t.drop_last() =~= nodes@.take(i as int));
            assert(t.last() == nodes@[i as int]);
            assert(out.deep_view() =~= spec_render(t, indent@));
        }
        i = i + 1;
    }
    proof {
        assert(nodes@.take(nodes@.len() as int) =~= nodes@);
    }
    out
}

/// Renders a node sequence, one line per node in pre-order, each line
/// carrying `indent_level - 1` indent units for the top nodes and one more
/// unit for each nesting level below them.
pub fn format_tree(nodes: &Vec<DirNode>, indent_level: usize) -> (r: Vec<String>)
    requires
        indent_level >= 1,
    ensures
        r.deep_view() == spec_render(nodes@, indent_level as nat),
{
    let mut prefix = String::new();
    proof {
        assert(prefix@ =~= indent_prefix(0));
    }
    let mut j: usize = 0;
    while j < indent_level - 1
        invariant
            indent_level >= 1,
            j <= indent_level - 1,
            prefix@ == indent_prefix(j as nat),
        decreases indent_level - 1 - j,
    {
        prefix.append("   ");
        proof {
            reveal_strlit("   ");
            assert(prefix@ =~= indent_prefix((j + 1) as nat));
        }
        j = j + 1;
    }
    render_with(nodes, prefix.as_str(), Ghost(indent_level as nat))
}

} // verus!
