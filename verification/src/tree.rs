//! The folder tree of the sidebar.
use vstd::prelude::*;

use crate::paths::{file_name, file_name_of, is_absolute_path, path_parts, same_path};
use crate::entries::{entry_views, FileEntry, FileEntryView};
use crate::text::{chars_of, string_from_chars};

verus! {

broadcast use vstd::std_specs::vec::group_vec_axioms;

/// A folder (or file) of the sidebar tree.
pub struct TreeNode {
    pub path: String,
    pub name: String,
    pub is_dir: bool,
    pub expanded: bool,
    pub children_loaded: bool,
    pub children: Vec<TreeNode>,
}

/// A tree node as values.
pub struct TreeView {
    pub path: Seq<char>,
    pub name: Seq<char>,
    pub is_dir: bool,
    pub expanded: bool,
    pub loaded: bool,
    pub children: Seq<TreeView>,
}

/// The node and its subtree as values.
pub open spec fn tree_view(n: TreeNode) -> TreeView
    decreases n,
{
    TreeView {
        path: n.path@,
        name: n.name@,
        is_dir: n.is_dir,
        expanded: n.expanded,
        loaded: n.children_loaded,
        children: Seq::new(
            n.children@.len(),
            |i: int|
                if 0 <= i < n.children@.len() {
                    tree_view(n.children@[i])
                } else {
                    arbitrary()
                },
        ),
    }
}

/// The subtree with every node collapsed.
pub open spec fn collapsed(t: TreeView) -> TreeView
    decreases t,
{
    TreeView {
        expanded: false,
        children: Seq::new(
            t.children.len(),
            |i: int|
                if 0 <= i < t.children.len() {
                    collapsed(t.children[i])
                } else {
                    arbitrary()
                },
        ),
        ..t
    }
}

/// No node of the subtree is expanded.
pub open spec fn all_collapsed(t: TreeView) -> bool
    decreases t,
{
    !t.expanded && forall|i: int| 0 <= i < t.children.len() ==> all_collapsed(#[trigger] t.children[i])
}

/// Collapsing leaves no node expanded.
pub proof fn law_collapsed_is_collapsed(t: TreeView)
    ensures
        all_collapsed(collapsed(t)),
    decreases t,
{
    let c = collapsed(t);
    assert forall|i: int| 0 <= i < c.children.len() implies all_collapsed(#[trigger] c.children[i]) by {
        law_collapsed_is_collapsed(t.children[i]);
    }
}

/// Collapses `node` and everything below it.
pub fn collapse_node_and_descendants(node: &mut TreeNode)
    ensures
        tree_view(*final(node)) == collapsed(tree_view(*old(node))),
    decreases *old(node),
{
    let ghost before = *node;
    node.expanded = false;
    let mut kids: Vec<TreeNode> = Vec::new();
    std::mem::swap(&mut kids, &mut node.children);
    let ghost all = kids@;
    let mut out: Vec<TreeNode> = Vec::new();
    let mut i: usize = 0;
    while kids.len() > 0
        invariant
            all == before.children@,
            before == *old(node),
            all.len() == before.children.len(),
            i + kids.len() == all.len(),
            kids@ == all.skip(i as int),
            out.len() == i,
            forall|k: int| 0 <= k < i ==> tree_view(#[trigger] out@[k]) == collapsed(tree_view(all[k])),
        decreases kids.len(),
    {
        let mut child = kids.remove(0);
        assert(child == all[i as int]);
        assert(decreases_to!(before => before.children@[i as int]));
        collapse_node_and_descendants(&mut child);
        out.push(child);
        assert(kids@ =~= all.skip(i + 1));
        i = i + 1;
    }
    node.children = out;
    let ghost tv = tree_view(*node);
    let ghost cv = collapsed(tree_view(before));
    assert(tv.children.len() == cv.children.len());
    assert forall|k: int| 0 <= k < tv.children.len() implies tv.children[k] == cv.children[k] by {
        assert(tv.children[k] == tree_view(out@[k]));
        assert(tree_view(before).children[k] == tree_view(all[k]));
    }
    assert(tv.children =~= cv.children);
}


/// Whether `p` starts with `base` component-wise, as std's `Path::starts_with`.
pub open spec fn path_prefix(base: Seq<char>, p: Seq<char>) -> bool {
    is_absolute_path(base) == is_absolute_path(p) && path_parts(base).len() <= path_parts(p).len()
        && path_parts(p).take(path_parts(base).len() as int) == path_parts(base)
}

/// Whether `p` starts with `base` component-wise.
pub fn path_starts_with(p: &str, base: &str) -> (r: bool)
    ensures
        r == path_prefix(base@, p@),
{
    let pp = crate::paths::parse_path(&chars_of(p));
    let pb = crate::paths::parse_path(&chars_of(base));
    if pp.absolute != pb.absolute || pb.parts.len() > pp.parts.len() {
        return false;
    }
    let ghost vp = pp.parts_view();
    let ghost vb = pb.parts_view();
    let mut i: usize = 0;
    while i < pb.parts.len()
        invariant
            i <= pb.parts.len() <= pp.parts.len(),
            vp == pp.parts_view(),
            vb == pb.parts_view(),
            vp == path_parts(p@),
            vb == path_parts(base@),
            pp.absolute == is_absolute_path(p@),
            pb.absolute == is_absolute_path(base@),
            pp.absolute == pb.absolute,
            forall|k: int| 0 <= k < i ==> vp[k] == vb[k],
        decreases pb.parts.len() - i,
    {
        proof {
            crate::paths::lemma_char_vec_deep_view(pp.parts@[i as int]);
            crate::paths::lemma_char_vec_deep_view(pb.parts@[i as int]);
        }
        assert(vp[i as int] == pp.parts@[i as int]@);
        assert(vb[i as int] == pb.parts@[i as int]@);
        if !crate::text::chars_eq(&pp.parts[i], &pb.parts[i]) {
            assert(vp.take(vb.len() as int)[i as int] == vp[i as int]);
            assert(vp.take(vb.len() as int)[i as int] != vb[i as int]);
            assert(vp.take(vb.len() as int) != vb);
            assert(vp == path_parts(p@));
            assert(vb == path_parts(base@));
            assert(!path_prefix(base@, p@));
            return false;
        }
        i = i + 1;
    }
    assert(vp.take(vb.len() as int) =~= vb);
    true
}

/// The subtree after keeping only the branch leading to `target` open: nodes on the way to
/// `target` are expanded, `target`'s children and every node off the way are collapsed.
pub open spec fn branch_view(t: TreeView, target: Seq<char>) -> TreeView
    decreases t,
{
    if path_prefix(t.path, target) {
        if same_path(t.path, target) {
            TreeView {
                expanded: true,
                children: Seq::new(
                    t.children.len(),
                    |i: int|
                        if 0 <= i < t.children.len() {
                            collapsed(t.children[i])
                        } else {
                            arbitrary()
                        },
                ),
                ..t
            }
        } else {
            TreeView {
                expanded: true,
                children: Seq::new(
                    t.children.len(),
                    |i: int|
                        if 0 <= i < t.children.len() {
                            if path_prefix(t.children[i].path, target) {
                                branch_view(t.children[i], target)
                            } else {
                                collapsed(t.children[i])
                            }
                        } else {
                            arbitrary()
                        },
                ),
                ..t
            }
        }
    } else {
        collapsed(t)
    }
}

/// Keeps only the ancestor chain leading to `target` expanded; collapses all siblings and
/// cousins.
pub fn enforce_single_branch(node: &mut TreeNode, target: &str)
    ensures
        tree_view(*final(node)) == branch_view(tree_view(*old(node)), target@),
    decreases *old(node),
{
    let ghost before = *node;
    if !path_starts_with(target, node.path.as_str()) {
        collapse_node_and_descendants(node);
        return;
    }
    node.expanded = true;
    let at_target = crate::paths::paths_equal(node.path.as_str(), target);
    let mut kids: Vec<TreeNode> = Vec::new();
    std::mem::swap(&mut kids, &mut node.children);
    let ghost all = kids@;
    let mut out: Vec<TreeNode> = Vec::new();
    let mut i: usize = 0;
    let ghost bv = branch_view(tree_view(before), target@);
    while kids.len() > 0
        invariant
            all == before.children@,
            before == *old(node),
            all.len() == before.children.len(),
            i + kids.len() == all.len(),
            kids@ == all.skip(i as int),
            out.len() == i,
            at_target == same_path(before.path@, target@),
            path_prefix(before.path@, target@),
            bv == branch_view(tree_view(before), target@),
            forall|k: int| 0 <= k < i ==> tree_view(#[trigger] out@[k]) == bv.children[k],
        decreases kids.len(),
    {
        let mut child = kids.remove(0);
        assert(child == all[i as int]);
        assert(tree_view(before).children[i as int] == tree_view(child));
        assert(decreases_to!(before => before.children@[i as int]));
        if at_target {
            collapse_node_and_descendants(&mut child);
        } else if path_starts_with(target, child.path.as_str()) {
            enforce_single_branch(&mut child, target);
        } else {
            collapse_node_and_descendants(&mut child);
        }
        out.push(child);
        assert(kids@ =~= all.skip(i + 1));
        i = i + 1;
    }
    node.children = out;
    let ghost tv = tree_view(*node);
    assert(tv.children.len() == bv.children.len());
    assert forall|k: int| 0 <= k < tv.children.len() implies tv.children[k] == bv.children[k] by {
        assert(tv.children[k] == tree_view(out@[k]));
    }
    assert(tv.children =~= bv.children);
}

/// Only nodes on the way to `target` are expanded.
pub open spec fn expanded_only_toward(t: TreeView, target: Seq<char>) -> bool
    decreases t,
{
    (t.expanded ==> path_prefix(t.path, target)) && forall|i: int|
        0 <= i < t.children.len() ==> expanded_only_toward(#[trigger] t.children[i], target)
}

proof fn lemma_collapsed_only_toward(t: TreeView, target: Seq<char>)
    ensures
        expanded_only_toward(collapsed(t), target),
    decreases t,
{
    let c = collapsed(t);
    assert forall|i: int| 0 <= i < c.children.len() implies expanded_only_toward(
        #[trigger] c.children[i],
        target,
    ) by {
        lemma_collapsed_only_toward(t.children[i], target);
    }
}

/// After keeping the branch to `target` open, every expanded node lies on the way to
/// `target`, and the node itself is expanded when it does.
pub proof fn law_single_branch(t: TreeView, target: Seq<char>)
    ensures
        expanded_only_toward(branch_view(t, target), target),
        path_prefix(t.path, target) ==> branch_view(t, target).expanded,
    decreases t,
{
    let b = branch_view(t, target);
    if path_prefix(t.path, target) {
        assert forall|i: int| 0 <= i < b.children.len() implies expanded_only_toward(
            #[trigger] b.children[i],
            target,
        ) by {
            if !same_path(t.path, target) && path_prefix(t.children[i].path, target) {
                law_single_branch(t.children[i], target);
            } else {
                lemma_collapsed_only_toward(t.children[i], target);
            }
        }
    } else {
        lemma_collapsed_only_toward(t, target);
    }
}


/// First node, in depth-first pre-order, whose path equals `p`.
pub open spec fn find_view(t: TreeView, p: Seq<char>) -> Option<TreeView>
    decreases t,
{
    if same_path(t.path, p) {
        Some(t)
    } else {
        find_in(t.children, p)
    }
}

/// First node, in depth-first pre-order over the subtrees `cs`, whose path equals `p`.
pub open spec fn find_in(cs: Seq<TreeView>, p: Seq<char>) -> Option<TreeView>
    decreases cs,
{
    if cs.len() == 0 {
        None
    } else {
        match find_view(cs[0], p) {
            Some(x) => Some(x),
            None => find_in(cs.drop_first(), p),
        }
    }
}

/// The node at `path`: the first one in depth-first pre-order.
pub fn find_tree_node<'a>(node: &'a TreeNode, path: &str) -> (r: Option<&'a TreeNode>)
    ensures
        match r {
            Some(n) => find_view(tree_view(*node), path@) == Some(tree_view(*n)),
            None => find_view(tree_view(*node), path@) is None,
        },
    decreases *node,
{
    if crate::paths::paths_equal(node.path.as_str(), path) {
        return Some(node);
    }
    let ghost cs = tree_view(*node).children;
    let mut i: usize = 0;
    assert(cs.skip(0) =~= cs);
    while i < node.children.len()
        invariant
            i <= node.children.len(),
            cs == tree_view(*node).children,
            cs.len() == node.children.len(),
            find_in(cs, path@) == find_in(cs.skip(i as int), path@),
            find_view(tree_view(*node), path@) == find_in(cs, path@),
        decreases node.children.len() - i,
    {
        assert(cs.skip(i as int)[0] == tree_view(node.children@[i as int]));
        assert(cs.skip(i as int).drop_first() =~= cs.skip(i + 1));
        assert(decreases_to!(*node => node.children@[i as int]));
        match find_tree_node(&node.children[i], path) {
            Some(found) => {
                return Some(found);
            },
            None => {},
        }
        i = i + 1;
    }
    assert(cs.skip(i as int) =~= Seq::<TreeView>::empty());
    None
}

/// Name of a tree node: the final part of its path, or `?`.
pub open spec fn node_name_of(path: Seq<char>) -> Seq<char> {
    match file_name_of(path) {
        Some(n) => n,
        None => "?"@,
    }
}

/// A closed leaf node for a listing entry.
pub open spec fn leaf_view(path: Seq<char>, is_dir: bool) -> TreeView {
    TreeView {
        path,
        name: node_name_of(path),
        is_dir,
        expanded: false,
        loaded: false,
        children: Seq::empty(),
    }
}

/// The tree's root for the home directory `home`: named after it (`Home` when it has no
/// name), open, its children not loaded yet.
pub open spec fn root_view(home: Seq<char>) -> TreeView {
    TreeView {
        path: home,
        name: match file_name_of(home) {
            Some(n) => n,
            None => "Home"@,
        },
        is_dir: true,
        expanded: true,
        loaded: false,
        children: Seq::empty(),
    }
}

impl TreeNode {
    /// The tree's root: the home directory, expanded, children not loaded yet.
    pub fn root(home: &str) -> (r: TreeNode)
        ensures
            tree_view(r) == root_view(home@),
    {
        let name = match file_name(home) {
            Some(n) => n,
            None => string_from_chars(&chars_of("Home")),
        };
        let r = TreeNode {
            path: string_from_chars(&chars_of(home)),
            name,
            is_dir: true,
            expanded: true,
            children_loaded: false,
            children: Vec::new(),
        };
        assert(tree_view(r).children =~= Seq::<TreeView>::empty());
        r
    }

    /// A closed node for `path`.
    pub fn from_path(path: String, is_dir: bool) -> (r: TreeNode)
        ensures
            tree_view(r) == leaf_view(path@, is_dir),
    {
        let name = match file_name(path.as_str()) {
            Some(n) => n,
            None => string_from_chars(&chars_of("?")),
        };
        let r = TreeNode { path, name, is_dir, expanded: false, children_loaded: false, children: Vec::new() };
        assert(tree_view(r).children =~= Seq::<TreeView>::empty());
        r
    }
}


/// Children loaded from a listing: a closed leaf per directory entry, in listing order.
pub open spec fn dir_leaves(es: Seq<FileEntryView>) -> Seq<TreeView>
    decreases es.len(),
{
    if es.len() == 0 {
        Seq::empty()
    } else if es.last().is_dir {
        dir_leaves(es.drop_last()).push(leaf_view(es.last().path, true))
    } else {
        dir_leaves(es.drop_last())
    }
}

/// A change made to one node of the tree.
#[derive(Clone, Copy, Debug, PartialEq, Eq, Structural)]
pub enum TreeEdit {
    /// Set its children from a complete listing, unless it has them already.
    Load,
    /// Open it.
    Expand,
    /// Close it and everything below it.
    Collapse,
}

/// Node `t` after `edit`, `kids` being the children a load gives it.
pub open spec fn edited(t: TreeView, edit: TreeEdit, kids: Seq<TreeView>) -> TreeView {
    match edit {
        TreeEdit::Load => if t.loaded {
            t
        } else {
            TreeView { children: kids, loaded: true, ..t }
        },
        TreeEdit::Expand => TreeView { expanded: true, ..t },
        TreeEdit::Collapse => collapsed(t),
    }
}

/// The subtree with `edit` made to the first node at `p`, in depth-first pre-order, and
/// whether such a node was found.
pub open spec fn edit_view(t: TreeView, p: Seq<char>, edit: TreeEdit, kids: Seq<TreeView>) -> (TreeView, bool)
    decreases t,
{
    if same_path(t.path, p) {
        (edited(t, edit, kids), true)
    } else {
        let (cs, found) = edit_in(t.children, p, edit, kids);
        (TreeView { children: cs, ..t }, found)
    }
}

/// `edit_view` over the subtrees `cs`, stopping at the first node found.
pub open spec fn edit_in(cs: Seq<TreeView>, p: Seq<char>, edit: TreeEdit, kids: Seq<TreeView>) -> (Seq<TreeView>, bool)
    decreases cs,
{
    if cs.len() == 0 {
        (cs, false)
    } else {
        let (h, f) = edit_view(cs[0], p, edit, kids);
        if f {
            (seq![h] + cs.drop_first(), true)
        } else {
            let (rest, f2) = edit_in(cs.drop_first(), p, edit, kids);
            (seq![h] + rest, f2)
        }
    }
}

fn dir_children(entries: &Vec<FileEntry>) -> (r: Vec<TreeNode>)
    ensures
        Seq::new(r@.len(), |i: int| tree_view(r@[i])) == dir_leaves(entry_views(entries@)),
{
    let ghost es = entry_views(entries@);
    let mut out: Vec<TreeNode> = Vec::new();
    let mut i: usize = 0;
    assert(es.take(0) =~= Seq::<FileEntryView>::empty());
    while i < entries.len()
        invariant
            i <= entries.len(),
            es == entry_views(entries@),
            Seq::new(out@.len(), |k: int| tree_view(out@[k])) == dir_leaves(es.take(i as int)),
        decreases entries.len() - i,
    {
        assert(es.take(i + 1).drop_last() =~= es.take(i as int));
        assert(es.take(i + 1).last() == entries@[i as int]@);
        if entries[i].is_dir {
            let ghost before = Seq::new(out@.len(), |k: int| tree_view(out@[k]));
            let path = string_from_chars(&chars_of(entries[i].path.as_str()));
            let leaf = TreeNode::from_path(path, true);
            out.push(leaf);
            assert(Seq::new(out@.len(), |k: int| tree_view(out@[k])) =~= before.push(tree_view(leaf)));
        }
        i = i + 1;
    }
    assert(es.take(entries.len() as int) =~= es);
    out
}

/// Makes `edit` to the first node at `path`, `entries` being the complete listing a load
/// takes the children from; `false` when no node is at `path`.
pub fn edit_tree_at(node: &mut TreeNode, path: &str, edit: TreeEdit, entries: &Vec<FileEntry>) -> (found: bool)
    ensures
        (tree_view(*final(node)), found) == edit_view(
            tree_view(*old(node)),
            path@,
            edit,
            dir_leaves(entry_views(entries@)),
        ),
    decreases *old(node),
{
    let ghost before = *node;
    let ghost kids_view = dir_leaves(entry_views(entries@));
    if crate::paths::paths_equal(node.path.as_str(), path) {
        match edit {
            TreeEdit::Load => {
                if !node.children_loaded {
                    node.children = dir_children(entries);
                    node.children_loaded = true;
                    assert(tree_view(*node).children =~= kids_view);
                }
            },
            TreeEdit::Expand => {
                node.expanded = true;
                assert(tree_view(*node).children =~= tree_view(before).children);
            },
            TreeEdit::Collapse => {
                collapse_node_and_descendants(node);
            },
        }
        return true;
    }
    let ghost cs = tree_view(before).children;
    let mut kids: Vec<TreeNode> = Vec::new();
    std::mem::swap(&mut kids, &mut node.children);
    let ghost all = kids@;
    let mut out: Vec<TreeNode> = Vec::new();
    let mut i: usize = 0;
    let mut found = false;
    assert(cs.skip(0) =~= cs);
    assert(Seq::new(0, |k: int| tree_view(out@[k])) + cs.skip(0) =~= cs);
    while kids.len() > 0
        invariant
            all == before.children@,
            before == *old(node),
            cs == tree_view(before).children,
            cs.len() == all.len(),
            all.len() == before.children.len(),
            i + kids.len() == all.len(),
            kids@ == all.skip(i as int),
            out.len() == i,
            kids_view == dir_leaves(entry_views(entries@)),
            found ==> edit_in(cs, path@, edit, kids_view) == (Seq::new(i as nat, |k: int| tree_view(out@[k]))
                + cs.skip(i as int), true),
            !found ==> edit_in(cs, path@, edit, kids_view) == (Seq::new(i as nat, |k: int| tree_view(out@[k]))
                + edit_in(cs.skip(i as int), path@, edit, kids_view).0, edit_in(
                cs.skip(i as int),
                path@,
                edit,
                kids_view,
            ).1),
        decreases kids.len(),
    {
        let mut child = kids.remove(0);
        assert(child == all[i as int]);
        assert(cs[i as int] == tree_view(child));
        assert(cs.skip(i as int)[0] == cs[i as int]);
        assert(cs.skip(i as int).drop_first() =~= cs.skip(i + 1));
        assert(decreases_to!(before => before.children@[i as int]));
        let ghost prev = Seq::new(i as nat, |k: int| tree_view(out@[k]));
        let ghost was_found = found;
        if !found {
            found = edit_tree_at(&mut child, path, edit, entries);
        }
        let ghost h = tree_view(child);
        out.push(child);
        let ghost now = Seq::new((i + 1) as nat, |k: int| tree_view(out@[k]));
        assert(now =~= prev.push(h));
        proof {
            if was_found {
                assert(prev + cs.skip(i as int) =~= now + cs.skip(i + 1));
            } else if found {
                assert(prev + (seq![h] + cs.skip(i + 1)) =~= now + cs.skip(i + 1));
            } else {
                let rest = edit_in(cs.skip(i + 1), path@, edit, kids_view).0;
                assert(prev + (seq![h] + rest) =~= now + rest);
            }
        }
        assert(kids@ =~= all.skip(i + 1));
        i = i + 1;
    }
    node.children = out;
    assert(cs.skip(i as int) =~= Seq::<TreeView>::empty());
    let ghost tv = tree_view(*node);
    assert(tv.children =~= Seq::new(i as nat, |k: int| tree_view(out@[k])));
    if !found {
        assert(edit_in(Seq::<TreeView>::empty(), path@, edit, kids_view) == (Seq::<TreeView>::empty(), false));
        assert(tv.children =~= tv.children + Seq::<TreeView>::empty());
    } else {
        assert(tv.children =~= tv.children + Seq::<TreeView>::empty());
    }
    found
}


/// Loads the children of the first node at `path` from a complete listing of it, unless
/// already loaded; `false` when no node is at `path`.
pub fn load_children_at(node: &mut TreeNode, path: &str, entries: &Vec<FileEntry>) -> (found: bool)
    ensures
        (tree_view(*final(node)), found) == edit_view(
            tree_view(*old(node)),
            path@,
            TreeEdit::Load,
            dir_leaves(entry_views(entries@)),
        ),
{
    edit_tree_at(node, path, TreeEdit::Load, entries)
}

} // verus!
