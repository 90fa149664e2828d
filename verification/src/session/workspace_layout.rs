//! Workspace split-pane model used by terminal tabs.
//!
//! Split ratios are kept in thousandths (500 is an even split) so that the
//! model stays in integers; a ratio is valid from 100 to 900.
use vstd::prelude::*;

use crate::session::session_event::SessionId;

verus! {

/// Most panes one workspace may hold.
pub const MAX_LEAVES: usize = 4;

/// Smallest and largest valid split ratio, in thousandths.
pub const MIN_RATIO: u16 = 100;

pub const MAX_RATIO: u16 = 900;

/// A stable pane identifier.
#[derive(Debug, Clone, Copy, PartialEq, Eq, Hash, PartialOrd, Ord, Structural)]
pub struct PaneId(pub u64);

impl PaneId {
    pub fn new(value: u64) -> (p: PaneId)
        ensures
            p.0 == value,
    {
        PaneId(value)
    }

    pub fn value(self) -> (v: u64)
        ensures
            v == self.0,
    {
        self.0
    }
}

/// Split orientation.
#[derive(Debug, Clone, Copy, PartialEq, Eq, Structural)]
pub enum SplitDirection {
    Horizontal,
    Vertical,
}

/// Workspace split tree.
#[derive(Debug, PartialEq, Eq)]
pub enum WorkspaceNode {
    Leaf { pane_id: PaneId, session_id: Option<SessionId> },
    Split {
        direction: SplitDirection,
        /// Share of the first child, in thousandths.
        ratio: u16,
        first: Box<WorkspaceNode>,
        second: Box<WorkspaceNode>,
    },
}

/// The pane ids of a tree, left to right.
pub open spec fn leaves(n: WorkspaceNode) -> Seq<PaneId>
    decreases n,
{
    match n {
        WorkspaceNode::Leaf { pane_id, .. } => seq![pane_id],
        WorkspaceNode::Split { first, second, .. } => leaves(*first) + leaves(*second),
    }
}

/// The tree with leaf `target` replaced by a split holding it and a new leaf.
pub open spec fn spec_split(
    n: WorkspaceNode,
    target: PaneId,
    new_pane: PaneId,
    direction: SplitDirection,
    ratio: u16,
    session_id: Option<SessionId>,
) -> WorkspaceNode
    decreases n,
{
    match n {
        WorkspaceNode::Leaf { pane_id, .. } => if pane_id == target {
            WorkspaceNode::Split {
                direction,
                ratio,
                first: Box::new(n),
                second: Box::new(WorkspaceNode::Leaf { pane_id: new_pane, session_id }),
            }
        } else {
            n
        },
        WorkspaceNode::Split { direction: d, ratio: r, first, second } => if leaves(
            *first,
        ).contains(target) {
            WorkspaceNode::Split {
                direction: d,
                ratio: r,
                first: Box::new(spec_split(*first, target, new_pane, direction, ratio, session_id)),
                second,
            }
        } else {
            WorkspaceNode::Split {
                direction: d,
                ratio: r,
                first,
                second: Box::new(spec_split(*second, target, new_pane, direction, ratio, session_id)),
            }
        },
    }
}

/// Somewhere in `n` stands a split of orientation `direction` and ratio
/// `ratio` whose first child is the leaf of pane `a` and whose second child
/// is the leaf of pane `b` showing session `session_id`.
pub open spec fn holds_pair(
    n: WorkspaceNode,
    a: PaneId,
    b: PaneId,
    direction: SplitDirection,
    ratio: u16,
    session_id: Option<SessionId>,
) -> bool
    decreases n,
{
    match n {
        WorkspaceNode::Leaf { .. } => false,
        WorkspaceNode::Split { direction: d, ratio: r, first, second } => {
            ||| (d == direction && r == ratio && (*first matches WorkspaceNode::Leaf { pane_id, .. }
                && pane_id == a) && *second == (WorkspaceNode::Leaf { pane_id: b, session_id }))
            ||| holds_pair(*first, a, b, direction, ratio, session_id)
            ||| holds_pair(*second, a, b, direction, ratio, session_id)
        },
    }
}

/// The orientation and ratio of each split, in order: a split comes after
/// everything in its first child and before everything in its second.
pub open spec fn split_settings(n: WorkspaceNode) -> Seq<(SplitDirection, u16)>
    decreases n,
{
    match n {
        WorkspaceNode::Leaf { .. } => Seq::empty(),
        WorkspaceNode::Split { direction, ratio, first, second } => split_settings(*first) + seq![
            (direction, ratio),
        ] + split_settings(*second),
    }
}

/// The session shown by pane `p`, if the tree holds that pane (the first
/// such leaf, left to right).
pub open spec fn session_in(n: WorkspaceNode, p: PaneId) -> Option<Option<SessionId>>
    decreases n,
{
    match n {
        WorkspaceNode::Leaf { pane_id, session_id } => if pane_id == p {
            Some(session_id)
        } else {
            None
        },
        WorkspaceNode::Split { first, second, .. } => match session_in(*first, p) {
            Some(s) => Some(s),
            None => session_in(*second, p),
        },
    }
}

/// The tree with leaf `target` removed: its sibling takes the place of their split.
pub open spec fn spec_close(n: WorkspaceNode, target: PaneId) -> WorkspaceNode
    decreases n,
{
    match n {
        WorkspaceNode::Leaf { .. } => n,
        WorkspaceNode::Split { direction, ratio, first, second } => {
            if *first matches WorkspaceNode::Leaf { pane_id, .. } && pane_id == target {
                *second
            } else if *second matches WorkspaceNode::Leaf { pane_id, .. } && pane_id == target {
                *first
            } else if leaves(*first).contains(target) {
                WorkspaceNode::Split {
                    direction,
                    ratio,
                    first: Box::new(spec_close(*first, target)),
                    second,
                }
            } else {
                WorkspaceNode::Split {
                    direction,
                    ratio,
                    first,
                    second: Box::new(spec_close(*second, target)),
                }
            }
        },
    }
}

/// `s` with `x` inserted right after the first `t`.
pub open spec fn insert_after(s: Seq<PaneId>, t: PaneId, x: PaneId) -> Seq<PaneId> {
    match crate::text::index_in(s, t) {
        Some(i) => s.insert(i + 1int, x),
        None => s,
    }
}

/// `s` without the first `t`.
pub open spec fn remove_first(s: Seq<PaneId>, t: PaneId) -> Seq<PaneId> {
    match crate::text::index_in(s, t) {
        Some(i) => s.remove(i as int),
        None => s,
    }
}

proof fn lemma_index_in_concat(a: Seq<PaneId>, b: Seq<PaneId>, t: PaneId)
    ensures
        a.contains(t) ==> crate::text::index_in(a + b, t) == crate::text::index_in(a, t),
        !a.contains(t) && b.contains(t) ==> (crate::text::index_in(a + b, t) matches Some(i) && i
            == a.len() + crate::text::index_in(b, t).unwrap()),
{
    crate::text::lemma_index_in(a, t);
    crate::text::lemma_index_in(b, t);
    crate::text::lemma_index_in(a + b, t);
    if a.contains(t) {
        let i = crate::text::index_in(a, t).unwrap();
        assert((a + b)[i as int] == t);
        match crate::text::index_in(a + b, t) {
            Some(k) => {
                if k < i {
                    assert((a + b)[k as int] == a[k as int]);
                }
            },
            None => {},
        }
    } else if b.contains(t) {
        let j = crate::text::index_in(b, t).unwrap();
        assert((a + b)[(a.len() + j) as int] == t);
        match crate::text::index_in(a + b, t) {
            Some(k) => {
                if k < a.len() {
                    assert((a + b)[k as int] == a[k as int]);
                    assert(a.contains(t));
                } else if k < a.len() + j {
                    assert((a + b)[k as int] == b[k - a.len()]);
                }
            },
            None => {},
        }
    }
}

/// Splitting inserts the new pane right after the target in the pane order.
pub proof fn lemma_split_leaves(
    n: WorkspaceNode,
    target: PaneId,
    new_pane: PaneId,
    direction: SplitDirection,
    ratio: u16,
    session_id: Option<SessionId>,
)
    requires
        leaves(n).contains(target),
    ensures
        leaves(spec_split(n, target, new_pane, direction, ratio, session_id)) == insert_after(
            leaves(n),
            target,
            new_pane,
        ),
    decreases n,
{
    match n {
        WorkspaceNode::Leaf { pane_id, .. } => {
            assert(leaves(n)[0] == pane_id);
            crate::text::lemma_index_in(leaves(n), target);
            assert(pane_id == target);
            let leaf = WorkspaceNode::Leaf { pane_id: new_pane, session_id };
            assert(leaves(leaf) == seq![new_pane]);
            assert(leaves(spec_split(n, target, new_pane, direction, ratio, session_id)) == leaves(n)
                + leaves(leaf));
            assert(leaves(spec_split(n, target, new_pane, direction, ratio, session_id)) =~= seq![
                pane_id,
                new_pane,
            ]);
            assert(leaves(n).insert(1, new_pane) =~= seq![pane_id, new_pane]);
        },
        WorkspaceNode::Split { first, second, .. } => {
            lemma_index_in_concat(leaves(*first), leaves(*second), target);
            if leaves(*first).contains(target) {
                lemma_split_leaves(*first, target, new_pane, direction, ratio, session_id);
                let i = crate::text::index_in(leaves(*first), target).unwrap();
                crate::text::lemma_index_in(leaves(*first), target);
                assert(leaves(*first).insert(i + 1int, new_pane) + leaves(*second) =~= (leaves(*first)
                    + leaves(*second)).insert(i + 1int, new_pane));
            } else {
                assert(leaves(*second).contains(target)) by {
                    let k = choose|k: int| 0 <= k < leaves(n).len() && leaves(n)[k] == target;
                    if k < leaves(*first).len() {
                        assert(leaves(*first)[k] == target);
                    } else {
                        assert(leaves(*second)[k - leaves(*first).len()] == target);
                    }
                }
                lemma_split_leaves(*second, target, new_pane, direction, ratio, session_id);
                let j = crate::text::index_in(leaves(*second), target).unwrap();
                crate::text::lemma_index_in(leaves(*second), target);
                assert(leaves(*first) + leaves(*second).insert(j + 1int, new_pane) =~= (leaves(*first)
                    + leaves(*second)).insert((leaves(*first).len() + j + 1) as int, new_pane));
            }
        },
    }
}

/// Splitting a pane puts it and the new pane side by side under a split of
/// exactly the requested orientation and ratio, the new pane first showing
/// the given session.
pub proof fn law_split_places_requested_pair(
    n: WorkspaceNode,
    target: PaneId,
    new_pane: PaneId,
    direction: SplitDirection,
    ratio: u16,
    session_id: Option<SessionId>,
)
    requires
        leaves(n).contains(target),
    ensures
        holds_pair(
            spec_split(n, target, new_pane, direction, ratio, session_id),
            target,
            new_pane,
            direction,
            ratio,
            session_id,
        ),
    decreases n,
{
    match n {
        WorkspaceNode::Leaf { pane_id, .. } => {
            assert(leaves(n)[0] == pane_id);
        },
        WorkspaceNode::Split { first, second, .. } => {
            if leaves(*first).contains(target) {
                law_split_places_requested_pair(*first, target, new_pane, direction, ratio, session_id);
            } else {
                assert(leaves(*second).contains(target)) by {
                    let k = choose|k: int| 0 <= k < leaves(n).len() && leaves(n)[k] == target;
                    if k < leaves(*first).len() {
                        assert(leaves(*first)[k] == target);
                    } else {
                        assert(leaves(*second)[k - leaves(*first).len()] == target);
                    }
                }
                law_split_places_requested_pair(*second, target, new_pane, direction, ratio, session_id);
            }
        },
    }
}

/// A tree has one split fewer than it has panes.
proof fn lemma_settings_len(n: WorkspaceNode)
    ensures
        split_settings(n).len() + 1 == leaves(n).len(),
    decreases n,
{
    match n {
        WorkspaceNode::Leaf { .. } => {},
        WorkspaceNode::Split { first, second, .. } => {
            lemma_settings_len(*first);
            lemma_settings_len(*second);
        },
    }
}

/// A pane shows a session in the tree exactly when the tree holds the pane.
proof fn lemma_session_in_contains(n: WorkspaceNode, p: PaneId)
    ensures
        session_in(n, p) is Some <==> leaves(n).contains(p),
    decreases n,
{
    match n {
        WorkspaceNode::Leaf { pane_id, .. } => {
            assert(leaves(n)[0] == pane_id);
        },
        WorkspaceNode::Split { first, second, .. } => {
            lemma_session_in_contains(*first, p);
            lemma_session_in_contains(*second, p);
            let l = leaves(*first);
            let r = leaves(*second);
            if l.contains(p) {
                let k = choose|k: int| 0 <= k < l.len() && l[k] == p;
                assert((l + r)[k] == p);
            }
            if r.contains(p) {
                let k = choose|k: int| 0 <= k < r.len() && r[k] == p;
                assert((l + r)[l.len() + k] == p);
            }
            if (l + r).contains(p) {
                let k = choose|k: int| 0 <= k < (l + r).len() && (l + r)[k] == p;
                if k < l.len() {
                    assert(l[k] == p);
                } else {
                    assert(r[k - l.len()] == p);
                }
            }
        },
    }
}

/// Splitting adds exactly one split, of the requested orientation and ratio,
/// right after the target pane in the order of panes and splits; every other
/// split keeps its orientation and ratio.
pub proof fn law_split_adds_one_split(
    n: WorkspaceNode,
    target: PaneId,
    new_pane: PaneId,
    direction: SplitDirection,
    ratio: u16,
    session_id: Option<SessionId>,
)
    requires
        leaves(n).contains(target),
    ensures
        split_settings(spec_split(n, target, new_pane, direction, ratio, session_id))
            == split_settings(n).insert(
            crate::text::index_in(leaves(n), target).unwrap() as int,
            (direction, ratio),
        ),
    decreases n,
{
    match n {
        WorkspaceNode::Leaf { pane_id, .. } => {
            assert(leaves(n)[0] == pane_id);
            crate::text::lemma_index_in(leaves(n), target);
            assert(pane_id == target);
            let leaf = WorkspaceNode::Leaf { pane_id: new_pane, session_id };
            let res = spec_split(n, target, new_pane, direction, ratio, session_id);
            assert(res == WorkspaceNode::Split { direction, ratio, first: Box::new(n), second: Box::new(leaf) });
            assert(split_settings(n) =~= Seq::<(SplitDirection, u16)>::empty());
            assert(split_settings(leaf) =~= Seq::<(SplitDirection, u16)>::empty());
            assert(split_settings(res) =~= seq![(direction, ratio)]);
            assert(Seq::<(SplitDirection, u16)>::empty().insert(0, (direction, ratio)) =~= seq![
                (direction, ratio),
            ]);
        },
        WorkspaceNode::Split { direction: d, ratio: r, first, second } => {
            lemma_index_in_concat(leaves(*first), leaves(*second), target);
            lemma_settings_len(*first);
            lemma_settings_len(*second);
            let x = (direction, ratio);
            let mid = seq![(d, r)];
            if leaves(*first).contains(target) {
                law_split_adds_one_split(*first, target, new_pane, direction, ratio, session_id);
                let i = crate::text::index_in(leaves(*first), target).unwrap() as int;
                crate::text::lemma_index_in(leaves(*first), target);
                assert(split_settings(*first).insert(i, x) + mid + split_settings(*second) =~= (
                split_settings(*first) + mid + split_settings(*second)).insert(i, x));
            } else {
                assert(leaves(*second).contains(target)) by {
                    let k = choose|k: int| 0 <= k < leaves(n).len() && leaves(n)[k] == target;
                    if k < leaves(*first).len() {
                        assert(leaves(*first)[k] == target);
                    } else {
                        assert(leaves(*second)[k - leaves(*first).len()] == target);
                    }
                }
                law_split_adds_one_split(*second, target, new_pane, direction, ratio, session_id);
                let j = crate::text::index_in(leaves(*second), target).unwrap() as int;
                crate::text::lemma_index_in(leaves(*second), target);
                assert(split_settings(*first) + mid + split_settings(*second).insert(j, x) =~= (
                split_settings(*first) + mid + split_settings(*second)).insert(
                    leaves(*first).len() + j,
                    x,
                ));
            }
        },
    }
}

/// Splitting keeps the session every existing pane shows, and the new pane
/// shows the given session.
pub proof fn law_split_keeps_sessions(
    n: WorkspaceNode,
    target: PaneId,
    new_pane: PaneId,
    direction: SplitDirection,
    ratio: u16,
    session_id: Option<SessionId>,
    p: PaneId,
)
    requires
        leaves(n).contains(target),
        !leaves(n).contains(new_pane),
    ensures
        p != new_pane ==> session_in(spec_split(n, target, new_pane, direction, ratio, session_id), p)
            == session_in(n, p),
        session_in(spec_split(n, target, new_pane, direction, ratio, session_id), new_pane) == Some(
            session_id,
        ),
    decreases n,
{
    lemma_session_in_contains(n, new_pane);
    match n {
        WorkspaceNode::Leaf { pane_id, .. } => {
            assert(leaves(n)[0] == pane_id);
            assert(pane_id == target);
            assert(pane_id != new_pane);
            let leaf = WorkspaceNode::Leaf { pane_id: new_pane, session_id };
            let res = spec_split(n, target, new_pane, direction, ratio, session_id);
            assert(res == WorkspaceNode::Split { direction, ratio, first: Box::new(n), second: Box::new(leaf) });
            assert(session_in(leaf, new_pane) == Some(session_id));
            assert(session_in(n, new_pane) is None);
            assert(p != new_pane ==> session_in(leaf, p) is None);
        },
        WorkspaceNode::Split { first, second, .. } => {
            lemma_session_in_contains(*first, new_pane);
            lemma_session_in_contains(*second, new_pane);
            let l = leaves(*first);
            let r = leaves(*second);
            if l.contains(new_pane) {
                let k = choose|k: int| 0 <= k < l.len() && l[k] == new_pane;
                assert((l + r)[k] == new_pane);
            }
            if r.contains(new_pane) {
                let k = choose|k: int| 0 <= k < r.len() && r[k] == new_pane;
                assert((l + r)[l.len() + k] == new_pane);
            }
            if l.contains(target) {
                law_split_keeps_sessions(*first, target, new_pane, direction, ratio, session_id, p);
            } else {
                assert(r.contains(target)) by {
                    let k = choose|k: int| 0 <= k < leaves(n).len() && leaves(n)[k] == target;
                    if k < l.len() {
                        assert(l[k] == target);
                    } else {
                        assert(r[k - l.len()] == target);
                    }
                }
                law_split_keeps_sessions(*second, target, new_pane, direction, ratio, session_id, p);
            }
        },
    }
}

/// Closing a pane keeps the session every other pane shows, and the closed
/// pane is gone.
pub proof fn law_close_keeps_sessions(n: WorkspaceNode, target: PaneId, p: PaneId)
    requires
        leaves(n).contains(target),
        leaves(n).no_duplicates(),
        leaves(n).len() > 1,
    ensures
        p != target ==> session_in(spec_close(n, target), p) == session_in(n, p),
        session_in(spec_close(n, target), target) is None,
    decreases n,
{
    match n {
        WorkspaceNode::Leaf { .. } => {},
        WorkspaceNode::Split { first, second, .. } => {
            let l = leaves(*first);
            let r = leaves(*second);
            lemma_concat_no_duplicates(l, r);
            lemma_session_in_contains(*first, target);
            lemma_session_in_contains(*second, target);
            lemma_session_in_contains(*first, p);
            lemma_leaves_nonempty(*first);
            lemma_leaves_nonempty(*second);
            if *first matches WorkspaceNode::Leaf { pane_id, .. } && pane_id == target {
                assert(l[0] == target);
            } else if *second matches WorkspaceNode::Leaf { pane_id, .. } && pane_id == target {
                assert(r[0] == target);
            } else if l.contains(target) {
                lemma_single_leaf_is_leaf(*first, target);
                law_close_keeps_sessions(*first, target, p);
            } else {
                assert(r.contains(target)) by {
                    let k = choose|k: int| 0 <= k < leaves(n).len() && leaves(n)[k] == target;
                    if k < l.len() {
                        assert(l[k] == target);
                    } else {
                        assert(r[k - l.len()] == target);
                    }
                }
                lemma_single_leaf_is_leaf(*second, target);
                law_close_keeps_sessions(*second, target, p);
            }
        },
    }
}

/// Setting the ratio of a split layout changes the top split's ratio and
/// nothing else; a single pane is left as it is.
pub proof fn law_set_ratio_changes_only_top_ratio(n: WorkspaceNode, ratio: u16)
    ensures
        n matches WorkspaceNode::Split { direction, first, second, .. } ==> with_ratio(n, ratio)
            == (WorkspaceNode::Split { direction, ratio, first, second }),
        n is Leaf ==> with_ratio(n, ratio) == n,
        leaves(with_ratio(n, ratio)) == leaves(n),
{
}

proof fn lemma_concat_no_duplicates(a: Seq<PaneId>, b: Seq<PaneId>)
    requires
        (a + b).no_duplicates(),
    ensures
        a.no_duplicates(),
        b.no_duplicates(),
        forall|x: PaneId| a.contains(x) ==> !b.contains(x),
{
    assert forall|i: int, j: int| 0 <= i < a.len() && 0 <= j < a.len() && i != j implies a[i]
        != a[j] by {
        assert((a + b)[i] == a[i] && (a + b)[j] == a[j]);
    }
    assert forall|i: int, j: int| 0 <= i < b.len() && 0 <= j < b.len() && i != j implies b[i]
        != b[j] by {
        assert((a + b)[a.len() + i] == b[i] && (a + b)[a.len() + j] == b[j]);
    }
    assert forall|x: PaneId| a.contains(x) implies !b.contains(x) by {
        if b.contains(x) {
            let i = choose|i: int| 0 <= i < a.len() && a[i] == x;
            let j = choose|j: int| 0 <= j < b.len() && b[j] == x;
            assert((a + b)[i] == (a + b)[a.len() + j]);
        }
    }
}

/// Closing removes the target from the pane order.
pub proof fn lemma_close_leaves(n: WorkspaceNode, target: PaneId)
    requires
        leaves(n).contains(target),
        leaves(n).no_duplicates(),
        leaves(n).len() > 1,
    ensures
        leaves(spec_close(n, target)) == remove_first(leaves(n), target),
    decreases n,
{
    match n {
        WorkspaceNode::Leaf { .. } => {},
        WorkspaceNode::Split { first, second, .. } => {
            lemma_concat_no_duplicates(leaves(*first), leaves(*second));
            lemma_index_in_concat(leaves(*first), leaves(*second), target);
            crate::text::lemma_index_in(leaves(*first), target);
            crate::text::lemma_index_in(leaves(*second), target);
            lemma_single_leaf_is_leaf(*first, target);
            lemma_single_leaf_is_leaf(*second, target);
            if *first matches WorkspaceNode::Leaf { pane_id, .. } && pane_id == target {
                assert(leaves(*first) =~= seq![target]);
                assert(leaves(*first)[0] == target);
                assert((leaves(*first) + leaves(*second)).remove(0) =~= leaves(*second));
            } else if *second matches WorkspaceNode::Leaf { pane_id, .. } && pane_id == target {
                assert(leaves(*second) =~= seq![target]);
                assert(leaves(*second)[0] == target);
                assert(!leaves(*first).contains(target));
                assert((leaves(*first) + leaves(*second)).remove(leaves(*first).len() as int)
                    =~= leaves(*first));
            } else if leaves(*first).contains(target) {
                lemma_close_leaves(*first, target);
                let i = crate::text::index_in(leaves(*first), target).unwrap();
                assert(leaves(*first).remove(i as int) + leaves(*second) =~= (leaves(*first)
                    + leaves(*second)).remove(i as int));
            } else {
                assert(leaves(*second).contains(target)) by {
                    let k = choose|k: int| 0 <= k < leaves(n).len() && leaves(n)[k] == target;
                    if k < leaves(*first).len() {
                        assert(leaves(*first)[k] == target);
                    } else {
                        assert(leaves(*second)[k - leaves(*first).len()] == target);
                    }
                }
                lemma_close_leaves(*second, target);
                let j = crate::text::index_in(leaves(*second), target).unwrap();
                assert(leaves(*first) + leaves(*second).remove(j as int) =~= (leaves(*first)
                    + leaves(*second)).remove((leaves(*first).len() + j) as int));
            }
        },
    }
}

proof fn lemma_leaves_nonempty(n: WorkspaceNode)
    ensures
        leaves(n).len() >= 1,
    decreases n,
{
    match n {
        WorkspaceNode::Leaf { .. } => {},
        WorkspaceNode::Split { first, .. } => {
            lemma_leaves_nonempty(*first);
        },
    }
}

/// A subtree with one leaf that contains the target is that leaf.
proof fn lemma_single_leaf_is_leaf(n: WorkspaceNode, target: PaneId)
    ensures
        leaves(n).len() == 1 && leaves(n).contains(target) ==> (n matches WorkspaceNode::Leaf {
            pane_id,
            ..
        } && pane_id == target),
        leaves(n).len() >= 1,
    decreases n,
{
    match n {
        WorkspaceNode::Leaf { pane_id, .. } => {
            if leaves(n).contains(target) {
                assert(leaves(n)[0] == pane_id);
            }
        },
        WorkspaceNode::Split { first, second, .. } => {
            lemma_leaves_nonempty(*first);
            lemma_leaves_nonempty(*second);
        },
    }
}

/// Whether the tree holds pane `target`.
pub fn node_contains(node: &WorkspaceNode, target: PaneId) -> (b: bool)
    ensures
        b == leaves(*node).contains(target),
    decreases node,
{
    match node {
        WorkspaceNode::Leaf { pane_id, .. } => {
            proof {
                assert(leaves(*node)[0] == *pane_id);
            }
            *pane_id == target
        },
        WorkspaceNode::Split { first, second, .. } => {
            let a = node_contains(first, target);
            let b = node_contains(second, target);
            proof {
                let l = leaves(**first);
                let r = leaves(**second);
                if a {
                    let k = choose|k: int| 0 <= k < l.len() && l[k] == target;
                    assert((l + r)[k] == target);
                }
                if b {
                    let k = choose|k: int| 0 <= k < r.len() && r[k] == target;
                    assert((l + r)[l.len() + k] == target);
                }
                if (l + r).contains(target) {
                    let k = choose|k: int| 0 <= k < (l + r).len() && (l + r)[k] == target;
                    if k < l.len() {
                        assert(l[k] == target);
                    } else {
                        assert(r[k - l.len()] == target);
                    }
                }
            }
            a || b
        },
    }
}

/// Number of panes in the tree.
pub fn count_leaves(node: &WorkspaceNode) -> (n: usize)
    requires
        leaves(*node).len() <= usize::MAX,
    ensures
        n == leaves(*node).len(),
    decreases node,
{
    match node {
        WorkspaceNode::Leaf { .. } => 1,
        WorkspaceNode::Split { first, second, .. } => {
            proof {
                lemma_leaves_nonempty(**first);
                lemma_leaves_nonempty(**second);
            }
            count_leaves(first) + count_leaves(second)
        },
    }
}

/// Appends the tree's pane ids, left to right.
fn collect_panes(node: &WorkspaceNode, out: &mut Vec<PaneId>)
    ensures
        final(out)@ == old(out)@ + leaves(*node),
    decreases node,
{
    match node {
        WorkspaceNode::Leaf { pane_id, .. } => {
            out.push(*pane_id);
            assert(out@ =~= old(out)@ + leaves(*node));
        },
        WorkspaceNode::Split { first, second, .. } => {
            collect_panes(first, out);
            collect_panes(second, out);
            assert(out@ =~= old(out)@ + leaves(*node));
        },
    }
}

/// `spec_split` computed.
fn split_node(
    node: WorkspaceNode,
    target: PaneId,
    new_pane: PaneId,
    direction: SplitDirection,
    ratio: u16,
    session_id: Option<SessionId>,
) -> (r: WorkspaceNode)
    ensures
        r == spec_split(node, target, new_pane, direction, ratio, session_id),
    decreases node,
{
    match node {
        WorkspaceNode::Leaf { pane_id, session_id: leaf_session } => {
            if pane_id == target {
                WorkspaceNode::Split {
                    direction,
                    ratio,
                    first: Box::new(WorkspaceNode::Leaf { pane_id, session_id: leaf_session }),
                    second: Box::new(WorkspaceNode::Leaf { pane_id: new_pane, session_id }),
                }
            } else {
                WorkspaceNode::Leaf { pane_id, session_id: leaf_session }
            }
        },
        WorkspaceNode::Split { direction: d, ratio: r, first, second } => {
            if node_contains(&first, target) {
                let f = split_node(*first, target, new_pane, direction, ratio, session_id);
                WorkspaceNode::Split { direction: d, ratio: r, first: Box::new(f), second }
            } else {
                let s = split_node(*second, target, new_pane, direction, ratio, session_id);
                WorkspaceNode::Split { direction: d, ratio: r, first, second: Box::new(s) }
            }
        },
    }
}

/// `spec_close` computed.
fn close_node(node: WorkspaceNode, target: PaneId) -> (r: WorkspaceNode)
    ensures
        r == spec_close(node, target),
    decreases node,
{
    match node {
        WorkspaceNode::Leaf { pane_id, session_id } => WorkspaceNode::Leaf { pane_id, session_id },
        WorkspaceNode::Split { direction, ratio, first, second } => {
            let first_is_target = match &*first {
                WorkspaceNode::Leaf { pane_id, .. } => *pane_id == target,
                _ => false,
            };
            let second_is_target = match &*second {
                WorkspaceNode::Leaf { pane_id, .. } => *pane_id == target,
                _ => false,
            };
            if first_is_target {
                *second
            } else if second_is_target {
                *first
            } else if node_contains(&first, target) {
                let f = close_node(*first, target);
                WorkspaceNode::Split { direction, ratio, first: Box::new(f), second }
            } else {
                let s = close_node(*second, target);
                WorkspaceNode::Split { direction, ratio, first, second: Box::new(s) }
            }
        },
    }
}

/// Layout mutation errors.
#[derive(Debug, Clone, Copy, PartialEq, Eq, Structural)]
pub enum WorkspaceLayoutError {
    PaneNotFound(PaneId),
    TooManyLeaves,
    CannotCloseLastLeaf,
    /// The ratio, in thousandths, is outside 100..=900.
    InvalidRatio(u16),
}

/// Split-pane model for one workspace or tab.
#[derive(Debug, PartialEq, Eq)]
pub struct WorkspaceLayout {
    root: WorkspaceNode,
    next_pane_id: u64,
}

/// The tree with its top-level split set to `ratio`.
pub open spec fn with_ratio(n: WorkspaceNode, ratio: u16) -> WorkspaceNode {
    match n {
        WorkspaceNode::Split { direction, first, second, .. } => WorkspaceNode::Split {
            direction,
            ratio,
            first,
            second,
        },
        WorkspaceNode::Leaf { .. } => n,
    }
}

pub open spec fn valid_ratio(ratio: u16) -> bool {
    MIN_RATIO <= ratio <= MAX_RATIO
}

/// The layout every new tab starts with: one empty pane, number 1.
pub closed spec fn initial_layout() -> WorkspaceLayout {
    WorkspaceLayout {
        root: WorkspaceNode::Leaf { pane_id: PaneId(1), session_id: None },
        next_pane_id: 2,
    }
}

pub proof fn lemma_initial_layout()
    ensures
        initial_layout().wf(),
        initial_layout().panes() == seq![PaneId(1)],
        initial_layout().next_id() == 2,
{
    assert(initial_layout().panes() =~= seq![PaneId(1)]);
}

impl WorkspaceLayout {
    /// The split tree.
    pub closed spec fn tree(&self) -> WorkspaceNode {
        self.root
    }

    /// The id the next split will give its new pane.
    pub closed spec fn next_id(&self) -> u64 {
        self.next_pane_id
    }

    /// Pane ids left to right.
    pub open spec fn panes(&self) -> Seq<PaneId> {
        leaves(self.tree())
    }

    /// The layout invariant: one to four distinct panes, all numbered below the next id.
    pub open spec fn wf(&self) -> bool {
        &&& 1 <= self.panes().len() <= MAX_LEAVES
        &&& self.panes().no_duplicates()
        &&& forall|i: int| 0 <= i < self.panes().len() ==> (#[trigger] self.panes()[i]).0 < self.next_id()
    }

    /// A layout with a single empty pane, number 1.
    pub fn new() -> (l: WorkspaceLayout)
        ensures
            l == initial_layout(),
            l.wf(),
            l.panes() == seq![PaneId(1)],
            l.tree() == (WorkspaceNode::Leaf { pane_id: PaneId(1), session_id: None }),
            l.next_id() == 2,
    {
        let l = WorkspaceLayout {
            root: WorkspaceNode::Leaf { pane_id: PaneId(1), session_id: None },
            next_pane_id: 2,
        };
        assert(l.panes() =~= seq![PaneId(1)]);
        l
    }

    /// The split tree.
    pub fn root(&self) -> (r: &WorkspaceNode)
        ensures
            *r == self.tree(),
    {
        &self.root
    }

    /// Number of panes.
    pub fn leaf_count(&self) -> (n: usize)
        requires
            self.wf(),
        ensures
            n == self.panes().len(),
    {
        count_leaves(&self.root)
    }

    /// Pane ids in visual (left to right, top to bottom) order.
    pub fn pane_ids(&self) -> (ids: Vec<PaneId>)
        ensures
            ids@ == self.panes(),
    {
        let mut ids: Vec<PaneId> = Vec::new();
        collect_panes(&self.root, &mut ids);
        assert(ids@ =~= self.panes());
        ids
    }

    /// Splits pane `target`, returning the new pane's id. Fails with
    /// `InvalidRatio` outside 100..=900, `TooManyLeaves` at four panes and
    /// `PaneNotFound` for an unknown pane, in that order of checks.
    pub fn split(
        &mut self,
        target: PaneId,
        direction: SplitDirection,
        ratio: u16,
        session_id: Option<SessionId>,
    ) -> (r: Result<PaneId, WorkspaceLayoutError>)
        requires
            old(self).wf(),
            old(self).next_id() < u64::MAX,
        ensures
            final(self).wf(),
            match r {
                Ok(p) => valid_ratio(ratio) && old(self).panes().len() < MAX_LEAVES && old(self).panes().contains(target) && p == PaneId(old(self).next_id())
                    && final(self).next_id() == old(self).next_id() + 1 && final(self).tree()
                    == spec_split(old(self).tree(), target, p, direction, ratio, session_id)
                    && holds_pair(final(self).tree(), target, p, direction, ratio, session_id)
                    && split_settings(final(self).tree()) == split_settings(old(self).tree()).insert(
                    crate::text::index_in(old(self).panes(), target).unwrap() as int,
                    (direction, ratio),
                )
                    && final(self).panes() == insert_after(old(self).panes(), target, p),
                Err(e) => *final(self) == *old(self) && e == if !valid_ratio(ratio) {
                    WorkspaceLayoutError::InvalidRatio(ratio)
                } else if old(self).panes().len() >= MAX_LEAVES {
                    WorkspaceLayoutError::TooManyLeaves
                } else {
                    WorkspaceLayoutError::PaneNotFound(target)
                } && (valid_ratio(ratio) && old(self).panes().len() < MAX_LEAVES ==> !old(self).panes().contains(target)),
            },
    {
        if ratio < MIN_RATIO || ratio > MAX_RATIO {
            return Err(WorkspaceLayoutError::InvalidRatio(ratio));
        }
        if self.leaf_count() >= MAX_LEAVES {
            return Err(WorkspaceLayoutError::TooManyLeaves);
        }
        if !node_contains(&self.root, target) {
            return Err(WorkspaceLayoutError::PaneNotFound(target));
        }
        let new_pane = PaneId(self.next_pane_id);
        let ghost old_panes = self.panes();
        let mut root = WorkspaceNode::Leaf { pane_id: PaneId(0), session_id: None };
        std::mem::swap(&mut root, &mut self.root);
        proof {
            lemma_split_leaves(root, target, new_pane, direction, ratio, session_id);
            law_split_places_requested_pair(root, target, new_pane, direction, ratio, session_id);
            law_split_adds_one_split(root, target, new_pane, direction, ratio, session_id);
        }
        self.root = split_node(root, target, new_pane, direction, ratio, session_id);
        self.next_pane_id = self.next_pane_id + 1;
        proof {
            crate::text::lemma_index_in(old_panes, target);
            let i = crate::text::index_in(old_panes, target).unwrap();
            let np = self.panes();
            assert(np == old_panes.insert(i + 1int, new_pane));
            assert forall|a: int, b: int| 0 <= a < np.len() && 0 <= b < np.len() && a != b implies np[a] != np[b] by {
                if a == i + 1 {
                    assert(np[b] == if b < i + 1 { old_panes[b] } else { old_panes[b - 1] });
                } else if b == i + 1 {
                    assert(np[a] == if a < i + 1 { old_panes[a] } else { old_panes[a - 1] });
                } else {
                    assert(np[a] == if a < i + 1 { old_panes[a] } else { old_panes[a - 1] });
                    assert(np[b] == if b < i + 1 { old_panes[b] } else { old_panes[b - 1] });
                }
            }
            assert forall|k: int| 0 <= k < np.len() implies (#[trigger] np[k]).0 < self.next_id() by {
                if k != i + 1 {
                    assert(np[k] == if k < i + 1 { old_panes[k] } else { old_panes[k - 1] });
                }
            }
        }
        Ok(new_pane)
    }

    /// Closes pane `target`; its sibling takes the place of their split.
    /// Fails with `CannotCloseLastLeaf` for a single pane and `PaneNotFound`
    /// for an unknown pane.
    pub fn close(&mut self, target: PaneId) -> (r: Result<(), WorkspaceLayoutError>)
        requires
            old(self).wf(),
        ensures
            final(self).wf(),
            match r {
                Ok(()) => old(self).panes().len() > 1 && old(self).panes().contains(target)
                    && final(self).tree() == spec_close(old(self).tree(), target) && final(self).next_id() == old(self).next_id() && final(self).panes() == remove_first(
                    old(self).panes(),
                    target,
                ),
                Err(e) => *final(self) == *old(self) && e == if old(self).panes().len() == 1 {
                    WorkspaceLayoutError::CannotCloseLastLeaf
                } else {
                    WorkspaceLayoutError::PaneNotFound(target)
                } && (old(self).panes().len() > 1 ==> !old(self).panes().contains(target)),
            },
    {
        if self.leaf_count() == 1 {
            return Err(WorkspaceLayoutError::CannotCloseLastLeaf);
        }
        if !node_contains(&self.root, target) {
            return Err(WorkspaceLayoutError::PaneNotFound(target));
        }
        let ghost old_panes = self.panes();
        let mut root = WorkspaceNode::Leaf { pane_id: PaneId(0), session_id: None };
        std::mem::swap(&mut root, &mut self.root);
        proof {
            lemma_close_leaves(root, target);
        }
        self.root = close_node(root, target);
        proof {
            crate::text::lemma_index_in(old_panes, target);
            let i = crate::text::index_in(old_panes, target).unwrap();
            let np = self.panes();
            assert(np == old_panes.remove(i as int));
            assert forall|a: int, b: int| 0 <= a < np.len() && 0 <= b < np.len() && a != b implies np[a] != np[b] by {
                assert(np[a] == if a < i { old_panes[a] } else { old_panes[a + 1] });
                assert(np[b] == if b < i { old_panes[b] } else { old_panes[b + 1] });
            }
            assert forall|k: int| 0 <= k < np.len() implies (#[trigger] np[k]).0 < self.next_id() by {
                assert(np[k] == if k < i { old_panes[k] } else { old_panes[k + 1] });
            }
        }
        Ok(())
    }

    /// Sets the ratio of the top-level split when `target` is one of the panes.
    /// Fails with `InvalidRatio` outside 100..=900 and `PaneNotFound` when the
    /// pane is unknown or the layout has no split.
    pub fn set_ratio(&mut self, target: PaneId, ratio: u16) -> (r: Result<(), WorkspaceLayoutError>)
        requires
            old(self).wf(),
        ensures
            final(self).wf(),
            final(self).panes() == old(self).panes(),
            final(self).next_id() == old(self).next_id(),
            match r {
                Ok(()) => valid_ratio(ratio) && old(self).panes().contains(target) && old(self).tree() is Split && final(self).tree() == with_ratio(old(self).tree(), ratio),
                Err(e) => *final(self) == *old(self) && e == if !valid_ratio(ratio) {
                    WorkspaceLayoutError::InvalidRatio(ratio)
                } else {
                    WorkspaceLayoutError::PaneNotFound(target)
                } && (valid_ratio(ratio) ==> !old(self).panes().contains(target) || old(self).tree() is Leaf),
            },
    {
        if ratio < MIN_RATIO || ratio > MAX_RATIO {
            return Err(WorkspaceLayoutError::InvalidRatio(ratio));
        }
        let found = node_contains(&self.root, target);
        match &mut self.root {
            WorkspaceNode::Split { ratio: r, .. } => {
                if found {
                    *r = ratio;
                    return Ok(());
                }
            },
            WorkspaceNode::Leaf { .. } => {},
        }
        Err(WorkspaceLayoutError::PaneNotFound(target))
    }
}

impl Default for WorkspaceLayout {
    fn default() -> (l: WorkspaceLayout)
        ensures
            l.wf(),
            l.panes() == seq![PaneId(1)],
            l.next_id() == 2,
    {
        WorkspaceLayout::new()
    }
}

/// Splitting a pane and closing the new pane gives back the pane order from before the split.
pub proof fn law_split_then_close_restores_panes(
    panes: Seq<PaneId>,
    target: PaneId,
    new_pane: PaneId,
)
    requires
        panes.contains(target),
        !panes.contains(new_pane),
    ensures
        remove_first(insert_after(panes, target, new_pane), new_pane) == panes,
{
    crate::text::lemma_index_in(panes, target);
    let i = crate::text::index_in(panes, target).unwrap();
    let ins = panes.insert(i + 1int, new_pane);
    crate::text::lemma_index_in(ins, new_pane);
    assert(ins[i + 1int] == new_pane);
    let j = crate::text::index_in(ins, new_pane).unwrap();
    if j < i + 1 {
        assert(ins[j as int] == panes[j as int]);
    }
    assert(ins.remove(i + 1int) =~= panes);
}

/// A split adds exactly one pane; a close removes exactly one.
pub proof fn law_pane_count_changes_by_one(panes: Seq<PaneId>, target: PaneId, new_pane: PaneId)
    requires
        panes.contains(target),
    ensures
        insert_after(panes, target, new_pane).len() == panes.len() + 1,
        remove_first(panes, target).len() == panes.len() - 1,
{
    crate::text::lemma_index_in(panes, target);
}

} // verus!
