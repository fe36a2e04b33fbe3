//! Topology determinism: a hand whose abstracted card/action sequence repeats
//! one already recorded arrives at the exact same node index sequence, and the
//! replay creates no new node.

use crate::model::{
    action_step, card_step, grow_target, grown, lemma_grown_wf, lemma_same_children_wf,
    terminal_step, tree_wf, NodeDataV, NodeModel, StepOut,
};
use vstd::prelude::*;

verus! {

/// One recorded event, abstracted to what the recorder keys on: a dealt card's
/// value, an action's edge-slot, or a completing hand's award.
pub enum AbsEv {
    Card { card: int },
    Act { slot: int },
    Term { award: int },
}

/// The recorder's handling of one abstract event from a cursor position.
pub open spec fn ev_step(t: Seq<NodeModel>, node: int, chosen: int, ev: AbsEv) -> StepOut {
    match ev {
        AbsEv::Card { card } => card_step(t, node, card),
        AbsEv::Act { slot } => action_step(t, node, chosen, slot),
        AbsEv::Term { award } => terminal_step(t, node, chosen, award),
    }
}

/// Tree, final cursor, the node index reached after each event, and each
/// event's acceptance, over a whole run.
pub struct RunOut {
    pub tree: Seq<NodeModel>,
    pub node: int,
    pub chosen: int,
    pub trace: Seq<int>,
    pub oks: Seq<bool>,
}

/// The recorder applied to a sequence of abstract events.
pub open spec fn run(t: Seq<NodeModel>, node: int, chosen: int, evs: Seq<AbsEv>) -> RunOut
    decreases evs.len(),
{
    if evs.len() == 0 {
        RunOut { tree: t, node, chosen, trace: Seq::empty(), oks: Seq::empty() }
    } else {
        let s = ev_step(t, node, chosen, evs[0]);
        let rest = run(s.tree, s.node, s.chosen, evs.skip(1));
        RunOut {
            tree: rest.tree,
            node: rest.node,
            chosen: rest.chosen,
            trace: seq![s.node] + rest.trace,
            oks: seq![s.ok] + rest.oks,
        }
    }
}

/// `u` carries every child binding `t` has, at the same index, and keeps every
/// node's kind; growth happens only beyond or beside what `t` bound.
pub open spec fn extends_to(t: Seq<NodeModel>, u: Seq<NodeModel>) -> bool {
    &&& t.len() <= u.len()
    &&& forall|i: int, s: int|
        0 <= i < t.len() && #[trigger] t[i].children.dom().contains(s)
            ==> u[i].children.dom().contains(s) && u[i].children[s] == t[i].children[s]
    &&& forall|i: int| 0 <= i < t.len() ==> #[trigger] u[i].data.same_kind(t[i].data)
}

/// `t` and `u` agree on everything the recorder keys on: length, child
/// bindings, and node kinds. Counters and utilities may differ.
pub open spec fn topo_matches(t: Seq<NodeModel>, u: Seq<NodeModel>) -> bool {
    &&& t.len() == u.len()
    &&& forall|i: int| 0 <= i < t.len() ==> #[trigger] t[i].children == u[i].children
    &&& forall|i: int| 0 <= i < t.len() ==> #[trigger] t[i].data.same_kind(u[i].data)
}

/// The cursor points inside a well-formed tree.
pub open spec fn st_ok(t: Seq<NodeModel>, node: int) -> bool {
    &&& tree_wf(t)
    &&& 0 <= node < t.len()
}

proof fn lemma_extends_refl(t: Seq<NodeModel>)
    ensures
        extends_to(t, t),
{
}

proof fn lemma_extends_trans(a: Seq<NodeModel>, b: Seq<NodeModel>, c: Seq<NodeModel>)
    requires
        extends_to(a, b),
        extends_to(b, c),
    ensures
        extends_to(a, c),
{
    assert forall|i: int, s: int|
        0 <= i < a.len() && #[trigger] a[i].children.dom().contains(s) implies c[
        i
    ].children.dom().contains(s) && c[i].children[s] == a[i].children[s] by {
        assert(b[i].children.dom().contains(s));
    }
    assert forall|i: int| 0 <= i < a.len() implies #[trigger] c[i].data.same_kind(a[i].data) by {
        assert(b[i].data.same_kind(a[i].data));
        assert(c[i].data.same_kind(b[i].data));
    }
}

proof fn lemma_grown_extends(t: Seq<NodeModel>, from: int, slot: int, data: NodeDataV)
    requires
        0 <= from < t.len(),
        t.len() <= usize::MAX,
    ensures
        extends_to(t, grown(t, from, slot, data)),
        t.len() <= grown(t, from, slot, data).len() <= t.len() + 1,
{
    let g = grown(t, from, slot, data);
    assert forall|i: int, s: int|
        0 <= i < t.len() && #[trigger] t[i].children.dom().contains(s) implies g[
        i
    ].children.dom().contains(s) && g[i].children[s] == t[i].children[s] by {
        if i == from && t[from].child_of(slot) is None {
            assert(s != slot);
        }
    }
}

/// One abstract event keeps the tree well-formed, keeps every earlier binding
/// and kind, and adds at most two nodes.
proof fn lemma_step_ok(t: Seq<NodeModel>, node: int, chosen: int, ev: AbsEv)
    requires
        st_ok(t, node),
        t.len() + 2 <= usize::MAX,
    ensures
        ({
            let s = ev_step(t, node, chosen, ev);
            &&& extends_to(t, s.tree)
            &&& st_ok(s.tree, s.node)
            &&& t.len() <= s.tree.len() <= t.len() + 2
        }),
{
    match ev {
        AbsEv::Card { card } => {
            let chance = grow_target(t, node, card);
            let t1 = grown(t, node, card, NodeDataV::Chance);
            lemma_grown_wf(t, node, card, NodeDataV::Chance);
            lemma_grown_extends(t, node, card, NodeDataV::Chance);
            lemma_grown_wf(t1, chance, card, NodeDataV::Player { has_matcher: true });
            lemma_grown_extends(t1, chance, card, NodeDataV::Player { has_matcher: true });
            let t2 = grown(t1, chance, card, NodeDataV::Player { has_matcher: true });
            lemma_extends_trans(t, t1, t2);
        },
        AbsEv::Act { slot } => {
            if t[node].data is Chance {
                lemma_extends_refl(t);
                match t[node].child_of(chosen) {
                    Some(child) => {
                        assert(t[node].children.dom().contains(chosen));
                    },
                    None => {},
                }
            } else {
                lemma_grown_wf(t, node, chosen, NodeDataV::Player { has_matcher: true });
                lemma_grown_extends(t, node, chosen, NodeDataV::Player { has_matcher: true });
            }
        },
        AbsEv::Term { award } => {
            let target = grow_target(t, node, chosen);
            let t1 = grown(t, node, chosen, NodeDataV::Terminal { total_utility: 0 });
            lemma_grown_wf(t, node, chosen, NodeDataV::Terminal { total_utility: 0 });
            lemma_grown_extends(t, node, chosen, NodeDataV::Terminal { total_utility: 0 });
            let s = ev_step(t, node, chosen, ev);
            assert(s.tree.len() == t1.len());
            assert(forall|i: int|
                0 <= i < t1.len() ==> #[trigger] s.tree[i].children == t1[i].children);
            assert forall|i: int| 0 <= i < t1.len() implies #[trigger] s.tree[i].data.same_kind(
                t1[i].data,
            ) by {}
            lemma_same_children_wf(t1, s.tree);
            assert(extends_to(t1, s.tree));
            lemma_extends_trans(t, t1, s.tree);
        },
    }
}

/// A run keeps the tree well-formed, keeps every earlier binding and kind,
/// adds at most two nodes per event, and reports one reached index and one
/// acceptance per event.
proof fn lemma_run_props(t: Seq<NodeModel>, node: int, chosen: int, evs: Seq<AbsEv>)
    requires
        st_ok(t, node),
        t.len() + 2 * evs.len() <= usize::MAX,
    ensures
        ({
            let r = run(t, node, chosen, evs);
            &&& extends_to(t, r.tree)
            &&& st_ok(r.tree, r.node)
            &&& t.len() <= r.tree.len() <= t.len() + 2 * evs.len()
            &&& r.trace.len() == evs.len()
            &&& r.oks.len() == evs.len()
        }),
    decreases evs.len(),
{
    if evs.len() == 0 {
        lemma_extends_refl(t);
    } else {
        lemma_step_ok(t, node, chosen, evs[0]);
        let s = ev_step(t, node, chosen, evs[0]);
        lemma_run_props(s.tree, s.node, s.chosen, evs.skip(1));
        lemma_extends_trans(t, s.tree, run(s.tree, s.node, s.chosen, evs.skip(1)).tree);
    }
}

/// Replaying one get-or-create step against a tree whose bindings match the
/// final tree of the original run settles on the original target and changes
/// no binding, kind or length.
proof fn lemma_replay_grow(
    ta: Seq<NodeModel>,
    tb: Seq<NodeModel>,
    tf: Seq<NodeModel>,
    f: int,
    s: int,
    d1: NodeDataV,
    d2: NodeDataV,
)
    requires
        0 <= f < ta.len(),
        ta.len() <= usize::MAX,
        extends_to(grown(ta, f, s, d1), tf),
        tb.len() == tf.len(),
        forall|i: int| 0 <= i < tb.len() ==> #[trigger] tb[i].children == tf[i].children,
    ensures
        ({
            let gb = grown(tb, f, s, d2);
            &&& grow_target(tb, f, s) == grow_target(ta, f, s)
            &&& gb.len() == tb.len()
            &&& forall|i: int| 0 <= i < tb.len() ==> #[trigger] gb[i].children == tb[i].children
            &&& forall|i: int| 0 <= i < tb.len() ==> #[trigger] gb[i].data == tb[i].data
        }),
{
    let ga = grown(ta, f, s, d1);
    assert(ga[f].children.dom().contains(s));
    assert(f < ga.len());
    assert(tf[f].children.dom().contains(s) && tf[f].children[s] == ga[f].children[s]);
    assert(f < tb.len());
    assert(tb[f].children == tf[f].children);
    assert(tb[f].child_of(s) is Some);
    if ta[f].child_of(s) is Some {
        assert(ga[f].children[s] == ta[f].children[s]);
    } else {
        assert(ga[f].children[s] == ta.len() as usize);
        assert(grow_target(ta, f, s) == ta.len() as int);
    }
}

/// The decision-node payload the recorder creates.
spec fn pl_data() -> NodeDataV {
    NodeDataV::Player { has_matcher: true }
}

/// Inductive core of topology determinism: replaying an all-accepted event
/// sequence against any tree whose bindings and kinds match the original run's
/// final tree revisits exactly the original node index sequence.
proof fn lemma_replay_rel(
    t1: Seq<NodeModel>,
    t2: Seq<NodeModel>,
    tf: Seq<NodeModel>,
    node: int,
    chosen: int,
    evs: Seq<AbsEv>,
)
    requires
        st_ok(t1, node),
        t1.len() + 2 * evs.len() <= usize::MAX,
        tf == run(t1, node, chosen, evs).tree,
        forall|k: int| 0 <= k < evs.len() ==> run(t1, node, chosen, evs).oks[k],
        tree_wf(t2),
        topo_matches(t2, tf),
    ensures
        ({
            let r1 = run(t1, node, chosen, evs);
            let r2 = run(t2, node, chosen, evs);
            &&& r2.trace == r1.trace
            &&& r2.oks == r1.oks
            &&& r2.node == r1.node
            &&& r2.chosen == r1.chosen
            &&& r2.tree.len() == t2.len()
            &&& tree_wf(r2.tree)
            &&& topo_matches(r2.tree, tf)
        }),
    decreases evs.len(),
{
    let r1 = run(t1, node, chosen, evs);
    let r2 = run(t2, node, chosen, evs);
    if evs.len() == 0 {
        assert(r2.trace =~= r1.trace);
        assert(r2.oks =~= r1.oks);
    } else {
        let s1 = ev_step(t1, node, chosen, evs[0]);
        let s2 = ev_step(t2, node, chosen, evs[0]);
        lemma_step_ok(t1, node, chosen, evs[0]);
        let rest1 = run(s1.tree, s1.node, s1.chosen, evs.skip(1));
        lemma_run_props(s1.tree, s1.node, s1.chosen, evs.skip(1));
        assert(tf == rest1.tree);
        assert(extends_to(s1.tree, tf));
        assert(r1.oks[0] == s1.ok);
        assert(s1.ok);
        assert(node < t2.len()) by {
            assert(t1.len() <= s1.tree.len() <= tf.len());
        }
        // The replayed step lands where the original did and disturbs nothing
        // the recorder keys on.
        match evs[0] {
            AbsEv::Card { card } => {
                let chance = grow_target(t1, node, card);
                let t1a = grown(t1, node, card, NodeDataV::Chance);
                let pl = NodeDataV::Player { has_matcher: true };
                lemma_grown_wf(t1, node, card, NodeDataV::Chance);
                lemma_grown_extends(t1a, chance, card, pl);
                lemma_extends_trans(t1a, s1.tree, tf);
                lemma_replay_grow(t1, t2, tf, node, card, NodeDataV::Chance, NodeDataV::Chance);
                let t2a = grown(t2, node, card, NodeDataV::Chance);
                lemma_replay_grow(t1a, t2a, tf, chance, card, pl, pl);
                let t2b = grown(t2a, chance, card, pl);
                assert(s2.tree == t2b);
                assert(s2.node == chance == s1.node);
                lemma_same_children_wf(t2, s2.tree);
                assert(topo_matches(s2.tree, tf));
            },
            AbsEv::Act { slot } => {
                assert(tf[node].data.same_kind(t1[node].data)) by {
                    lemma_extends_trans(t1, s1.tree, tf);
                }
                assert(t2[node].data.same_kind(tf[node].data));
                if t1[node].data is Chance {
                    let child = t1[node].child_of(chosen)->Some_0;
                    assert(t1[node].children.dom().contains(chosen));
                    assert(s1.tree == t1);
                    assert(extends_to(t1, tf));
                    assert(tf[node].children[chosen] == child);
                    assert(t2[node].children == tf[node].children);
                    assert(t2[node].child_of(chosen) == Some(child));
                    assert(s2.node == child as int == s1.node);
                    assert(s2.tree == t2);
                    assert(topo_matches(s2.tree, tf));
                } else {
                    lemma_extends_trans(t1, s1.tree, tf);
                    lemma_replay_grow(t1, t2, tf, node, chosen, pl_data(), pl_data());
                    assert(s2.node == grow_target(t2, node, chosen) == s1.node);
                    lemma_same_children_wf(t2, s2.tree);
                    assert(topo_matches(s2.tree, tf));
                }
            },
            AbsEv::Term { award } => {
                let target = grow_target(t1, node, chosen);
                let td = NodeDataV::Terminal { total_utility: 0 };
                let t1g = grown(t1, node, chosen, td);
                lemma_grown_wf(t1, node, chosen, td);
                assert(t1g[target].data is Terminal);
                assert(extends_to(t1g, s1.tree)) by {
                    assert(forall|i: int|
                        0 <= i < t1g.len() ==> #[trigger] s1.tree[i].children
                            == t1g[i].children);
                }
                lemma_extends_trans(t1g, s1.tree, tf);
                lemma_replay_grow(t1, t2, tf, node, chosen, td, td);
                let t2g = grown(t2, node, chosen, td);
                assert(s2.node == target == s1.node);
                // The replay finds a terminal of the same kind there.
                assert(target < t1g.len());
                assert(tf[target].data.same_kind(t1g[target].data));
                assert(t2[target].data.same_kind(tf[target].data)) by {
                    assert(target < t2.len());
                }
                assert(t2g[target].data is Terminal);
                assert(s2.ok);
                assert(s2.tree.len() == t2.len());
                assert(forall|i: int|
                    0 <= i < t2.len() ==> #[trigger] s2.tree[i].children == t2[i].children);
                lemma_same_children_wf(t2, s2.tree);
                assert forall|i: int| 0 <= i < t2.len() implies #[trigger] s2.tree[i].data.same_kind(
                    tf[i].data,
                ) by {
                    if i == target {
                        assert(s2.tree[i].data is Terminal);
                        assert(tf[i].data is Terminal);
                    } else {
                        assert(s2.tree[i].data == t2[i].data);
                    }
                }
                assert(topo_matches(s2.tree, tf));
            },
        }
        assert(s2.node == s1.node && s2.chosen == s1.chosen && s2.ok == s1.ok);
        assert(st_ok(s2.tree, s2.node)) by {
            assert(s1.node < s1.tree.len() <= tf.len() == s2.tree.len());
        }
        assert(forall|k: int| 0 <= k < evs.skip(1).len() ==> rest1.oks[k]) by {
            assert(forall|k: int|
                0 <= k < evs.skip(1).len() ==> rest1.oks[k] == r1.oks[k + 1]);
        }
        lemma_replay_rel(s1.tree, s2.tree, tf, s1.node, s1.chosen, evs.skip(1));
        let rest2 = run(s2.tree, s2.node, s2.chosen, evs.skip(1));
        assert(r2.trace =~= r1.trace);
        assert(r2.oks =~= r1.oks);
    }
}

/// Topology determinism: replaying an abstracted card/action/completion
/// sequence whose first recording was accepted throughout, from the same
/// cursor position on the tree that recording left, arrives at the exact same
/// node index sequence and the same final cursor, creates no node, and is
/// again accepted throughout. Equivalent paths never split into duplicate
/// subtrees.
pub proof fn lemma_topology_determinism(
    t: Seq<NodeModel>,
    node: int,
    chosen: int,
    evs: Seq<AbsEv>,
)
    requires
        tree_wf(t),
        0 <= node < t.len(),
        t.len() + 2 * evs.len() <= usize::MAX,
        forall|k: int| 0 <= k < evs.len() ==> run(t, node, chosen, evs).oks[k],
    ensures
        ({
            let r1 = run(t, node, chosen, evs);
            let r2 = run(r1.tree, node, chosen, evs);
            &&& r2.trace == r1.trace
            &&& r2.oks == r1.oks
            &&& r2.node == r1.node
            &&& r2.chosen == r1.chosen
            &&& r2.tree.len() == r1.tree.len()
        }),
{
    lemma_run_props(t, node, chosen, evs);
    let r1 = run(t, node, chosen, evs);
    assert(topo_matches(r1.tree, r1.tree));
    lemma_replay_rel(t, r1.tree, r1.tree, node, chosen, evs);
}

} // verus!
