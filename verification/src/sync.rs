//! The sentence-UI synchronizer: renders a phrase tree into a tree of dock
//! widgets, reusing existing nodes of the matching role where they stand
//! (by role identity, not phrase identity) and removing whatever this pass
//! did not touch, so that an unchanged sentence causes no widget churn.
//!
//! The synchronizer works on a value model of the widget tree and returns
//! the nodes to remove as a separate list, so a host that defers its
//! commands can commit the same frame's spawns first and prune afterwards:
//! build, then prune, never the reverse.

use vstd::prelude::*;

use crate::arena::{contains_id, PhraseData, PhraseID, PhraseKind, PhraseMap};
use crate::entity::Entity;
use crate::structure::{wf_adjective_at, SentenceStructure};
use crate::ui::SentenceUIPart;

verus! {

broadcast use crate::arena::lemma_phrase_id_nonneg, crate::arena::lemma_phrase_id_injective;

/// One node of the dock-widget tree that mirrors a sentence: its entity,
/// its role, the phrase slot it stands for, and its structural children.
/// Word tokens docked inside a slot are not part of this tree.
#[derive(PartialEq, Eq, Debug)]
#[verifier::ext_equal]
pub struct DockNode {
    pub entity: Entity,
    pub part: SentenceUIPart,
    pub for_phrase: PhraseID,
    pub children: Vec<DockNode>,
}

/// Whether two dock trees are the same rendering: same entity, role and
/// phrase at every node, with the same children in the same order.
pub open spec fn spec_node_eq(a: DockNode, b: DockNode) -> bool
    decreases a,
{
    &&& a.entity == b.entity
    &&& a.part == b.part
    &&& a.for_phrase == b.for_phrase
    &&& a.children@.len() == b.children@.len()
    &&& forall|i: int|
        0 <= i < a.children@.len() ==> spec_node_eq(#[trigger] a.children@[i], b.children@[i])
}

/// Hands out fresh entity handles for newly spawned dock nodes.  The host
/// guarantees the handle space is never exhausted; at its very top the
/// allocator stays put rather than wrapping around.
#[derive(Copy, Clone, PartialEq, Eq, Structural, Debug)]
pub struct EntityAllocator {
    pub next: Entity,
}

impl EntityAllocator {
    /// A fresh handle, distinct from every handle this allocator gave out
    /// before.
    pub fn fresh(&mut self) -> (r: Entity)
        ensures
            r == old(self).next,
            final(self).next == (if old(self).next < u64::MAX {
                old(self).next + 1
            } else {
                u64::MAX as int
            }),
    {
        let r = self.next;
        if self.next < u64::MAX {
            self.next = self.next + 1;
        }
        r
    }
}

/// Every entity of a dock tree, in preorder.
pub open spec fn spec_node_entities(n: DockNode) -> Seq<Entity>
    decreases n,
{
    seq![n.entity] + spec_forest_entities(n.children@)
}

/// Every entity of a row of dock trees, in preorder.
pub open spec fn spec_forest_entities(s: Seq<DockNode>) -> Seq<Entity>
    decreases s,
{
    if s.len() == 0 {
        Seq::<Entity>::empty()
    } else {
        spec_node_entities(s[0]) + spec_forest_entities(s.subrange(1, s.len() as int))
    }
}

/// Appending a tree at the end appends its entities at the end.
proof fn lemma_forest_entities_push(s: Seq<DockNode>, x: DockNode)
    ensures
        spec_forest_entities(s.push(x)) == spec_forest_entities(s) + spec_node_entities(x),
    decreases s.len(),
{
    if s.len() == 0 {
        assert(s.push(x)[0] == x);
        assert(s.push(x).subrange(1, 1) =~= Seq::<DockNode>::empty());
        assert(spec_forest_entities(s) == Seq::<Entity>::empty());
        assert(spec_forest_entities(s.push(x).subrange(1, 1)) == Seq::<Entity>::empty());
        assert(spec_forest_entities(s.push(x)) == spec_node_entities(s.push(x)[0])
            + spec_forest_entities(s.push(x).subrange(1, 1)));
        assert(spec_forest_entities(s.push(x)) =~= spec_forest_entities(s) + spec_node_entities(
            x,
        ));
    } else {
        assert(s.push(x)[0] == s[0]);
        assert(s.push(x).subrange(1, s.push(x).len() as int) =~= s.subrange(
            1,
            s.len() as int,
        ).push(x));
        lemma_forest_entities_push(s.subrange(1, s.len() as int), x);
        assert(spec_forest_entities(s.push(x)) =~= spec_forest_entities(s) + spec_node_entities(
            x,
        ));
    }
}

/// A row of one tree holds exactly that tree's entities.
proof fn lemma_forest_entities_singleton(a: DockNode)
    ensures
        spec_forest_entities(seq![a]) == spec_node_entities(a),
{
    assert(seq![a][0] == a);
    assert(seq![a].subrange(1, 1) =~= Seq::<DockNode>::empty());
    assert(spec_forest_entities(seq![a].subrange(1, 1)) == Seq::<Entity>::empty());
    assert(spec_forest_entities(seq![a]) =~= spec_node_entities(a));
}

/// A row of two trees holds their entities in order.
proof fn lemma_forest_entities_pair(a: DockNode, b: DockNode)
    ensures
        spec_forest_entities(seq![a, b]) == spec_node_entities(a) + spec_node_entities(b),
{
    lemma_forest_entities_singleton(b);
    assert(seq![a, b][0] == a);
    assert(seq![a, b].subrange(1, 2) =~= seq![b]);
    assert(spec_forest_entities(seq![a, b]) =~= spec_node_entities(a) + spec_node_entities(b));
}

/// A row of three trees holds their entities in order.
proof fn lemma_forest_entities_triple(a: DockNode, b: DockNode, c: DockNode)
    ensures
        spec_forest_entities(seq![a, b, c]) == spec_node_entities(a) + spec_node_entities(b)
            + spec_node_entities(c),
{
    lemma_forest_entities_pair(b, c);
    assert(seq![a, b, c][0] == a);
    assert(seq![a, b, c].subrange(1, 3) =~= seq![b, c]);
    assert(spec_forest_entities(seq![a, b, c]) =~= spec_node_entities(a) + spec_node_entities(b)
        + spec_node_entities(c));
}

/// Pushes every entity of one removed dock tree onto the despawn list.
fn despawn_node(node: &DockNode, despawned: &mut Vec<Entity>)
    ensures
        final(despawned)@ == old(despawned)@ + spec_node_entities(*node),
    decreases *node,
{
    despawned.push(node.entity);
    let ghost base = despawned@;
    let n = node.children.len();
    let mut i: usize = 0;
    proof {
        assert(node.children@.subrange(0, 0) =~= Seq::<DockNode>::empty());
    }
    while i < n
        invariant
            i <= n,
            n == node.children@.len(),
            despawned@ == base + spec_forest_entities(node.children@.subrange(0, i as int)),
        decreases n - i,
    {
        proof {
            assert(node.children@.subrange(0, i as int + 1).drop_last() =~= node.children@.subrange(
                0,
                i as int,
            ));
        }
        let ghost pre = despawned@;
        despawn_node(&node.children[i], despawned);
        proof {
            lemma_forest_entities_push(node.children@.subrange(0, i as int), node.children@[i as int]);
            assert(node.children@.subrange(0, i as int).push(node.children@[i as int])
                =~= node.children@.subrange(0, i as int + 1));
            assert(despawned@ =~= base + spec_forest_entities(
                node.children@.subrange(0, i as int + 1),
            ));
        }
        i = i + 1;
    }
    proof {
        assert(node.children@.subrange(0, n as int) =~= node.children@);
        assert(despawned@ =~= old(despawned)@ + spec_node_entities(*node));
    }
}

/// Pushes every entity of a row of removed dock trees onto the despawn
/// list.
fn despawn_forest(nodes: Vec<DockNode>, despawned: &mut Vec<Entity>)
    ensures
        final(despawned)@ == old(despawned)@ + spec_forest_entities(nodes@),
{
    let n = nodes.len();
    let mut i: usize = 0;
    proof {
        assert(nodes@.subrange(0, 0) =~= Seq::<DockNode>::empty());
    }
    while i < n
        invariant
            i <= n,
            n == nodes@.len(),
            despawned@ == old(despawned)@ + spec_forest_entities(nodes@.subrange(0, i as int)),
        decreases n - i,
    {
        despawn_node(&nodes[i], despawned);
        proof {
            lemma_forest_entities_push(nodes@.subrange(0, i as int), nodes@[i as int]);
            assert(nodes@.subrange(0, i as int).push(nodes@[i as int]) =~= nodes@.subrange(
                0,
                i as int + 1,
            ));
            assert(despawned@ =~= old(despawned)@ + spec_forest_entities(
                nodes@.subrange(0, i as int + 1),
            ));
        }
        i = i + 1;
    }
    proof {
        assert(nodes@.subrange(0, n as int) =~= nodes@);
    }
}

/// The dock role that renders the phrase at slot `i`.
pub open spec fn spec_part_of(s: Seq<PhraseData>, i: int) -> SentenceUIPart {
    if 0 <= i < s.len() {
        match s[i].kind {
            PhraseKind::Adjective => SentenceUIPart::AdjectiveSlot,
            PhraseKind::Combine { .. } => SentenceUIPart::CombineJoint,
            PhraseKind::Noun { .. } => SentenceUIPart::NounJoint,
        }
    } else {
        SentenceUIPart::AdjectiveSlot
    }
}

/// The dock role that renders the phrase `id`.
fn part_of(map: &PhraseMap, id: PhraseID) -> (r: SentenceUIPart)
    requires
        contains_id(map@, id),
    ensures
        r == spec_part_of(map@, id.idx()),
{
    match map.get(id).kind {
        PhraseKind::Adjective => SentenceUIPart::AdjectiveSlot,
        PhraseKind::Combine { .. } => SentenceUIPart::CombineJoint,
        PhraseKind::Noun { .. } => SentenceUIPart::NounJoint,
    }
}

/// Whether a dock tree renders the adjective-position phrase at slot `i`:
/// an adjective leaf renders as one childless `AdjectiveSlot`; a
/// conjunction renders as a `CombineJoint` over exactly a `CombineJointL`
/// wrapper around the left side, an `AndSlot` dock for the conjunction
/// word, and a `CombineJointR` wrapper around the right side.
pub open spec fn spec_mirrors_adjective(node: DockNode, s: Seq<PhraseData>, i: int) -> bool
    decreases i,
{
    if 0 <= i < s.len() {
        match s[i].kind {
            PhraseKind::Adjective => node.part == SentenceUIPart::AdjectiveSlot
                && node.for_phrase.idx() == i && node.children@.len() == 0,
            PhraseKind::Combine { l, r } => {
                &&& node.part == SentenceUIPart::CombineJoint
                &&& node.for_phrase.idx() == i
                &&& l.idx() < i
                &&& r.idx() < i
                &&& node.children@.len() == 3
                &&& node.children@[0].part == SentenceUIPart::CombineJointL
                &&& node.children@[0].for_phrase.idx() == l.idx()
                &&& node.children@[0].children@.len() == 1
                &&& spec_mirrors_adjective(node.children@[0].children@[0], s, l.idx())
                &&& node.children@[1].part == SentenceUIPart::AndSlot
                &&& node.children@[1].for_phrase.idx() == i
                &&& node.children@[1].children@.len() == 0
                &&& node.children@[2].part == SentenceUIPart::CombineJointR
                &&& node.children@[2].for_phrase.idx() == r.idx()
                &&& node.children@[2].children@.len() == 1
                &&& spec_mirrors_adjective(node.children@[2].children@[0], s, r.idx())
            },
            PhraseKind::Noun { .. } => false,
        }
    } else {
        false
    }
}

/// Whether a dock tree renders the whole sentence rooted at slot `i`: a
/// noun phrase renders as a `NounJoint` over the adjective rendering and a
/// childless `NounSlot` dock; the empty placeholder of a failed parse
/// renders as a bare adjective slot.
pub open spec fn spec_mirrors_root(node: DockNode, s: Seq<PhraseData>, i: int) -> bool {
    if 0 <= i < s.len() {
        match s[i].kind {
            PhraseKind::Noun { adjective } => {
                &&& node.part == SentenceUIPart::NounJoint
                &&& node.for_phrase.idx() == i
                &&& adjective.idx() < i
                &&& node.children@.len() == 2
                &&& spec_mirrors_adjective(node.children@[0], s, adjective.idx())
                &&& node.children@[1].part == SentenceUIPart::NounSlot
                &&& node.children@[1].for_phrase.idx() == i
                &&& node.children@[1].children@.len() == 0
            },
            PhraseKind::Adjective => spec_mirrors_adjective(node, s, i),
            PhraseKind::Combine { .. } => false,
        }
    } else {
        false
    }
}

/// Reuses or spawns the wrapper joint with the given role around one side
/// of a conjunction, and renders that side inside it.
fn sync_combine_side(
    map: &PhraseMap,
    side: PhraseID,
    role: SentenceUIPart,
    wrapper: Option<DockNode>,
    alloc: &mut EntityAllocator,
    spawned: &mut Vec<Entity>,
    despawned: &mut Vec<Entity>,
) -> (node: DockNode)
    requires
        wf_adjective_at(map@, side.idx()),
    ensures
        node.part == role,
        node.for_phrase == side,
        node.children@.len() == 1,
        spec_mirrors_adjective(node.children@[0], map@, side.idx()),
        match wrapper {
            Some(w) => (w.part == role && w.for_phrase.idx() == side.idx() && w.children@.len()
                == 1 && spec_mirrors_adjective(w.children@[0], map@, side.idx())) ==> spec_node_eq(
                node,
                w,
            ) && final(spawned)@ == old(spawned)@ && final(despawned)@ == old(despawned)@
                && final(alloc).next == old(alloc).next,
            None => final(spawned)@ == old(spawned)@ + spec_node_entities(node) && final(despawned)@ == old(despawned)@,
        },
    decreases side.idx(), 1int,
{
    let ghost w0 = wrapper;
    let (wrapper_entity, mut inner_children) = match wrapper {
        Some(w) => {
            if w.part == role {
                let DockNode { entity, part: _, for_phrase: _, children } = w;
                (entity, children)
            } else {
                despawn_node(&w, despawned);
                let e = alloc.fresh();
                spawned.push(e);
                (e, Vec::new())
            }
        },
        None => {
            let e = alloc.fresh();
            spawned.push(e);
            (e, Vec::new())
        },
    };
    let ghost reuse_ok = w0 is Some && w0.unwrap().part == role && w0.unwrap().for_phrase.idx()
        == side.idx() && w0.unwrap().children@.len() == 1 && spec_mirrors_adjective(
        w0.unwrap().children@[0],
        map@,
        side.idx(),
    );
    let expected = part_of(map, side);
    let ghost pre_take = inner_children@;
    let inner_existing = take_child(&mut inner_children, expected);
    proof {
        if reuse_ok {
            let w = w0.unwrap();
            assert(pre_take == w.children@);
            assert(pre_take[0].part == expected);
            assert(inner_existing is Some);
            let j = choose|j: int|
                #![auto]
                0 <= j < pre_take.len() && pre_take[j].part == expected && (forall|k: int|
                    0 <= k < j ==> pre_take[k].part != expected) && inner_existing == Some(
                    pre_take[j],
                ) && inner_children@ == pre_take.remove(j);
            assert(j == 0);
            assert(inner_existing == Some(w.children@[0]));
            assert(inner_children@ =~= Seq::<DockNode>::empty());
        }
    }
    let ghost desp_mid = despawned@;
    despawn_forest(inner_children, despawned);
    proof {
        if reuse_ok {
            assert(despawned@ =~= desp_mid);
        }
    }
    let inner = sync_adjective_dock(map, side, inner_existing, alloc, spawned, despawned);
    let mut kids: Vec<DockNode> = Vec::new();
    kids.push(inner);
    let node = DockNode { entity: wrapper_entity, part: role, for_phrase: side, children: kids };
    proof {
        assert(node.children@ =~= seq![inner]);
        if w0 is None {
            lemma_forest_entities_singleton(inner);
            assert(spec_node_entities(node) =~= seq![node.entity] + spec_node_entities(inner));
            assert(spawned@ =~= old(spawned)@ + spec_node_entities(node));
        }
        if reuse_ok {
            let w = w0.unwrap();
            assert(spec_node_eq(inner, w.children@[0]));
            crate::arena::lemma_phrase_id_injective(side, w.for_phrase);
            assert(node.children@[0] == inner);
            assert forall|i: int| 0 <= i < node.children@.len() implies spec_node_eq(
                #[trigger] node.children@[i],
                w.children@[i],
            ) by {
                assert(i == 0);
            }
            assert(spec_node_eq(node, w));
        }
    }
    node
}

/// Renders the adjective-position phrase at `id` into a dock tree, reusing
/// the given existing node where its roles already match: a node of the
/// right role keeps its entity, anything this pass does not touch goes on
/// the despawn list, and fresh nodes take entities from the allocator.
/// Re-rendering an unchanged phrase over its own previous rendering
/// returns that rendering unchanged and spawns and despawns nothing.
pub fn sync_adjective_dock(
    map: &PhraseMap,
    id: PhraseID,
    existing: Option<DockNode>,
    alloc: &mut EntityAllocator,
    spawned: &mut Vec<Entity>,
    despawned: &mut Vec<Entity>,
) -> (node: DockNode)
    requires
        wf_adjective_at(map@, id.idx()),
    ensures
        spec_mirrors_adjective(node, map@, id.idx()),
        match existing {
            Some(n) => spec_mirrors_adjective(n, map@, id.idx()) ==> spec_node_eq(node, n)
                && final(spawned)@ == old(spawned)@ && final(despawned)@ == old(despawned)@
                && final(alloc).next == old(alloc).next,
            None => final(spawned)@ == old(spawned)@ + spec_node_entities(node) && final(despawned)@ == old(despawned)@,
        },
    decreases id.idx(), 0int,
{
    let data = *map.get(id);
    match data.kind {
        PhraseKind::Adjective => {
            match existing {
                Some(n) => {
                    if n.part == SentenceUIPart::AdjectiveSlot {
                        let ghost n0 = n;
                        let DockNode { entity, part: _, for_phrase: _, children } = n;
                        despawn_forest(children, despawned);
                        let node = DockNode {
                            entity,
                            part: SentenceUIPart::AdjectiveSlot,
                            for_phrase: id,
                            children: Vec::new(),
                        };
                        proof {
                            if spec_mirrors_adjective(n0, map@, id.idx()) {
                                assert(spec_forest_entities(n0.children@) =~= Seq::<
                                    Entity,
                                >::empty());
                                crate::arena::lemma_phrase_id_injective(id, n0.for_phrase);
                                assert(spec_node_eq(node, n0));
                            }
                        }
                        node
                    } else {
                        despawn_node(&n, despawned);
                        let e = alloc.fresh();
                        spawned.push(e);
                        DockNode {
                            entity: e,
                            part: SentenceUIPart::AdjectiveSlot,
                            for_phrase: id,
                            children: Vec::new(),
                        }
                    }
                },
                None => {
                    let e = alloc.fresh();
                    spawned.push(e);
                    let node = DockNode {
                        entity: e,
                        part: SentenceUIPart::AdjectiveSlot,
                        for_phrase: id,
                        children: Vec::new(),
                    };
                    proof {
                        assert(spec_node_entities(node) =~= seq![node.entity]);
                    }
                    node
                },
            }
        },
        PhraseKind::Combine { l, r } => {
            let ghost n0 = existing;
            let (joint_entity, mut old_children) = match existing {
                Some(n) => {
                    if n.part == SentenceUIPart::CombineJoint {
                        let DockNode { entity, part: _, for_phrase: _, children } = n;
                        (entity, children)
                    } else {
                        despawn_node(&n, despawned);
                        let e = alloc.fresh();
                        spawned.push(e);
                        (e, Vec::new())
                    }
                },
                None => {
                    let e = alloc.fresh();
                    spawned.push(e);
                    (e, Vec::new())
                },
            };
            let ghost reuse_ok = n0 is Some && spec_mirrors_adjective(n0.unwrap(), map@, id.idx());
            let ghost oc0 = old_children@;
            let jl_opt = take_child(&mut old_children, SentenceUIPart::CombineJointL);
            proof {
                if reuse_ok {
                    let n = n0.unwrap();
                    assert(oc0 == n.children@);
                    assert(jl_opt is Some);
                    let j = choose|j: int|
                        #![auto]
                        0 <= j < oc0.len() && oc0[j].part == SentenceUIPart::CombineJointL && (
                        forall|k: int|
                            0 <= k < j ==> oc0[k].part != SentenceUIPart::CombineJointL) && jl_opt
                            == Some(oc0[j]) && old_children@ == oc0.remove(j);
                    assert(j == 0);
                    assert(jl_opt == Some(n.children@[0]));
                    assert(old_children@ =~= seq![n.children@[1], n.children@[2]]);
                }
            }
            let ghost oc1 = old_children@;
            let and_opt = take_child(&mut old_children, SentenceUIPart::AndSlot);
            proof {
                if reuse_ok {
                    let n = n0.unwrap();
                    assert(oc1[0] == n.children@[1]);
                    assert(and_opt is Some);
                    let j = choose|j: int|
                        #![auto]
                        0 <= j < oc1.len() && oc1[j].part == SentenceUIPart::AndSlot && (forall|
                            k: int,
                        |
                            0 <= k < j ==> oc1[k].part != SentenceUIPart::AndSlot) && and_opt
                            == Some(oc1[j]) && old_children@ == oc1.remove(j);
                    assert(j == 0);
                    assert(and_opt == Some(n.children@[1]));
                    assert(old_children@ =~= seq![n.children@[2]]);
                }
            }
            let ghost oc2 = old_children@;
            let jr_opt = take_child(&mut old_children, SentenceUIPart::CombineJointR);
            proof {
                if reuse_ok {
                    let n = n0.unwrap();
                    assert(oc2[0] == n.children@[2]);
                    assert(jr_opt is Some);
                    let j = choose|j: int|
                        #![auto]
                        0 <= j < oc2.len() && oc2[j].part == SentenceUIPart::CombineJointR && (
                        forall|k: int|
                            0 <= k < j ==> oc2[k].part != SentenceUIPart::CombineJointR) && jr_opt
                            == Some(oc2[j]) && old_children@ == oc2.remove(j);
                    assert(j == 0);
                    assert(jr_opt == Some(n.children@[2]));
                    assert(old_children@ =~= Seq::<DockNode>::empty());
                }
            }
            let ghost desp0 = despawned@;
            despawn_forest(old_children, despawned);
            proof {
                if reuse_ok {
                    assert(despawned@ =~= desp0);
                }
            }
            let left = sync_combine_side(
                map,
                l,
                SentenceUIPart::CombineJointL,
                jl_opt,
                alloc,
                spawned,
                despawned,
            );
            proof {
                if reuse_ok {
                    let n = n0.unwrap();
                    assert(spec_node_eq(left, n.children@[0]));
                }
            }
            let ghost desp1 = despawned@;
            let and_entity = match and_opt {
                Some(d) => {
                    let DockNode { entity, part: _, for_phrase: _, children } = d;
                    despawn_forest(children, despawned);
                    entity
                },
                None => {
                    let e = alloc.fresh();
                    spawned.push(e);
                    e
                },
            };
            proof {
                if reuse_ok {
                    let n = n0.unwrap();
                    assert(and_entity == n.children@[1].entity);
                    assert(despawned@ =~= desp1);
                }
            }
            let right = sync_combine_side(
                map,
                r,
                SentenceUIPart::CombineJointR,
                jr_opt,
                alloc,
                spawned,
                despawned,
            );
            let and_node = DockNode {
                entity: and_entity,
                part: SentenceUIPart::AndSlot,
                for_phrase: id,
                children: Vec::new(),
            };
            let mut kids: Vec<DockNode> = Vec::new();
            kids.push(left);
            kids.push(and_node);
            kids.push(right);
            let node = DockNode {
                entity: joint_entity,
                part: SentenceUIPart::CombineJoint,
                for_phrase: id,
                children: kids,
            };
            proof {
                assert(node.children@ =~= seq![left, and_node, right]);
                if reuse_ok {
                    let n = n0.unwrap();
                    assert(spec_node_eq(right, n.children@[2]));
                    crate::arena::lemma_phrase_id_injective(id, n.children@[1].for_phrase);
                    assert(spec_node_eq(and_node, n.children@[1]));
                    crate::arena::lemma_phrase_id_injective(id, n.for_phrase);
                    assert(node.children@[0] == left && node.children@[1] == and_node
                        && node.children@[2] == right);
                    assert forall|i: int| 0 <= i < node.children@.len() implies spec_node_eq(
                        #[trigger] node.children@[i],
                        n.children@[i],
                    ) by {
                        assert(i == 0 || i == 1 || i == 2);
                    }
                    assert(spec_node_eq(node, n));
                }
                if n0 is None {
                    lemma_forest_entities_triple(left, and_node, right);
                    assert(spec_node_entities(and_node) =~= seq![and_entity]);
                    assert(spec_node_entities(node) =~= seq![joint_entity] + (spec_node_entities(
                        left,
                    ) + spec_node_entities(and_node) + spec_node_entities(right)));
                    assert(spawned@ =~= old(spawned)@ + spec_node_entities(node));
                }
            }
            node
        },
        PhraseKind::Noun { .. } => {
            proof {
                assert(false);
            }
            DockNode {
                entity: 0,
                part: SentenceUIPart::AdjectiveSlot,
                for_phrase: id,
                children: Vec::new(),
            }
        },
    }
}

/// Renders a whole sentence into its dock-widget tree, reusing what stands
/// and removing what this pass does not touch.  Re-synchronizing an
/// unchanged sentence over its own previous rendering returns that
/// rendering identically and spawns and despawns nothing: full reuse.
pub fn spawn_snap_for(
    sentence: &SentenceStructure,
    existing: Option<DockNode>,
    alloc: &mut EntityAllocator,
    spawned: &mut Vec<Entity>,
    despawned: &mut Vec<Entity>,
) -> (node: DockNode)
    requires
        sentence.wf(),
    ensures
        spec_mirrors_root(node, sentence.sentence@, sentence.root.idx()),
        match existing {
            Some(n) => spec_mirrors_root(n, sentence.sentence@, sentence.root.idx())
                ==> spec_node_eq(node, n) && final(spawned)@ == old(spawned)@ && final(despawned)@
                == old(despawned)@ && final(alloc).next == old(alloc).next,
            None => final(spawned)@ == old(spawned)@ + spec_node_entities(node) && final(despawned)@ == old(despawned)@,
        },
{
    let map = &sentence.sentence;
    let id = sentence.root;
    let data = *map.get(id);
    match data.kind {
        PhraseKind::Adjective => sync_adjective_dock(map, id, existing, alloc, spawned, despawned),
        PhraseKind::Noun { adjective } => {
            let ghost n0 = existing;
            let (joint_entity, mut old_children) = match existing {
                Some(n) => {
                    if n.part == SentenceUIPart::NounJoint {
                        let DockNode { entity, part: _, for_phrase: _, children } = n;
                        (entity, children)
                    } else {
                        despawn_node(&n, despawned);
                        let e = alloc.fresh();
                        spawned.push(e);
                        (e, Vec::new())
                    }
                },
                None => {
                    let e = alloc.fresh();
                    spawned.push(e);
                    (e, Vec::new())
                },
            };
            let ghost reuse_ok = n0 is Some && spec_mirrors_root(
                n0.unwrap(),
                sentence.sentence@,
                id.idx(),
            );
            let expected = part_of(map, adjective);
            let ghost oc0 = old_children@;
            let adj_opt = take_child(&mut old_children, expected);
            proof {
                if reuse_ok {
                    let n = n0.unwrap();
                    assert(oc0 == n.children@);
                    assert(oc0[0].part == expected);
                    assert(adj_opt is Some);
                    let j = choose|j: int|
                        #![auto]
                        0 <= j < oc0.len() && oc0[j].part == expected && (forall|k: int|
                            0 <= k < j ==> oc0[k].part != expected) && adj_opt == Some(oc0[j])
                            && old_children@ == oc0.remove(j);
                    assert(j == 0);
                    assert(adj_opt == Some(n.children@[0]));
                    assert(old_children@ =~= seq![n.children@[1]]);
                }
            }
            let ghost oc1 = old_children@;
            let slot_opt = take_child(&mut old_children, SentenceUIPart::NounSlot);
            proof {
                if reuse_ok {
                    let n = n0.unwrap();
                    assert(oc1[0] == n.children@[1]);
                    assert(slot_opt is Some);
                    let j = choose|j: int|
                        #![auto]
                        0 <= j < oc1.len() && oc1[j].part == SentenceUIPart::NounSlot && (forall|
                            k: int,
                        |
                            0 <= k < j ==> oc1[k].part != SentenceUIPart::NounSlot) && slot_opt
                            == Some(oc1[j]) && old_children@ == oc1.remove(j);
                    assert(j == 0);
                    assert(slot_opt == Some(n.children@[1]));
                    assert(old_children@ =~= Seq::<DockNode>::empty());
                }
            }
            let ghost desp0 = despawned@;
            despawn_forest(old_children, despawned);
            proof {
                if reuse_ok {
                    assert(despawned@ =~= desp0);
                }
            }
            let adj_node = sync_adjective_dock(map, adjective, adj_opt, alloc, spawned, despawned);
            proof {
                if reuse_ok {
                    let n = n0.unwrap();
                    assert(spec_node_eq(adj_node, n.children@[0]));
                }
            }
            let ghost desp1 = despawned@;
            let slot_entity = match slot_opt {
                Some(d) => {
                    let DockNode { entity, part: _, for_phrase: _, children } = d;
                    despawn_forest(children, despawned);
                    entity
                },
                None => {
                    let e = alloc.fresh();
                    spawned.push(e);
                    e
                },
            };
            proof {
                if reuse_ok {
                    let n = n0.unwrap();
                    assert(slot_entity == n.children@[1].entity);
                    assert(despawned@ =~= desp1);
                }
            }
            let slot_node = DockNode {
                entity: slot_entity,
                part: SentenceUIPart::NounSlot,
                for_phrase: id,
                children: Vec::new(),
            };
            let mut kids: Vec<DockNode> = Vec::new();
            kids.push(adj_node);
            kids.push(slot_node);
            let node = DockNode {
                entity: joint_entity,
                part: SentenceUIPart::NounJoint,
                for_phrase: id,
                children: kids,
            };
            proof {
                assert(node.children@ =~= seq![adj_node, slot_node]);
                if reuse_ok {
                    let n = n0.unwrap();
                    crate::arena::lemma_phrase_id_injective(id, n.children@[1].for_phrase);
                    assert(spec_node_eq(slot_node, n.children@[1]));
                    crate::arena::lemma_phrase_id_injective(id, n.for_phrase);
                    assert(node.children@[0] == adj_node && node.children@[1] == slot_node);
                    assert forall|i: int| 0 <= i < node.children@.len() implies spec_node_eq(
                        #[trigger] node.children@[i],
                        n.children@[i],
                    ) by {
                        assert(i == 0 || i == 1);
                    }
                    assert(spec_node_eq(node, n));
                }
                if n0 is None {
                    lemma_forest_entities_pair(adj_node, slot_node);
                    assert(spec_node_entities(slot_node) =~= seq![slot_entity]);
                    assert(spec_node_entities(node) =~= seq![joint_entity] + (spec_node_entities(
                        adj_node,
                    ) + spec_node_entities(slot_node)));
                    assert(spawned@ =~= old(spawned)@ + spec_node_entities(node));
                }
            }
            node
        },
        PhraseKind::Combine { .. } => {
            proof {
                assert(false);
            }
            DockNode {
                entity: 0,
                part: SentenceUIPart::AdjectiveSlot,
                for_phrase: id,
                children: Vec::new(),
            }
        },
    }
}

/// Inserts one sibling into a run already in canonical order, after every
/// sibling whose role ranks at or before its own, so that siblings of equal
/// rank keep their order.
pub open spec fn spec_insert_sibling(
    s: Seq<(Entity, SentenceUIPart)>,
    x: (Entity, SentenceUIPart),
) -> Seq<(Entity, SentenceUIPart)>
    decreases s.len(),
{
    if s.len() == 0 {
        seq![x]
    } else if s.last().1.spec_rank() <= x.1.spec_rank() {
        s.push(x)
    } else {
        spec_insert_sibling(s.drop_last(), x).push(s.last())
    }
}

/// The siblings of one joint in canonical order: sorted by the rank of
/// their role, siblings of equal rank keeping the order they came in.
pub open spec fn spec_reordered_siblings(s: Seq<(Entity, SentenceUIPart)>) -> Seq<
    (Entity, SentenceUIPart),
>
    decreases s.len(),
{
    if s.len() == 0 {
        Seq::<(Entity, SentenceUIPart)>::empty()
    } else {
        spec_insert_sibling(spec_reordered_siblings(s.drop_last()), s.last())
    }
}

/// Whether a sibling run stands in canonical order.
pub open spec fn spec_siblings_ordered(s: Seq<(Entity, SentenceUIPart)>) -> bool {
    forall|i: int, j: int| 0 <= i < j < s.len() ==> s[i].1.spec_rank() <= s[j].1.spec_rank()
}

/// Inserting keeps the run ordered and only adds the one sibling.
pub proof fn lemma_insert_sibling_ordered(s: Seq<(Entity, SentenceUIPart)>, x: (Entity, SentenceUIPart))
    requires
        spec_siblings_ordered(s),
    ensures
        spec_siblings_ordered(spec_insert_sibling(s, x)),
        spec_insert_sibling(s, x).to_multiset() == s.to_multiset().insert(x),
        spec_insert_sibling(s, x).len() == s.len() + 1,
    decreases s.len(),
{
    broadcast use vstd::seq_lib::group_to_multiset_ensures;

    if s.len() == 0 {
        assert(seq![x] =~= Seq::<(Entity, SentenceUIPart)>::empty().push(x));
    } else if s.last().1.spec_rank() <= x.1.spec_rank() {
        assert(s.push(x).drop_last() =~= s);
    } else {
        assert(spec_siblings_ordered(s.drop_last()));
        lemma_insert_sibling_ordered(s.drop_last(), x);
        let inner = spec_insert_sibling(s.drop_last(), x);
        assert(forall|i: int|
            0 <= i < inner.len() ==> #[trigger] inner[i].1.spec_rank() <= s.last().1.spec_rank())
            by {
            assert(forall|i: int|
                0 <= i < inner.len() ==> inner.to_multiset().contains(#[trigger] inner[i]));
            assert(forall|y: (Entity, SentenceUIPart)|
                #[trigger] inner.to_multiset().contains(y) ==> s.drop_last().to_multiset().contains(
                    y,
                ) || y == x);
            assert(forall|y: (Entity, SentenceUIPart)|
                #[trigger] s.drop_last().to_multiset().contains(y) ==> s.drop_last().contains(y));
            assert(forall|i: int|
                0 <= i < s.len() - 1 ==> #[trigger] s.drop_last()[i].1.spec_rank()
                    <= s.last().1.spec_rank());
        }
        assert(spec_siblings_ordered(inner.push(s.last())));
        assert(s.drop_last().push(s.last()) =~= s);
    }
}

/// Reordering yields the canonical order over exactly the same siblings.
pub proof fn lemma_reordered_siblings(s: Seq<(Entity, SentenceUIPart)>)
    ensures
        spec_siblings_ordered(spec_reordered_siblings(s)),
        spec_reordered_siblings(s).to_multiset() == s.to_multiset(),
        spec_reordered_siblings(s).len() == s.len(),
    decreases s.len(),
{
    broadcast use vstd::seq_lib::group_to_multiset_ensures;

    if s.len() > 0 {
        lemma_reordered_siblings(s.drop_last());
        lemma_insert_sibling_ordered(spec_reordered_siblings(s.drop_last()), s.last());
        assert(s.drop_last().push(s.last()) =~= s);
    }
}

/// Inserts one sibling into an already ordered vector.
fn insert_sibling(v: Vec<(Entity, SentenceUIPart)>, x: (Entity, SentenceUIPart)) -> (r: Vec<
    (Entity, SentenceUIPart),
>)
    ensures
        r@ == spec_insert_sibling(v@, x),
    decreases v@.len(),
{
    let mut v = v;
    if v.len() == 0 {
        v.push(x);
        proof {
            assert(v@ =~= seq![x]);
        }
        v
    } else if v[v.len() - 1].1.rank() <= x.1.rank() {
        v.push(x);
        v
    } else {
        let last = v.pop().unwrap();
        let mut r = insert_sibling(v, x);
        r.push(last);
        r
    }
}

/// Restores the canonical sibling order under one structural joint: the
/// children sort by the rank of their role, so the visual layout matches
/// the grammatical structure regardless of the order nodes were spawned
/// in.  Children of equal rank keep their order.
pub fn reorder_sentence_ui(children: Vec<(Entity, SentenceUIPart)>) -> (r: Vec<
    (Entity, SentenceUIPart),
>)
    ensures
        r@ == spec_reordered_siblings(children@),
        spec_siblings_ordered(r@),
        r@.to_multiset() == children@.to_multiset(),
    decreases children@.len(),
{
    proof {
        lemma_reordered_siblings(children@);
    }
    let mut children = children;
    if children.len() == 0 {
        children
    } else {
        let last = children.pop().unwrap();
        let sorted = reorder_sentence_ui(children);
        insert_sibling(sorted, last)
    }
}

/// Removes the first child with the given role, if any: reuse matches
/// nodes by role identity alone.
fn take_child(children: &mut Vec<DockNode>, part: SentenceUIPart) -> (r: Option<DockNode>)
    ensures
        match r {
            Some(n) => exists|j: int|
                #![auto]
                0 <= j < old(children)@.len() && old(children)@[j].part == part && (forall|k: int|
                    0 <= k < j ==> old(children)@[k].part != part) && n == old(children)@[j]
                    && final(children)@ == old(children)@.remove(j),
            None => final(children)@ == old(children)@ && forall|k: int|
                0 <= k < old(children)@.len() ==> old(children)@[k].part != part,
        },
{
    let n = children.len();
    let mut i: usize = 0;
    while i < n
        invariant
            i <= n,
            n == children@.len(),
            children@ == old(children)@,
            forall|k: int| 0 <= k < i ==> children@[k].part != part,
        decreases n - i,
    {
        if children[i].part == part {
            let node = children.remove(i);
            return Some(node);
        }
        i = i + 1;
    }
    None
}

} // verus!
