//! Footnote numbering: the first pass over the children of the root.
//!
//! Every footnote definition among the root's children takes the next
//! number, starting at 0, in the order in which the definitions stand.
//! Numbers are looked up by identifier, so a reference may stand before its
//! definition.

use crate::syntax::lemma_node_views_index;
use crate::syntax::node_views;
use crate::syntax::Node;
use crate::syntax::NodeView;
use vstd::hash_map::StringHashMap;
use vstd::prelude::*;

verus! {

/// The numbers of the footnotes, by identifier.
pub struct FootnoteTable {
    numbers: StringHashMap<u64>,
}

impl View for FootnoteTable {
    type V = Map<Seq<char>, u64>;

    closed spec fn view(&self) -> Map<Seq<char>, u64> {
        self.numbers@
    }
}

impl FootnoteTable {
    /// A table without entries.
    pub fn new() -> (t: Self)
        ensures
            t@ == Map::<Seq<char>, u64>::empty(),
    {
        FootnoteTable { numbers: StringHashMap::new() }
    }

    /// Records `number` under `identifier`, in place of any number recorded
    /// under it before.
    pub fn insert(&mut self, identifier: String, number: u64)
        ensures
            final(self)@ == old(self)@.insert(identifier@, number),
    {
        self.numbers.insert(identifier, number);
    }

    /// The number recorded under `identifier`.
    pub fn get(&self, identifier: &str) -> (r: Option<u64>)
        ensures
            r == (if self@.contains_key(identifier@) {
                Some(self@[identifier@])
            } else {
                None
            }),
    {
        match self.numbers.get(identifier) {
            Some(number) => Some(*number),
            None => None,
        }
    }
}

/// Number of footnote definitions among `nodes`.
pub open spec fn definition_count(nodes: Seq<NodeView>) -> nat
    decreases nodes.len(),
{
    if nodes.len() == 0 {
        0
    } else {
        definition_count(nodes.drop_last()) + if nodes.last() is FootnoteDefinition {
            1nat
        } else {
            0nat
        }
    }
}

/// The footnote table after scanning `nodes`, starting from `table` with
/// `count` definitions numbered so far: each definition, in order, takes the
/// next number and records it under its identifier, so that a later
/// definition of an identifier replaces an earlier one.
pub open spec fn recorded(table: Map<Seq<char>, u64>, count: nat, nodes: Seq<NodeView>) -> Map<
    Seq<char>,
    u64,
>
    decreases nodes.len(),
{
    if nodes.len() == 0 {
        table
    } else {
        let before = recorded(table, count, nodes.drop_last());
        match nodes.last() {
            NodeView::FootnoteDefinition { identifier, .. } => before.insert(
                identifier,
                (count + definition_count(nodes.drop_last())) as u64,
            ),
            _ => before,
        }
    }
}

/// The footnote table of a document whose root has the children `nodes`:
/// definitions are numbered from 0 in the order in which they stand.
pub open spec fn footnote_table(nodes: Seq<NodeView>) -> Map<Seq<char>, u64> {
    recorded(Map::empty(), 0, nodes)
}

/// The footnote definitions among `nodes`, in the order in which they stand.
pub open spec fn definitions(nodes: Seq<NodeView>) -> Seq<NodeView>
    decreases nodes.len(),
{
    if nodes.len() == 0 {
        Seq::empty()
    } else if nodes.last() is FootnoteDefinition {
        definitions(nodes.drop_last()).push(nodes.last())
    } else {
        definitions(nodes.drop_last())
    }
}

/// Whether `node` is a footnote definition for `identifier`.
pub open spec fn defines(node: NodeView, identifier: Seq<char>) -> bool {
    node matches NodeView::FootnoteDefinition { identifier: id, .. } && id == identifier
}

/// There are no more definitions among `nodes` than nodes.
pub proof fn lemma_definition_count_bound(nodes: Seq<NodeView>)
    ensures
        definition_count(nodes) <= nodes.len(),
    decreases nodes.len(),
{
    if nodes.len() > 0 {
        lemma_definition_count_bound(nodes.drop_last());
    }
}

/// A prefix of `nodes` holds no more definitions than `nodes`.
pub proof fn lemma_definition_count_prefix(nodes: Seq<NodeView>, k: int)
    requires
        0 <= k <= nodes.len(),
    ensures
        definition_count(nodes.take(k)) <= definition_count(nodes),
    decreases nodes.len() - k,
{
    if k < nodes.len() {
        assert(nodes.take(k + 1).drop_last() =~= nodes.take(k));
        lemma_definition_count_prefix(nodes, k + 1);
    } else {
        assert(nodes.take(k) =~= nodes);
    }
}

/// First pass: numbers the footnote definitions among `nodes` in the order
/// in which they stand, counting on from `foot_count`, and records each
/// number under the definition's identifier.
pub fn manage_foot_links(
    foot_count: &mut u64,
    footnotes: &mut FootnoteTable,
    nodes: &Vec<Node>,
)
    requires
        *old(foot_count) + definition_count(node_views(nodes@)) <= u64::MAX,
    ensures
        final(footnotes)@ == recorded(
            old(footnotes)@,
            *old(foot_count) as nat,
            node_views(nodes@),
        ),
        *final(foot_count) == *old(foot_count) + definition_count(node_views(nodes@)),
{
    let ghost table = footnotes@;
    let ghost start = *foot_count as nat;
    let ghost all = node_views(nodes@);
    let mut i: usize = 0;
    while i < nodes.len()
        invariant
            i <= nodes.len(),
            all == node_views(nodes@),
            start + definition_count(all) <= u64::MAX,
            footnotes@ == recorded(table, start, all.take(i as int)),
            *foot_count == start + definition_count(all.take(i as int)),
        decreases nodes.len() - i,
    {
        proof {
            lemma_node_views_index(nodes@);
            assert(all.take(i + 1).drop_last() =~= all.take(i as int));
            assert(all.take(i + 1).last() == nodes@[i as int]@);
            lemma_definition_count_prefix(all, i + 1);
        }
        match &nodes[i] {
            Node::FootnoteDefinition { identifier, .. } => {
                footnotes.insert(identifier.clone(), *foot_count);
                *foot_count += 1;
            },
            _ => {},
        }
        i += 1;
    }
    proof {
        lemma_node_views_index(nodes@);
        assert(all.take(nodes.len() as int) =~= all);
    }
}

/// Only the definitions count for the footnote table: scanning `nodes`
/// records what scanning its definitions alone records.
pub proof fn lemma_recorded_definitions(table: Map<Seq<char>, u64>, count: nat, nodes: Seq<NodeView>)
    ensures
        recorded(table, count, nodes) == recorded(table, count, definitions(nodes)),
        definition_count(nodes) == definition_count(definitions(nodes)),
    decreases nodes.len(),
{
    if nodes.len() > 0 {
        let init = nodes.drop_last();
        lemma_recorded_definitions(table, count, init);
        if nodes.last() is FootnoteDefinition {
            let d = definitions(init);
            assert(d.push(nodes.last()).drop_last() =~= d);
            assert(d.push(nodes.last()).last() == nodes.last());
        }
    }
}

/// Footnote numbers do not depend on where anything but the definitions
/// stands. Two documents whose roots hold the same definitions in the same
/// order have the same footnote table, wherever their references and other
/// nodes stand: before the definitions, after them or between them.
pub proof fn lemma_footnote_numbers_stable(a: Seq<NodeView>, b: Seq<NodeView>)
    requires
        definitions(a) == definitions(b),
    ensures
        footnote_table(a) == footnote_table(b),
{
    lemma_recorded_definitions(Map::empty(), 0, a);
    lemma_recorded_definitions(Map::empty(), 0, b);
}

/// The identifiers in the footnote table are those of the table before the
/// scan and those of the definitions scanned.
pub proof fn lemma_recorded_domain(
    table: Map<Seq<char>, u64>,
    count: nat,
    nodes: Seq<NodeView>,
    identifier: Seq<char>,
)
    ensures
        recorded(table, count, nodes).contains_key(identifier) <==> table.contains_key(identifier)
            || exists|k: int| 0 <= k < nodes.len() && defines(#[trigger] nodes[k], identifier),
    decreases nodes.len(),
{
    if nodes.len() > 0 {
        let init = nodes.drop_last();
        lemma_recorded_domain(table, count, init, identifier);
        if recorded(table, count, nodes).contains_key(identifier) {
            if !table.contains_key(identifier) {
                if defines(nodes.last(), identifier) {
                    assert(defines(nodes[nodes.len() - 1], identifier));
                } else {
                    let k = choose|k: int| 0 <= k < init.len() && defines(#[trigger] init[k], identifier);
                    assert(defines(nodes[k], identifier));
                }
            }
        }
        if exists|k: int| 0 <= k < nodes.len() && defines(#[trigger] nodes[k], identifier) {
            let k = choose|k: int| 0 <= k < nodes.len() && defines(#[trigger] nodes[k], identifier);
            if k < init.len() {
                assert(defines(init[k], identifier));
            }
        }
    }
}

/// Removing a node that is no definition leaves the definitions as they
/// are.
pub proof fn lemma_definitions_remove(nodes: Seq<NodeView>, i: int)
    requires
        0 <= i < nodes.len(),
        !(nodes[i] is FootnoteDefinition),
    ensures
        definitions(nodes.remove(i)) == definitions(nodes),
    decreases nodes.len(),
{
    let init = nodes.drop_last();
    if i == nodes.len() - 1 {
        assert(nodes.remove(i) =~= init);
    } else {
        assert(init[i] == nodes[i]);
        lemma_definitions_remove(init, i);
        assert(nodes.remove(i).drop_last() =~= init.remove(i));
        assert(nodes.remove(i).last() == nodes.last());
    }
}

} // verus!
