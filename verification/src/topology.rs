//! The network topology a broadcast node is told to gossip along.

use vstd::prelude::*;
use vstd::set_lib::lemma_subset_equality;
use vstd::std_specs::cmp::PartialEqSpecImpl;

verus! {

/// One line of a topology: a node and the neighbours it should gossip to.
pub type Entry = (String, Vec<String>);

/// An entry in mathematical form.
pub type EntryView = (Seq<char>, Seq<Seq<char>>);

/// A topology in mathematical form: each node that has an entry, with its
/// list of neighbours.
pub type TopologyView = Map<Seq<char>, Seq<Seq<char>>>;

/// No two of the first `n` entries speak of the same node.
pub open spec fn distinct_nodes(entries: Seq<EntryView>, n: int) -> bool {
    forall|i: int, j: int| 0 <= i < j < n ==> entries[i].0 != entries[j].0
}

/// Whether one of the entries speaks of `node`.
pub open spec fn has_entry(entries: Seq<EntryView>, node: Seq<char>) -> bool {
    exists|i: int| 0 <= i < entries.len() && (#[trigger] entries[i]).0 == node
}

/// The place of an entry that speaks of `node`.
pub open spec fn entry_index(entries: Seq<EntryView>, node: Seq<char>) -> int {
    choose|i: int| 0 <= i < entries.len() && (#[trigger] entries[i]).0 == node
}

/// The map that a list of entries stands for.
pub open spec fn entries_map(entries: Seq<EntryView>) -> TopologyView {
    Map::new(
        |node: Seq<char>| has_entry(entries, node),
        |node: Seq<char>| entries[entry_index(entries, node)].1,
    )
}

/// The nodes that the first `n` entries speak of.
spec fn prefix_nodes(entries: Seq<EntryView>, n: int) -> Set<Seq<char>> {
    Set::new(|node: Seq<char>| exists|i: int| 0 <= i < n && (#[trigger] entries[i]).0 == node)
}

/// With distinct nodes, the entry at `i` is the one its node maps to.
proof fn lemma_entry_at(entries: Seq<EntryView>, i: int)
    requires
        distinct_nodes(entries, entries.len() as int),
        0 <= i < entries.len(),
    ensures
        has_entry(entries, entries[i].0),
        entry_index(entries, entries[i].0) == i,
        entries_map(entries).contains_key(entries[i].0),
        entries_map(entries)[entries[i].0] == entries[i].1,
{
    let node = entries[i].0;
    assert(has_entry(entries, node));
    let c = entry_index(entries, node);
    assert(0 <= c < entries.len() && entries[c].0 == node);
    if c < i {
        assert(entries[c].0 != entries[i].0);
    } else if i < c {
        assert(entries[i].0 != entries[c].0);
    }
}

/// Distinct entries speak of as many nodes as there are entries.
proof fn lemma_entries_domain(entries: Seq<EntryView>, n: int)
    requires
        0 <= n <= entries.len(),
        distinct_nodes(entries, n),
    ensures
        prefix_nodes(entries, n).finite(),
        prefix_nodes(entries, n).len() == n,
    decreases n,
{
    if n == 0 {
        assert(prefix_nodes(entries, n) =~= Set::empty());
    } else {
        lemma_entries_domain(entries, n - 1);
        let node = entries[n - 1].0;
        assert(!prefix_nodes(entries, n - 1).contains(node));
        assert(prefix_nodes(entries, n) =~= prefix_nodes(entries, n - 1).insert(node));
    }
}

/// Replacing the entry of a node keeps the entries distinct and sets the
/// node's neighbours in the map.
proof fn lemma_replace(before: Seq<EntryView>, at: int, entry: EntryView)
    requires
        distinct_nodes(before, before.len() as int),
        0 <= at < before.len(),
        before[at].0 == entry.0,
    ensures
        distinct_nodes(before.update(at, entry), before.len() as int),
        entries_map(before.update(at, entry)) == entries_map(before).insert(entry.0, entry.1),
{
    let after = before.update(at, entry);
    assert(forall|j: int| 0 <= j < after.len() ==> after[j].0 == before[j].0);
    assert forall|k: Seq<char>| has_entry(after, k) == has_entry(before, k) by {
        if has_entry(before, k) {
            let c = entry_index(before, k);
            assert(after[c].0 == k);
        }
        if has_entry(after, k) {
            let c = entry_index(after, k);
            assert(before[c].0 == k);
        }
    }
    lemma_entry_at(before, at);
    let target = entries_map(before).insert(entry.0, entry.1);
    assert forall|k: Seq<char>| #[trigger] entries_map(after).contains_key(k) implies entries_map(
        after,
    )[k] == target[k] by {
        let c = entry_index(after, k);
        lemma_entry_at(after, c);
        lemma_entry_at(before, c);
    }
    assert(entries_map(after) =~= target);
}

/// Appending an entry for a node that has none keeps the entries distinct
/// and adds the node to the map.
proof fn lemma_append(before: Seq<EntryView>, entry: EntryView)
    requires
        distinct_nodes(before, before.len() as int),
        !has_entry(before, entry.0),
    ensures
        distinct_nodes(before.push(entry), before.len() as int + 1),
        entries_map(before.push(entry)) == entries_map(before).insert(entry.0, entry.1),
{
    let after = before.push(entry);
    let last = before.len() as int;
    assert forall|i: int, j: int| 0 <= i < j < after.len() implies after[i].0 != after[j].0 by {
        if j == last {
            assert(before[i].0 == after[i].0);
        } else {
            assert(before[i].0 == after[i].0 && before[j].0 == after[j].0);
        }
    }
    assert forall|k: Seq<char>| has_entry(after, k) == (has_entry(before, k) || k == entry.0) by {
        if has_entry(before, k) {
            let c = entry_index(before, k);
            assert(after[c].0 == k);
        }
        if k == entry.0 {
            assert(after[last].0 == k);
        }
        if has_entry(after, k) && k != entry.0 {
            let c = entry_index(after, k);
            assert(before[c].0 == k);
        }
    }
    let target = entries_map(before).insert(entry.0, entry.1);
    assert forall|k: Seq<char>| #[trigger] entries_map(after).contains_key(k) implies entries_map(
        after,
    )[k] == target[k] by {
        let c = entry_index(after, k);
        lemma_entry_at(after, c);
        if c < last {
            lemma_entry_at(before, c);
        }
    }
    assert(entries_map(after) =~= target);
}

/// Whether two lists of node ids are the same.
fn same_ids(one: &Vec<String>, other: &Vec<String>) -> (same: bool)
    ensures
        same == (one.deep_view() == other.deep_view()),
{
    if one.len() != other.len() {
        assert(one.deep_view().len() != other.deep_view().len());
        return false;
    }
    let mut i: usize = 0;
    while i < one.len()
        invariant
            i <= one@.len(),
            one@.len() == other@.len(),
            forall|j: int| 0 <= j < i ==> one@[j]@ == other@[j]@,
        decreases one@.len() - i,
    {
        if !(one[i] == other[i]) {
            assert(one.deep_view()[i as int] != other.deep_view()[i as int]);
            return false;
        }
        i = i + 1;
    }
    assert(one.deep_view() =~= other.deep_view());
    true
}

/// A map from node ids to neighbour lists, in which a node has at most one
/// entry.
#[derive(Debug)]
pub struct Topology {
    entries: Vec<Entry>,
}

impl View for Topology {
    type V = TopologyView;

    closed spec fn view(&self) -> TopologyView {
        entries_map(self.entries.deep_view())
    }
}

impl DeepView for Topology {
    type V = TopologyView;

    open spec fn deep_view(&self) -> TopologyView {
        self@
    }
}

impl Clone for Topology {
    fn clone(&self) -> (copy: Topology)
        ensures
            copy@ == self@,
    {
        proof {
            use_type_invariant(self);
        }
        let mut entries: Vec<Entry> = Vec::new();
        let mut i: usize = 0;
        while i < self.entries.len()
            invariant
                i <= self.entries@.len(),
                entries@.len() == i,
                forall|j: int| 0 <= j < i ==> entries@[j].deep_view() == self.entries@[j].deep_view(),
            decreases self.entries@.len() - i,
        {
            let node = self.entries[i].0.clone();
            let neighbors = self.entries[i].1.clone();
            assert(neighbors.deep_view() =~= self.entries@[i as int].1.deep_view());
            entries.push((node, neighbors));
            i = i + 1;
        }
        assert(entries.deep_view() =~= self.entries.deep_view());
        Topology { entries }
    }
}

impl PartialEq for Topology {
    fn eq(&self, other: &Topology) -> (same: bool) {
        proof {
            use_type_invariant(self);
            use_type_invariant(other);
        }
        if self.len() != other.len() {
            return false;
        }
        let ghost mine = self.entries.deep_view();
        let mut i: usize = 0;
        while i < self.entries.len()
            invariant
                i <= self.entries@.len(),
                mine == self.entries.deep_view(),
                distinct_nodes(mine, mine.len() as int),
                forall|j: int|
                    0 <= j < i ==> other@.contains_key((#[trigger] mine[j]).0) && other@[mine[j].0]
                        == mine[j].1,
            decreases self.entries@.len() - i,
        {
            proof {
                lemma_entry_at(mine, i as int);
            }
            match other.get(&self.entries[i].0) {
                Some(list) => {
                    if !same_ids(list, &self.entries[i].1) {
                        return false;
                    }
                },
                None => {
                    return false;
                },
            }
            i = i + 1;
        }
        proof {
            assert forall|node: Seq<char>| self@.contains_key(node) implies other@.contains_key(
                node,
            ) && other@[node] == self@[node] by {
                let at = entry_index(mine, node);
                lemma_entry_at(mine, at);
                assert(other@.contains_key(mine[at].0));
            }
            assert(self@.dom().subset_of(other@.dom()));
            lemma_subset_equality(self@.dom(), other@.dom());
            assert(self@ =~= other@);
        }
        true
    }
}

impl PartialEqSpecImpl for Topology {
    open spec fn obeys_eq_spec() -> bool {
        true
    }

    open spec fn eq_spec(&self, other: &Topology) -> bool {
        self@ == other@
    }
}

impl Eq for Topology {

}

impl Topology {
    #[verifier::type_invariant]
    spec fn well_formed(self) -> bool {
        distinct_nodes(self.entries.deep_view(), self.entries@.len() as int)
    }

    /// A topology without entries.
    pub fn new() -> (topology: Topology)
        ensures
            topology@ == TopologyView::empty(),
    {
        let topology = Topology { entries: Vec::new() };
        assert(topology@ =~= TopologyView::empty());
        topology
    }

    /// The number of nodes that have an entry.
    pub fn len(&self) -> (n: usize)
        ensures
            self@.dom().finite(),
            n == self@.dom().len(),
    {
        proof {
            use_type_invariant(self);
            let entries = self.entries.deep_view();
            lemma_entries_domain(entries, entries.len() as int);
            assert(prefix_nodes(entries, entries.len() as int) =~= self@.dom());
        }
        self.entries.len()
    }

    /// The place of the entry for `node`, if it has one.
    fn position(&self, node: &String) -> (at: Option<usize>)
        ensures
            match at {
                Some(i) => i < self.entries@.len() && self.entries@[i as int].0@ == node@,
                None => !has_entry(self.entries.deep_view(), node@),
            },
    {
        let mut i: usize = 0;
        while i < self.entries.len()
            invariant
                i <= self.entries@.len(),
                forall|j: int| 0 <= j < i ==> self.entries@[j].0@ != node@,
            decreases self.entries@.len() - i,
        {
            if self.entries[i].0 == *node {
                return Some(i);
            }
            i = i + 1;
        }
        None
    }

    /// The neighbours listed for `node`, or `None` where it has no entry.
    pub fn get(&self, node: &String) -> (neighbors: Option<&Vec<String>>)
        ensures
            match neighbors {
                Some(list) => self@.contains_key(node@) && list.deep_view() == self@[node@],
                None => !self@.contains_key(node@),
            },
    {
        match self.position(node) {
            Some(i) => {
                proof {
                    use_type_invariant(self);
                    lemma_entry_at(self.entries.deep_view(), i as int);
                }
                Some(&self.entries[i].1)
            },
            None => None,
        }
    }

    /// Gives `node` the neighbour list `neighbors`, in place of the one it
    /// had, if any.
    pub fn insert(&mut self, node: String, neighbors: Vec<String>)
        ensures
            final(self)@ == old(self)@.insert(node@, neighbors.deep_view()),
    {
        proof {
            use_type_invariant(&*self);
        }
        let ghost before = self.entries.deep_view();
        let ghost entry = (node@, neighbors.deep_view());
        let found = self.position(&node);
        let mut entries: Vec<Entry> = Vec::new();
        std::mem::swap(&mut self.entries, &mut entries);
        match found {
            Some(i) => {
                entries[i] = (node, neighbors);
                proof {
                    assert(entries.deep_view() =~= before.update(i as int, entry));
                    lemma_replace(before, i as int, entry);
                }
            },
            None => {
                entries.push((node, neighbors));
                proof {
                    assert(entries.deep_view() =~= before.push(entry));
                    lemma_append(before, entry);
                }
            },
        }
        self.entries = entries;
    }

    /// The entries, one for each node, in no particular order.
    pub fn entries(&self) -> (entries: &Vec<Entry>)
        ensures
            distinct_nodes(entries.deep_view(), entries@.len() as int),
            entries_map(entries.deep_view()) == self@,
    {
        proof {
            use_type_invariant(self);
        }
        &self.entries
    }
}

} // verus!
