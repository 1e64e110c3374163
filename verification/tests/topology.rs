use gossip_glomers::topology::Topology;

fn text(s: &str) -> String {
    String::from(s)
}

fn ids(list: &[&str]) -> Vec<String> {
    list.iter().map(|id| text(id)).collect()
}

#[test]
fn new_topology_is_empty() {
    let topology = Topology::new();
    assert_eq!(topology.len(), 0);
    assert_eq!(topology.get(&text("a")), None);
    assert!(topology.entries().is_empty());
}

#[test]
fn insert_then_get_returns_the_list() {
    let mut topology = Topology::new();
    topology.insert(text("a"), ids(&["b", "c"]));
    topology.insert(text("b"), ids(&[]));
    assert_eq!(topology.get(&text("a")), Some(&ids(&["b", "c"])));
    assert_eq!(topology.get(&text("b")), Some(&ids(&[])));
    assert_eq!(topology.get(&text("c")), None);
    assert_eq!(topology.len(), 2);
}

#[test]
fn insert_replaces_the_list_of_a_node() {
    let mut topology = Topology::new();
    topology.insert(text("a"), ids(&["b", "c"]));
    topology.insert(text("b"), ids(&["a"]));
    topology.insert(text("a"), ids(&["d"]));
    assert_eq!(topology.get(&text("a")), Some(&ids(&["d"])));
    assert_eq!(topology.get(&text("b")), Some(&ids(&["a"])));
    assert_eq!(topology.len(), 2);
    assert_eq!(topology.entries().len(), 2);
}

#[test]
fn node_ids_are_compared_whole() {
    let mut topology = Topology::new();
    topology.insert(text("n1"), ids(&["n2"]));
    assert_eq!(topology.get(&text("n")), None);
    assert_eq!(topology.get(&text("n10")), None);
    assert_eq!(topology.get(&text("")), None);
    assert_eq!(topology.get(&text("N1")), None);
}

#[test]
fn equality_ignores_the_order_of_insertion() {
    let mut one = Topology::new();
    one.insert(text("a"), ids(&["b"]));
    one.insert(text("b"), ids(&["a", "c"]));
    let mut other = Topology::new();
    other.insert(text("b"), ids(&["x"]));
    other.insert(text("a"), ids(&["b"]));
    other.insert(text("b"), ids(&["a", "c"]));
    assert_eq!(one, other);
}

#[test]
fn equality_sees_lists_keys_and_sizes() {
    let mut one = Topology::new();
    one.insert(text("a"), ids(&["b", "c"]));
    let mut reordered = Topology::new();
    reordered.insert(text("a"), ids(&["c", "b"]));
    let mut renamed = Topology::new();
    renamed.insert(text("z"), ids(&["b", "c"]));
    let mut larger = Topology::new();
    larger.insert(text("a"), ids(&["b", "c"]));
    larger.insert(text("b"), ids(&[]));
    assert_ne!(one, reordered);
    assert_ne!(one, renamed);
    assert_ne!(one, larger);
    assert_ne!(larger, one);
    assert_ne!(one, Topology::new());
}

#[test]
fn clone_is_equal_and_independent() {
    let mut topology = Topology::new();
    topology.insert(text("a"), ids(&["b", "c"]));
    let copy = topology.clone();
    topology.insert(text("a"), ids(&[]));
    assert_eq!(copy.get(&text("a")), Some(&ids(&["b", "c"])));
    assert_ne!(copy, topology);
}

#[test]
fn entries_list_each_node_once() {
    let mut topology = Topology::new();
    topology.insert(text("a"), ids(&["b"]));
    topology.insert(text("b"), ids(&["a"]));
    topology.insert(text("a"), ids(&["c"]));
    let mut entries = topology.entries().clone();
    entries.sort();
    assert_eq!(entries, vec![(text("a"), ids(&["c"])), (text("b"), ids(&["a"]))]);
}
