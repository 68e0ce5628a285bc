use qnet_core::distributed::CoordinationTopology;
use qnet_core::memory::MemoryRegisterTracker;
use qnet_core::protocols::{default_rounds, party_edges, resource_link_names, run_seed, teleportation_path};
use qnet_core::text::decimal;

fn s(x: &str) -> String {
    x.to_string()
}

fn names(v: &[&str]) -> Vec<String> {
    v.iter().map(|x| s(x)).collect()
}

fn pairs(v: &[(&str, &str)]) -> Vec<(String, String)> {
    v.iter().map(|(a, c)| (s(a), s(c))).collect()
}

#[test]
fn a_star_joins_every_other_party_to_the_center() {
    let t = CoordinationTopology::Star { center_node: s("B") };
    assert_eq!(t.required_edges(&names(&["A", "B", "C", "D"])), pairs(&[("A", "B"), ("C", "B"), ("D", "B")]));
    let outside = CoordinationTopology::Star { center_node: s("Z") };
    assert_eq!(outside.required_edges(&names(&["A", "B"])), pairs(&[("A", "Z"), ("B", "Z")]));
}

#[test]
fn a_ring_closes_on_the_first_party() {
    let t = CoordinationTopology::Ring;
    assert_eq!(t.required_edges(&names(&["A", "B", "C"])), pairs(&[("A", "B"), ("B", "C"), ("C", "A")]));
    assert_eq!(t.required_edges(&names(&["A"])), pairs(&[("A", "A")]));
    assert_eq!(t.required_edges(&vec![]), vec![]);
}

#[test]
fn a_mesh_joins_every_pair_once() {
    let t = CoordinationTopology::Mesh;
    assert_eq!(
        t.required_edges(&names(&["A", "B", "C", "D"])),
        pairs(&[("A", "B"), ("A", "C"), ("A", "D"), ("B", "C"), ("B", "D"), ("C", "D")])
    );
    let five = t.required_edges(&names(&["1", "2", "3", "4", "5"]));
    assert_eq!(five.len(), 10);
}

#[test]
fn arbitrary_edges_are_taken_as_given() {
    let edges = pairs(&[("X", "Y"), ("Y", "X"), ("Q", "Q")]);
    let t = CoordinationTopology::Arbitrary { edges: edges.clone() };
    assert_eq!(t.required_edges(&names(&["A"])), edges);
}

#[test]
fn qkd_sessions_default_to_one_hundred_rounds() {
    assert_eq!(default_rounds(), 100);
}

#[test]
fn run_seeds_wrap_around() {
    assert_eq!(run_seed(41, 1), 42);
    assert_eq!(run_seed(u64::MAX, 2), 1);
    assert_eq!(run_seed(7, 0), 7);
}

#[test]
fn the_teleportation_chain_ends_at_the_target_only_when_established() {
    let relays = names(&["R1", "R2"]);
    assert_eq!(teleportation_path(&s("A"), &relays, &s("B"), true), names(&["A", "R1", "R2", "B"]));
    assert_eq!(teleportation_path(&s("A"), &relays, &s("B"), false), names(&["A", "R1", "R2"]));
    assert_eq!(teleportation_path(&s("A"), &vec![], &s("B"), true), names(&["A", "B"]));
}

#[test]
fn party_edges_are_the_edges_a_party_takes_part_in() {
    let edges = pairs(&[("A", "B"), ("B", "C"), ("C", "A"), ("C", "C")]);
    assert_eq!(party_edges(&edges, &s("A")), vec![0, 2]);
    assert_eq!(party_edges(&edges, &s("C")), vec![1, 2, 3]);
    assert_eq!(party_edges(&edges, &s("Z")), Vec::<usize>::new());
}

#[test]
fn resource_links_are_named_from_to() {
    assert_eq!(resource_link_names(&pairs(&[("A", "B"), ("C", "A")])), names(&["A->B", "C->A"]));
}

#[test]
fn a_register_buffers_up_to_its_capacity() {
    let mut m = MemoryRegisterTracker::new(3);
    let outcomes: Vec<bool> = (0..5).map(|_| m.try_buffer()).collect();
    assert_eq!(outcomes, vec![true, true, true, false, false]);
    assert_eq!(m.allocated_qubits, 3);
    m.flush();
    assert_eq!(m.allocated_qubits, 0);
    assert_eq!(m.max_capacity, 3);
    assert!(m.try_buffer());
    let mut empty = MemoryRegisterTracker::new(0);
    assert!(!empty.try_buffer());
}

#[test]
fn counts_are_written_in_decimal() {
    assert_eq!(decimal(0), "0");
    assert_eq!(decimal(7), "7");
    assert_eq!(decimal(10), "10");
    assert_eq!(decimal(1234567890), "1234567890");
    assert_eq!(decimal(usize::MAX), usize::MAX.to_string());
}
