use neat::arith::{
    EPSILON_BITS, FIFTH_BITS, HALF_BITS, ONE_BITS, TENTH_BITS, TWO_BITS, ZERO_BITS,
};
use neat::gene::{ConnectionGene, Genome, NodeGene, NodeId, NodeType};

fn bits(x: f64) -> u64 {
    x.to_bits()
}

fn val(b: u64) -> f64 {
    f64::from_bits(b)
}

/// The fast sigmoid exactly as the library computes it, in native doubles.
fn reference_activation(x: f64) -> f64 {
    let denominator = 1.0 + x.abs();
    let slope = x / denominator;
    0.5 + 0.5 * slope
}

fn node(id: u32, node_type: NodeType) -> NodeGene {
    NodeGene { id: NodeId(id), node_type }
}

fn conn(from: u32, to: u32, weight: f64, enabled: bool) -> ConnectionGene {
    ConnectionGene {
        in_node: NodeId(from),
        out_node: NodeId(to),
        weight: weight.to_bits(),
        enabled,
    }
}

/// A fixed two-input, one-output genome with known weights.
fn known_genome(w_a: f64, w_b: f64) -> Genome {
    Genome {
        nodes: vec![
            node(0, NodeType::Input),
            node(1, NodeType::Input),
            node(2, NodeType::Output),
        ],
        connections: vec![conn(0, 2, w_a, true), conn(1, 2, w_b, true)],
    }
}

/// A genome that reproduces the XOR table exactly: a hidden node with no
/// incoming connection is a constant bias through the activation, and huge
/// weights saturate the activation to exact zero and one.
fn perfect_genome() -> Genome {
    let k = (1u64 << 60) as f64;
    Genome {
        nodes: vec![
            node(0, NodeType::Input),
            node(1, NodeType::Input),
            node(2, NodeType::Output),
            node(3, NodeType::Hidden),
            node(4, NodeType::Hidden),
            node(5, NodeType::Hidden),
        ],
        connections: vec![
            conn(0, 4, 4.0 * k, true),
            conn(1, 4, 4.0 * k, true),
            conn(3, 4, -2.0 * k, true),
            conn(0, 5, 4.0 * k, true),
            conn(1, 5, 4.0 * k, true),
            conn(3, 5, -12.0 * k, true),
            conn(4, 2, 4.0 * k, true),
            conn(5, 2, -8.0 * k, true),
            conn(3, 2, -2.0 * k, true),
        ],
    }
}

#[test]
fn constants_hold_the_advertised_values() {
    assert_eq!(ZERO_BITS, 0.0f64.to_bits());
    assert_eq!(HALF_BITS, 0.5f64.to_bits());
    assert_eq!(ONE_BITS, 1.0f64.to_bits());
    assert_eq!(TWO_BITS, 2.0f64.to_bits());
    assert_eq!(TENTH_BITS, 0.1f64.to_bits());
    assert_eq!(FIFTH_BITS, 0.2f64.to_bits());
    assert_eq!(EPSILON_BITS, 1e-18f64.to_bits());
}

#[test]
fn new_genome_has_the_advertised_counts() {
    let g = Genome::new(3, 2);
    assert_eq!(g.node_count(), 5);
    assert_eq!(g.connection_count(), 6);
    let g2 = Genome::new(2, 1);
    assert_eq!(g2.node_count(), 3);
    assert_eq!(g2.connection_count(), 2);
    let g3 = Genome::new(1, 2);
    assert_eq!(g3.node_count(), 3);
    assert_eq!(g3.connection_count(), 2);
}

#[test]
fn new_genome_has_the_advertised_topology() {
    let g = Genome::new(2, 2);
    assert_eq!(g.nodes[0].id, NodeId(0));
    assert_eq!(g.nodes[1].id, NodeId(1));
    assert_eq!(g.nodes[2].id, NodeId(2));
    assert_eq!(g.nodes[3].id, NodeId(3));
    assert!(matches!(g.nodes[0].node_type, NodeType::Input));
    assert!(matches!(g.nodes[1].node_type, NodeType::Input));
    assert!(matches!(g.nodes[2].node_type, NodeType::Output));
    assert!(matches!(g.nodes[3].node_type, NodeType::Output));
    for i in 0..2u32 {
        for j in 0..2u32 {
            let c = &g.connections[(i * 2 + j) as usize];
            assert_eq!(c.in_node, NodeId(i));
            assert_eq!(c.out_node, NodeId(2 + j));
            assert!(c.enabled);
            let w = val(c.weight);
            assert!((-1.0..1.0).contains(&w));
        }
    }
}

#[test]
fn evaluation_matches_a_native_reference() {
    let g = known_genome(0.5, 0.25);
    let out = g.calculate_output(bits(1.0), bits(1.0));
    let expected = reference_activation(1.0 * 0.5 + 1.0 * 0.25);
    assert_eq!(out, expected.to_bits());
    let out2 = g.calculate_output(bits(0.25), bits(-0.75));
    let expected2 = reference_activation(0.25 * 0.5 + -0.75 * 0.25);
    assert_eq!(out2, expected2.to_bits());
}

#[test]
fn disabled_connections_contribute_nothing() {
    let mut g = known_genome(0.5, 0.25);
    g.connections[1].enabled = false;
    let out = g.calculate_output(bits(1.0), bits(1.0));
    let expected = reference_activation(1.0 * 0.5);
    assert_eq!(out, expected.to_bits());
}

#[test]
fn evaluation_is_deterministic() {
    let g = Genome::new(2, 1);
    for (a, b) in [(0.0, 0.0), (0.0, 1.0), (1.0, 0.0), (1.0, 1.0)] {
        let first = g.calculate_output(bits(a), bits(b));
        let second = g.calculate_output(bits(a), bits(b));
        assert_eq!(first, second);
    }
}

#[test]
fn cyclic_genome_evaluates_to_a_finite_value() {
    let mut g = known_genome(0.5, 0.25);
    g.nodes.push(node(3, NodeType::Hidden));
    g.nodes.push(node(4, NodeType::Hidden));
    // A two-node cycle feeding the output, and a self-loop on the output.
    g.connections.push(conn(3, 4, 0.5, true));
    g.connections.push(conn(4, 3, 0.5, true));
    g.connections.push(conn(4, 2, 1.0, true));
    g.connections.push(conn(2, 2, 1.0, true));
    let out = g.calculate_output(bits(1.0), bits(0.0));
    assert!(val(out).is_finite());
    // The cycle is broken by the provisional zero: node three sees zero from
    // node four on first entry, so its value is the activation of zero.
    let v3 = reference_activation(0.0);
    let v4 = reference_activation(v3 * 0.5);
    let expected = reference_activation(1.0 * 0.5 + v4 * 1.0);
    assert_eq!(out, expected.to_bits());
}

#[test]
fn evaluation_stays_in_the_open_unit_interval() {
    let g = Genome::new(2, 1);
    for (a, b) in [(0.0, 0.0), (0.0, 1.0), (1.0, 0.0), (1.0, 1.0)] {
        let out = val(g.calculate_output(bits(a), bits(b)));
        assert!(out > 0.0, "output {out} not above zero");
        assert!(out < 1.0, "output {out} not below one");
    }
}

#[test]
fn fitness_matches_a_native_reference() {
    let g = known_genome(0.5, 0.25);
    let mut total = 0.0f64;
    for (a, b, expected) in [
        (0.0, 0.0, 0.0),
        (0.0, 1.0, 1.0),
        (1.0, 0.0, 1.0),
        (1.0, 1.0, 0.0),
    ] {
        let out = val(g.calculate_output(bits(a), bits(b)));
        total += (expected - out).abs();
    }
    let expected_fitness = 1.0 / (total + 1e-18);
    assert_eq!(g.calculate_fitness(), expected_fitness.to_bits());
}

#[test]
fn perfect_genome_reproduces_the_xor_table() {
    let g = perfect_genome();
    assert_eq!(val(g.calculate_output(bits(0.0), bits(0.0))), 0.0);
    assert_eq!(val(g.calculate_output(bits(0.0), bits(1.0))), 1.0);
    assert_eq!(val(g.calculate_output(bits(1.0), bits(0.0))), 1.0);
    assert_eq!(val(g.calculate_output(bits(1.0), bits(1.0))), 0.0);
}

#[test]
fn perfect_fitness_exceeds_any_erring_fitness() {
    let perfect = perfect_genome().calculate_fitness();
    assert_eq!(val(perfect), 1.0 / 1e-18);
    let erring = known_genome(0.5, 0.25).calculate_fitness();
    assert!(val(perfect) > val(erring));
    let fresh = Genome::new(2, 1).calculate_fitness();
    assert!(val(perfect) > val(fresh));
}

#[test]
fn add_node_grows_counts_and_disables_the_split_connection() {
    let g = Genome::new(2, 1);
    let child = g.mutate_add_node();
    assert_eq!(child.node_count(), g.node_count() + 1);
    assert_eq!(child.connection_count(), g.connection_count() + 2);
    let disabled = child.connections.iter().filter(|c| !c.enabled).count();
    assert_eq!(disabled, 1);
    // The fresh node carries the next unused id and is hidden.
    let fresh = child.nodes.last().unwrap();
    assert_eq!(fresh.id, NodeId(3));
    assert!(matches!(fresh.node_type, NodeType::Hidden));
    // The two appended connections route around the disabled one.
    let split = child.connections.iter().position(|c| !c.enabled).unwrap();
    let first = child.connections[child.connections.len() - 2];
    let second = child.connections[child.connections.len() - 1];
    assert_eq!(first.in_node, child.connections[split].in_node);
    assert_eq!(first.out_node, NodeId(3));
    assert_eq!(val(first.weight), 1.0);
    assert!(first.enabled);
    assert_eq!(second.in_node, NodeId(3));
    assert_eq!(second.out_node, child.connections[split].out_node);
    assert_eq!(second.weight, child.connections[split].weight);
    assert!(second.enabled);
}

#[test]
fn add_connection_grows_only_the_connection_count() {
    let g = Genome::new(2, 1);
    let child = g.mutate_add_connection();
    assert_eq!(child.node_count(), g.node_count());
    assert_eq!(child.connection_count(), g.connection_count() + 1);
    let appended = child.connections.last().unwrap();
    assert!(appended.enabled);
    assert!(appended.in_node.0 < 3);
    assert!(appended.out_node.0 < 3);
    let w = val(appended.weight);
    assert!((-1.0..1.0).contains(&w));
}

#[test]
fn toggle_flips_exactly_one_connection() {
    let g = Genome::new(2, 1);
    let child = g.mutate_connection_status();
    assert_eq!(child.node_count(), g.node_count());
    assert_eq!(child.connection_count(), g.connection_count());
    let flipped = child
        .connections
        .iter()
        .zip(g.connections.iter())
        .filter(|(c, p)| c.enabled != p.enabled)
        .count();
    assert_eq!(flipped, 1);
}

#[test]
fn perturbation_moves_one_weight_by_at_most_a_tenth() {
    let g = Genome::new(2, 1);
    let child = g.mutate_perturbate_connection_weight();
    assert_eq!(child.connection_count(), g.connection_count());
    let changed: Vec<usize> = (0..g.connections.len())
        .filter(|&i| child.connections[i].weight != g.connections[i].weight)
        .collect();
    assert!(changed.len() <= 1);
    if let Some(&i) = changed.first() {
        // One rounding of the sum can nudge the observed move past the exact
        // bound by an ulp, hence the slack.
        let moved = val(child.connections[i].weight) - val(g.connections[i].weight);
        assert!((-0.1000001..0.1000001).contains(&moved));
    }
}

#[test]
fn replacement_keeps_every_weight_in_range() {
    let g = Genome::new(2, 1);
    let child = g.mutate_replace_connection_weight();
    assert_eq!(child.connection_count(), g.connection_count());
    for c in &child.connections {
        let w = val(c.weight);
        assert!((-1.0..1.0).contains(&w));
    }
}

#[test]
fn mutate_changes_counts_only_within_the_operator_bounds() {
    let g = Genome::new(2, 1);
    for _ in 0..50 {
        let child = g.mutate();
        assert!(child.node_count() == 3 || child.node_count() == 4);
        assert!((2..=4).contains(&child.connection_count()));
    }
}
