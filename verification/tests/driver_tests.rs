use neat::gene::{ConnectionGene, Genome, NodeGene, NodeId, NodeType};
use neat::neat::{generation, run, GENERATIONS};

fn node(id: u32, node_type: NodeType) -> NodeGene {
    NodeGene { id: NodeId(id), node_type }
}

fn conn(from: u32, to: u32, weight: f64, enabled: bool) -> ConnectionGene {
    ConnectionGene {
        in_node: NodeId(from),
        out_node: NodeId(to),
        weight: weight.to_bits(),
        enabled,
    }
}

/// A genome that reproduces the XOR table exactly; its six nodes also make
/// its children recognisable by node count.
fn perfect_genome() -> Genome {
    let k = (1u64 << 60) as f64;
    Genome {
        nodes: vec![
            node(0, NodeType::Input),
            node(1, NodeType::Input),
            node(2, NodeType::Output),
            node(3, NodeType::Hidden),
            node(4, NodeType::Hidden),
            node(5, NodeType::Hidden),
        ],
        connections: vec![
            conn(0, 4, 4.0 * k, true),
            conn(1, 4, 4.0 * k, true),
            conn(3, 4, -2.0 * k, true),
            conn(0, 5, 4.0 * k, true),
            conn(1, 5, 4.0 * k, true),
            conn(3, 5, -12.0 * k, true),
            conn(4, 2, 4.0 * k, true),
            conn(5, 2, -8.0 * k, true),
            conn(3, 2, -2.0 * k, true),
        ],
    }
}

#[test]
fn generation_breeds_from_the_fittest_genome() {
    // The perfect genome has six nodes, the fresh one three; every child of
    // one generation descends from the fitter parent, and one mutation can
    // add at most one node, so the counts expose the selection.
    let population = vec![Genome::new(2, 1), perfect_genome()];
    let next = generation(4, &population);
    assert_eq!(next.len(), 4);
    for child in &next {
        assert!(child.node_count() == 6 || child.node_count() == 7);
        assert!(child.connection_count() >= 9);
    }
}

#[test]
fn generation_keeps_the_population_size() {
    let population = vec![Genome::new(2, 1)];
    let next = generation(3, &population);
    assert_eq!(next.len(), 3);
    for child in &next {
        assert!(child.node_count() >= 3);
        assert!(child.connection_count() >= 2);
    }
}

#[test]
fn run_returns_a_full_final_population() {
    let population = run(5, 2, 1);
    assert_eq!(population.len(), 5);
    for genome in &population {
        assert!(genome.node_count() >= 3);
        assert!(genome.node_count() <= 3 + GENERATIONS as usize);
        assert!(genome.connection_count() >= 2);
    }
}
