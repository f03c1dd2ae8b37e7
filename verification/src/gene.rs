//! The genome: a node list, a connection list, memoized cycle-safe network
//! evaluation, the XOR fitness score, and the five mutation operators.

use vstd::prelude::*;
use crate::arith::{
    add_of, mul_of, div_of, sub_of, abs_bits, activation_of, activation,
    add_bits, mul_bits, div_bits, sub_bits, magnitude_bits,
    ZERO_BITS, ONE_BITS, EPSILON_BITS,
};
use crate::rng::{random_index, random_weight, random_delta, random_operator, weight_of, delta_of};

verus! {

/// A node's identity within one genome: the index at which the node sits,
/// minted in increasing order and never reused.
#[derive(Clone, Copy, Debug, PartialEq, Eq, Structural)]
pub struct NodeId(pub u32);

/// The role a node plays in the network.
#[derive(Clone, Copy, Debug, PartialEq, Eq, Structural)]
pub enum NodeType {
    Input,
    Output,
    Hidden,
}

/// One node of the network.
#[derive(Clone, Copy, Debug, PartialEq, Eq, Structural)]
pub struct NodeGene {
    pub id: NodeId,
    pub node_type: NodeType,
}

/// One weighted, directed edge of the network. The weight is the bit
/// pattern of a double. Disabled connections are kept so that mutation can
/// re-enable them later; duplicates and self-loops are permitted.
#[derive(Clone, Copy, Debug, PartialEq, Eq, Structural)]
pub struct ConnectionGene {
    pub in_node: NodeId,
    pub out_node: NodeId,
    pub weight: u64,
    pub enabled: bool,
}

/// A candidate network topology plus weights: the unit of selection and
/// mutation. Mutation operators return a new genome and never change the
/// receiver.
#[derive(Clone, Debug)]
pub struct Genome {
    pub nodes: Vec<NodeGene>,
    pub connections: Vec<ConnectionGene>,
}

/// What holds of the initial connection from input `i` to output `j`: the
/// endpoints of the fully connected bipartite topology, enabled, with a
/// weight drawn by the documented uniform formula.
pub open spec fn initial_connection(c: ConnectionGene, i: int, j: int, input_size: int) -> bool {
    &&& c.in_node.0 == i
    &&& c.out_node.0 == input_size + j
    &&& c.enabled
    &&& exists|raw: u64| c.weight == weight_of(raw)
}

/// How many entries of a memo table are still unset. Marking a node before
/// its incoming connections are resolved makes this measure shrink, which
/// bounds the evaluation to one pass per node even on cyclic topologies.
pub open spec fn unset_count(memo: Seq<Option<u64>>) -> nat
    decreases memo.len(),
{
    if memo.len() == 0 {
        0
    } else {
        unset_count(memo.drop_last()) + (if memo.last() is None {
            1nat
        } else {
            0nat
        })
    }
}

/// Filling one unset entry lowers the unset count by one; overwriting a set
/// entry leaves it unchanged.
pub proof fn lemma_unset_count_update(memo: Seq<Option<u64>>, k: int, v: u64)
    requires
        0 <= k < memo.len(),
    ensures
        unset_count(memo.update(k, Some(v))) == unset_count(memo) - (if memo[k] is None {
            1int
        } else {
            0int
        }),
    decreases memo.len(),
{
    let updated = memo.update(k, Some(v));
    if k == memo.len() - 1 {
        assert(updated.drop_last() =~= memo.drop_last());
    } else {
        lemma_unset_count_update(memo.drop_last(), k, v);
        assert(updated.drop_last() =~= memo.drop_last().update(k, Some(v)));
        assert(updated.last() == memo.last());
    }
}

/// The value of one node under memoized recursive aggregation, together with
/// the memo table the computation leaves behind. A node already memoized
/// returns its entry. Otherwise a provisional zero is recorded first, so a
/// cycle re-entering the node reads zero instead of recursing forever; the
/// weighted contributions of the enabled incoming connections are then
/// accumulated in list order, the activation function is applied, and the
/// activated value is memoized. The fuel only feeds the termination measure:
/// any fuel at least the number of unset entries gives the same result.
pub open spec fn eval_node(
    conns: Seq<ConnectionGene>,
    memo: Seq<Option<u64>>,
    id: int,
    fuel: nat,
) -> (u64, Seq<Option<u64>>)
    decreases fuel, 0int, 0int,
{
    if !(0 <= id < memo.len()) {
        (ZERO_BITS, memo)
    } else if memo[id] is Some {
        (memo[id]->0, memo)
    } else if fuel == 0 {
        (ZERO_BITS, memo)
    } else {
        let marked = memo.update(id, Some(ZERO_BITS));
        let folded = eval_incoming(conns, marked, id, 0, ZERO_BITS, (fuel - 1) as nat);
        let value = activation_of(folded.0);
        (value, folded.1.update(id, Some(value)))
    }
}

/// Folds the enabled connections that target node `id`, from position `j`
/// on, resolving each source through `eval_node` and accumulating the sum of
/// source value times weight.
pub open spec fn eval_incoming(
    conns: Seq<ConnectionGene>,
    memo: Seq<Option<u64>>,
    id: int,
    j: int,
    acc: u64,
    fuel: nat,
) -> (u64, Seq<Option<u64>>)
    decreases fuel, 1int, conns.len() - j,
{
    if !(0 <= j < conns.len()) {
        (acc, memo)
    } else if conns[j].enabled && conns[j].out_node.0 == id {
        let source = eval_node(conns, memo, conns[j].in_node.0 as int, fuel);
        eval_incoming(
            conns,
            source.1,
            id,
            j + 1,
            add_of(acc, mul_of(source.0, conns[j].weight)),
            fuel,
        )
    } else {
        eval_incoming(conns, memo, id, j + 1, acc, fuel)
    }
}

/// The memo table a two-input evaluation starts from: the two input nodes
/// seeded with the given values, every other node unset.
pub open spec fn seeded_memo(n: nat, a: u64, b: u64) -> Seq<Option<u64>> {
    Seq::new(
        n,
        |i: int|
            if i == 0 {
                Some(a)
            } else if i == 1 {
                Some(b)
            } else {
                None
            },
    )
}

/// The value the network yields at the designated output node (id two) when
/// the two input nodes (ids zero and one) carry the given values: a function
/// of the genome and the inputs alone.
pub open spec fn output_of(g: Genome, a: u64, b: u64) -> u64 {
    eval_node(g.connections@, seeded_memo(g.nodes@.len(), a, b), 2, g.nodes@.len()).0
}

/// The absolute error of one XOR case.
pub open spec fn case_error_of(g: Genome, a: u64, b: u64, expected: u64) -> u64 {
    abs_bits(sub_of(expected, output_of(g, a, b)))
}

/// The total absolute error over the four XOR cases, accumulated in table
/// order starting from zero.
pub open spec fn total_error_of(g: Genome) -> u64 {
    add_of(
        add_of(
            add_of(
                add_of(ZERO_BITS, case_error_of(g, ZERO_BITS, ZERO_BITS, ZERO_BITS)),
                case_error_of(g, ZERO_BITS, ONE_BITS, ONE_BITS),
            ),
            case_error_of(g, ONE_BITS, ZERO_BITS, ONE_BITS),
        ),
        case_error_of(g, ONE_BITS, ONE_BITS, ZERO_BITS),
    )
}

/// The fitness: one over the total XOR error plus a small positive epsilon,
/// so that lower error means strictly larger finite fitness.
pub open spec fn fitness_of(g: Genome) -> u64 {
    div_of(ONE_BITS, add_of(total_error_of(g), EPSILON_BITS))
}

/// The connection with the same endpoints and weight and the given flag.
pub open spec fn with_enabled(c: ConnectionGene, e: bool) -> ConnectionGene {
    ConnectionGene { in_node: c.in_node, out_node: c.out_node, weight: c.weight, enabled: e }
}

/// The connection with the same endpoints and flag and the given weight.
pub open spec fn with_weight(c: ConnectionGene, w: u64) -> ConnectionGene {
    ConnectionGene { in_node: c.in_node, out_node: c.out_node, weight: w, enabled: c.enabled }
}

/// The child comes from the parent by flipping the enabled flag of the
/// connection at position `k`.
pub open spec fn status_toggled(parent: Genome, child: Genome, k: int) -> bool {
    &&& 0 <= k < parent.connections@.len()
    &&& child.nodes@ == parent.nodes@
    &&& child.connections@ == parent.connections@.update(
        k,
        with_enabled(parent.connections@[k], !parent.connections@[k].enabled),
    )
}

/// The child comes from the parent by adding to the weight of the connection
/// at position `k` the perturbation drawn from the raw random word.
pub open spec fn weight_perturbed(parent: Genome, child: Genome, k: int, raw: u64) -> bool {
    &&& 0 <= k < parent.connections@.len()
    &&& child.nodes@ == parent.nodes@
    &&& child.connections@ == parent.connections@.update(
        k,
        with_weight(
            parent.connections@[k],
            add_of(parent.connections@[k].weight, delta_of(raw)),
        ),
    )
}

/// The child comes from the parent by overwriting the weight of the
/// connection at position `k` with the fresh weight drawn from the raw
/// random word.
pub open spec fn weight_replaced(parent: Genome, child: Genome, k: int, raw: u64) -> bool {
    &&& 0 <= k < parent.connections@.len()
    &&& child.nodes@ == parent.nodes@
    &&& child.connections@ == parent.connections@.update(
        k,
        with_weight(parent.connections@[k], weight_of(raw)),
    )
}

/// The child comes from the parent by appending one enabled connection from
/// the node at position `s` to the node at position `t`, with the weight
/// drawn from the raw random word. No cycle or duplicate check is made.
pub open spec fn connection_added(parent: Genome, child: Genome, s: int, t: int, raw: u64) -> bool {
    &&& 0 <= s < parent.nodes@.len()
    &&& 0 <= t < parent.nodes@.len()
    &&& child.nodes@ == parent.nodes@
    &&& child.connections@ == parent.connections@.push(
        ConnectionGene {
            in_node: parent.nodes@[s].id,
            out_node: parent.nodes@[t].id,
            weight: weight_of(raw),
            enabled: true,
        },
    )
}

/// The child comes from the parent by splitting the connection at position
/// `k`: that connection is disabled, one fresh hidden node is appended, and
/// two enabled connections are appended, from the old source into the fresh
/// node with weight one, and from the fresh node to the old target with the
/// old weight.
pub open spec fn node_added(parent: Genome, child: Genome, k: int) -> bool {
    let fresh = NodeId(parent.nodes@.len() as u32);
    let split = parent.connections@[k];
    &&& 0 <= k < parent.connections@.len()
    &&& child.nodes@ == parent.nodes@.push(
        NodeGene { id: fresh, node_type: NodeType::Hidden },
    )
    &&& child.connections@ == parent.connections@.update(k, with_enabled(split, false)).push(
        ConnectionGene { in_node: split.in_node, out_node: fresh, weight: ONE_BITS, enabled: true },
    ).push(
        ConnectionGene { in_node: fresh, out_node: split.out_node, weight: split.weight, enabled: true },
    )
}

/// Evaluation is deterministic: two evaluations of one genome on the same
/// input pair yield the same value, because `calculate_output` returns
/// `output_of`, a function of the genome and the inputs alone, with no
/// randomness anywhere on the evaluation path.
pub proof fn lemma_evaluation_deterministic(g: Genome, a: u64, b: u64, first: u64, second: u64)
    requires
        first == output_of(g, a, b),
        second == output_of(g, a, b),
    ensures
        first == second,
{
}

/// Cycle protection: once a node carries its provisional zero, re-entering
/// it through a cycle returns that zero at once instead of recursing, which
/// is what bounds evaluation to one pass per node on any topology.
pub proof fn lemma_cycle_reads_provisional_zero(
    conns: Seq<ConnectionGene>,
    memo: Seq<Option<u64>>,
    id: int,
    fuel: nat,
)
    requires
        0 <= id < memo.len(),
        memo[id] == Some(ZERO_BITS),
    ensures
        eval_node(conns, memo, id, fuel) == (ZERO_BITS, memo),
{
}

/// Splitting a connection grows the node count by exactly one and the
/// connection count by exactly two, and the split connection is disabled in
/// the child while keeping its endpoints and weight.
pub proof fn lemma_add_node_effect(parent: Genome, child: Genome, k: int)
    requires
        node_added(parent, child, k),
    ensures
        child.nodes@.len() == parent.nodes@.len() + 1,
        child.connections@.len() == parent.connections@.len() + 2,
        child.connections@[k] == with_enabled(parent.connections@[k], false),
        !child.connections@[k].enabled,
{
}

/// Adding a connection grows the connection count by exactly one and leaves
/// the node count unchanged; the appended connection is enabled.
pub proof fn lemma_add_connection_effect(parent: Genome, child: Genome, s: int, t: int, raw: u64)
    requires
        connection_added(parent, child, s, t, raw),
    ensures
        child.nodes@.len() == parent.nodes@.len(),
        child.connections@.len() == parent.connections@.len() + 1,
        child.connections@[child.connections@.len() - 1].enabled,
{
}

/// The child comes from the parent by one of the five mutation operators.
pub open spec fn is_mutation_of(parent: Genome, child: Genome) -> bool {
    ||| (exists|k: int| status_toggled(parent, child, k))
    ||| (exists|k: int, raw: u64| weight_perturbed(parent, child, k, raw))
    ||| (exists|k: int, raw: u64| weight_replaced(parent, child, k, raw))
    ||| (exists|s: int, t: int, raw: u64| connection_added(parent, child, s, t, raw))
    ||| (exists|k: int| node_added(parent, child, k))
}

/// Copies a gene list element by element.
fn copy_genes<T: Copy>(v: &Vec<T>) -> (r: Vec<T>)
    ensures
        r@ == v@,
{
    let mut r: Vec<T> = Vec::new();
    let mut i: usize = 0;
    while i < v.len()
        invariant
            i <= v@.len(),
            r@ == v@.subrange(0, i as int),
        decreases v@.len() - i,
    {
        r.push(v[i]);
        proof {
            assert(r@ =~= v@.subrange(0, i + 1));
        }
        i = i + 1;
    }
    proof {
        assert(r@ =~= v@);
    }
    r
}

impl Genome {
    /// Well-formedness: every node sits at the index its id names, ids fit
    /// the id type, and every connection endpoint names an existing node.
    pub open spec fn wf(self) -> bool {
        &&& self.nodes@.len() <= u32::MAX
        &&& (forall|i: int|
            0 <= i < self.nodes@.len() ==> (#[trigger] self.nodes@[i].id).0 == i)
        &&& (forall|j: int|
            0 <= j < self.connections@.len() ==> {
                &&& (#[trigger] self.connections@[j]).in_node.0 < self.nodes@.len()
                &&& self.connections@[j].out_node.0 < self.nodes@.len()
            })
    }

    /// How many nodes the genome has.
    pub fn node_count(&self) -> (n: usize)
        ensures
            n == self.nodes@.len(),
    {
        self.nodes.len()
    }

    /// How many connections the genome has, disabled ones included.
    pub fn connection_count(&self) -> (n: usize)
        ensures
            n == self.connections@.len(),
    {
        self.connections.len()
    }

    /// Builds the initial genome: `input_size` input nodes, `output_size`
    /// output nodes, and one enabled connection from every input to every
    /// output, each weight drawn uniformly from the half-open interval from
    /// minus one to one. The structure is deterministic; only the weights
    /// are random.
    pub fn new(input_size: u32, output_size: u32) -> (g: Genome)
        requires
            input_size + output_size <= u32::MAX,
        ensures
            g.wf(),
            g.nodes@.len() == input_size + output_size,
            g.connections@.len() == input_size * output_size,
            forall|i: int|
                0 <= i < input_size ==> #[trigger] g.nodes@[i] == (NodeGene {
                    id: NodeId(i as u32),
                    node_type: NodeType::Input,
                }),
            forall|i: int|
                input_size <= i < input_size + output_size ==> #[trigger] g.nodes@[i] == (NodeGene {
                    id: NodeId(i as u32),
                    node_type: NodeType::Output,
                }),
            forall|i: int, j: int|
                0 <= i < input_size && 0 <= j < output_size ==> initial_connection(
                    #[trigger] g.connections@[i * output_size + j],
                    i,
                    j,
                    input_size as int,
                ),
    {
        let mut nodes: Vec<NodeGene> = Vec::new();
        let mut i: u32 = 0;
        while i < input_size
            invariant
                i <= input_size,
                input_size + output_size <= u32::MAX,
                nodes@.len() == i,
                forall|k: int|
                    0 <= k < i ==> #[trigger] nodes@[k] == (NodeGene {
                        id: NodeId(k as u32),
                        node_type: NodeType::Input,
                    }),
            decreases input_size - i,
        {
            nodes.push(NodeGene { id: NodeId(i), node_type: NodeType::Input });
            i = i + 1;
        }
        let mut o: u32 = 0;
        while o < output_size
            invariant
                o <= output_size,
                input_size + output_size <= u32::MAX,
                nodes@.len() == input_size + o,
                forall|k: int|
                    0 <= k < input_size ==> #[trigger] nodes@[k] == (NodeGene {
                        id: NodeId(k as u32),
                        node_type: NodeType::Input,
                    }),
                forall|k: int|
                    input_size <= k < input_size + o ==> #[trigger] nodes@[k] == (NodeGene {
                        id: NodeId(k as u32),
                        node_type: NodeType::Output,
                    }),
            decreases output_size - o,
        {
            nodes.push(NodeGene { id: NodeId(input_size + o), node_type: NodeType::Output });
            o = o + 1;
        }
        let mut connections: Vec<ConnectionGene> = Vec::new();
        let mut a: u32 = 0;
        while a < input_size
            invariant
                a <= input_size,
                input_size + output_size <= u32::MAX,
                connections@.len() == a * output_size,
                forall|i2: int, j2: int|
                    0 <= i2 < a && 0 <= j2 < output_size ==> initial_connection(
                        #[trigger] connections@[i2 * output_size + j2],
                        i2,
                        j2,
                        input_size as int,
                    ),
            decreases input_size - a,
        {
            let mut b: u32 = 0;
            while b < output_size
                invariant
                    a < input_size,
                    b <= output_size,
                    input_size + output_size <= u32::MAX,
                    connections@.len() == a * output_size + b,
                    forall|i2: int, j2: int|
                        0 <= i2 < a && 0 <= j2 < output_size ==> initial_connection(
                            #[trigger] connections@[i2 * output_size + j2],
                            i2,
                            j2,
                            input_size as int,
                        ),
                    forall|j2: int|
                        0 <= j2 < b ==> initial_connection(
                            #[trigger] connections@[a * output_size + j2],
                            a as int,
                            j2,
                            input_size as int,
                        ),
                decreases output_size - b,
            {
                let w = random_weight();
                connections.push(ConnectionGene {
                    in_node: NodeId(a),
                    out_node: NodeId(input_size + b),
                    weight: w,
                    enabled: true,
                });
                proof {
                    assert forall|i2: int, j2: int|
                        0 <= i2 < a && 0 <= j2 < output_size implies initial_connection(
                        #[trigger] connections@[i2 * output_size + j2],
                        i2,
                        j2,
                        input_size as int,
                    ) by {
                        assert(i2 * output_size + j2 < a * output_size + b) by (nonlinear_arith)
                            requires
                                0 <= i2 < a,
                                0 <= j2 < output_size,
                                0 <= b,
                        ;
                    }
                }
                b = b + 1;
            }
            proof {
                assert(a * output_size + output_size == (a + 1) * output_size) by (nonlinear_arith);
            }
            a = a + 1;
        }
        let g = Genome { nodes, connections };
        proof {
            assert forall|k: int| 0 <= k < g.connections@.len() implies {
                &&& (#[trigger] g.connections@[k]).in_node.0 < g.nodes@.len()
                &&& g.connections@[k].out_node.0 < g.nodes@.len()
            } by {
                let os = output_size as int;
                let i = k / os;
                let j = k % os;
                assert(0 < os) by (nonlinear_arith)
                    requires
                        0 <= k,
                        k < input_size * os,
                ;
                vstd::arithmetic::div_mod::lemma_fundamental_div_mod(k, os);
                vstd::arithmetic::div_mod::lemma_mod_bound(k, os);
                vstd::arithmetic::div_mod::lemma_div_pos_is_pos(k, os);
                assert(i < input_size) by (nonlinear_arith)
                    requires
                        k < input_size * os,
                        k == os * i + j,
                        0 <= j < os,
                        0 <= i,
                ;
                assert(k == i * os + j) by (nonlinear_arith)
                    requires
                        k == os * i + j,
                ;
                assert(initial_connection(g.connections@[i * os + j], i, j, input_size as int));
            }
        }
        g
    }

    /// Computes one node's value by memoized recursion, exactly as the spec
    /// model `eval_node` describes: the provisional zero recorded before the
    /// descent makes the unset count shrink, which bounds the recursion.
    fn calculate_node(
        &self,
        node_id: u32,
        memo: &mut Vec<Option<u64>>,
        Ghost(fuel): Ghost<nat>,
    ) -> (value: u64)
        requires
            self.wf(),
            old(memo)@.len() == self.nodes@.len(),
            (node_id as int) < self.nodes@.len(),
            fuel >= unset_count(old(memo)@),
        ensures
            final(memo)@.len() == old(memo)@.len(),
            unset_count(final(memo)@) <= unset_count(old(memo)@),
            forall|k: int|
                0 <= k < old(memo)@.len() && old(memo)@[k] is Some ==> final(memo)@[k] is Some,
            forall|f: nat|
                f >= unset_count(old(memo)@) ==> (value, final(memo)@) == #[trigger] eval_node(
                    self.connections@,
                    old(memo)@,
                    node_id as int,
                    f,
                ),
        decreases fuel,
    {
        let idx = node_id as usize;
        let entry = memo[idx];
        if let Some(v) = entry {
            return v;
        }
        proof {
            lemma_unset_count_update(memo@, idx as int, ZERO_BITS);
        }
        memo[idx] = Some(ZERO_BITS);
        let ghost marked = memo@;
        let mut sum: u64 = ZERO_BITS;
        let mut j: usize = 0;
        while j < self.connections.len()
            invariant
                self.wf(),
                old(memo)@.len() == self.nodes@.len(),
                (node_id as int) < self.nodes@.len(),
                j <= self.connections@.len(),
                memo@.len() == marked.len(),
                marked.len() == old(memo)@.len(),
                unset_count(marked) + 1 == unset_count(old(memo)@),
                fuel >= unset_count(old(memo)@),
                unset_count(memo@) <= unset_count(marked),
                forall|k: int| 0 <= k < marked.len() && marked[k] is Some ==> memo@[k] is Some,
                forall|f: nat|
                    f >= unset_count(marked) ==> eval_incoming(
                        self.connections@,
                        marked,
                        node_id as int,
                        0,
                        ZERO_BITS,
                        f,
                    ) == #[trigger] eval_incoming(
                        self.connections@,
                        memo@,
                        node_id as int,
                        j as int,
                        sum,
                        f,
                    ),
            decreases self.connections@.len() - j,
        {
            let c = self.connections[j];
            if c.enabled && c.out_node.0 == node_id {
                let ghost memo_pre = memo@;
                let ghost sum_pre = sum;
                let v = self.calculate_node(c.in_node.0, memo, Ghost((fuel - 1) as nat));
                sum = add_bits(sum, mul_bits(v, c.weight));
                proof {
                    assert forall|f: nat| f >= unset_count(marked) implies eval_incoming(
                        self.connections@,
                        marked,
                        node_id as int,
                        0,
                        ZERO_BITS,
                        f,
                    ) == eval_incoming(
                        self.connections@,
                        memo@,
                        node_id as int,
                        j + 1,
                        sum,
                        f,
                    ) by {
                        assert(eval_incoming(
                            self.connections@,
                            marked,
                            node_id as int,
                            0,
                            ZERO_BITS,
                            f,
                        ) == eval_incoming(
                            self.connections@,
                            memo_pre,
                            node_id as int,
                            j as int,
                            sum_pre,
                            f,
                        ));
                        assert((v, memo@) == eval_node(
                            self.connections@,
                            memo_pre,
                            c.in_node.0 as int,
                            f,
                        ));
                    }
                }
            } else {
                let ghost memo_pre = memo@;
                proof {
                    assert forall|f: nat| f >= unset_count(marked) implies eval_incoming(
                        self.connections@,
                        marked,
                        node_id as int,
                        0,
                        ZERO_BITS,
                        f,
                    ) == eval_incoming(
                        self.connections@,
                        memo@,
                        node_id as int,
                        j + 1,
                        sum,
                        f,
                    ) by {
                        assert(eval_incoming(
                            self.connections@,
                            marked,
                            node_id as int,
                            0,
                            ZERO_BITS,
                            f,
                        ) == eval_incoming(
                            self.connections@,
                            memo_pre,
                            node_id as int,
                            j as int,
                            sum,
                            f,
                        ));
                        assert(!(self.connections@[j as int].enabled
                            && self.connections@[j as int].out_node.0 == node_id));
                    }
                }
            }
            j = j + 1;
        }
        let ghost folded_memo = memo@;
        let value = activation(sum);
        proof {
            lemma_unset_count_update(memo@, idx as int, value);
        }
        memo[idx] = Some(value);
        proof {
            assert forall|f: nat| f >= unset_count(old(memo)@) implies (value, memo@)
                == #[trigger] eval_node(self.connections@, old(memo)@, node_id as int, f) by {
                assert(f >= 1);
                assert(marked == old(memo)@.update(node_id as int, Some(ZERO_BITS)));
                assert((f - 1) as nat >= unset_count(marked));
                assert(eval_incoming(
                    self.connections@,
                    folded_memo,
                    node_id as int,
                    self.connections@.len() as int,
                    sum,
                    (f - 1) as nat,
                ) == (sum, folded_memo));
                assert(eval_incoming(
                    self.connections@,
                    marked,
                    node_id as int,
                    0,
                    ZERO_BITS,
                    (f - 1) as nat,
                ) == (sum, folded_memo));
            }
            assert forall|k: int|
                0 <= k < old(memo)@.len() && old(memo)@[k] is Some implies memo@[k] is Some by {
                assert(marked[k] is Some);
                assert(folded_memo[k] is Some);
            }
        }
        value
    }

    /// Evaluates the network on two input values, given as the bit patterns
    /// of doubles: seeds input nodes zero and one with them, then resolves
    /// the designated output node, id two.
    pub fn calculate_output(&self, a: u64, b: u64) -> (r: u64)
        requires
            self.wf(),
            self.nodes@.len() >= 3,
        ensures
            r == output_of(*self, a, b),
    {
        let n = self.nodes.len();
        let mut memo: Vec<Option<u64>> = Vec::new();
        memo.push(Some(a));
        memo.push(Some(b));
        proof {
            reveal_with_fuel(unset_count, 3);
            assert(memo@.drop_last().drop_last() =~= Seq::<Option<u64>>::empty());
            assert(unset_count(memo@) == 0);
        }
        while memo.len() < n
            invariant
                2 <= memo@.len() <= n,
                n == self.nodes@.len(),
                unset_count(memo@) == memo@.len() - 2,
                memo@[0] == Some(a),
                memo@[1] == Some(b),
                forall|k: int| 2 <= k < memo@.len() ==> memo@[k] is None,
            decreases n - memo@.len(),
        {
            let ghost pre = memo@;
            memo.push(None);
            proof {
                assert(memo@.drop_last() =~= pre);
            }
        }
        proof {
            assert(memo@ =~= seeded_memo(self.nodes@.len(), a, b));
        }
        let r = self.calculate_node(2, &mut memo, Ghost(self.nodes@.len()));
        proof {
            assert((r, memo@) == eval_node(
                self.connections@,
                seeded_memo(self.nodes@.len(), a, b),
                2,
                self.nodes@.len(),
            ));
        }
        r
    }

    /// The fitness over the fixed XOR truth table: one over the accumulated
    /// absolute error plus a small positive epsilon.
    pub fn calculate_fitness(&self) -> (r: u64)
        requires
            self.wf(),
            self.nodes@.len() >= 3,
        ensures
            r == fitness_of(*self),
    {
        let mut total: u64 = ZERO_BITS;
        let out_ff = self.calculate_output(ZERO_BITS, ZERO_BITS);
        total = add_bits(total, magnitude_bits(sub_bits(ZERO_BITS, out_ff)));
        let out_ft = self.calculate_output(ZERO_BITS, ONE_BITS);
        total = add_bits(total, magnitude_bits(sub_bits(ONE_BITS, out_ft)));
        let out_tf = self.calculate_output(ONE_BITS, ZERO_BITS);
        total = add_bits(total, magnitude_bits(sub_bits(ONE_BITS, out_tf)));
        let out_tt = self.calculate_output(ONE_BITS, ONE_BITS);
        total = add_bits(total, magnitude_bits(sub_bits(ZERO_BITS, out_tt)));
        div_bits(ONE_BITS, add_bits(total, EPSILON_BITS))
    }

    /// Flips the enabled flag of one connection picked uniformly at random.
    pub fn mutate_connection_status(&self) -> (child: Genome)
        requires
            self.wf(),
            self.connections@.len() >= 1,
        ensures
            child.wf(),
            exists|k: int| status_toggled(*self, child, k),
            is_mutation_of(*self, child),
            child.nodes@.len() == self.nodes@.len(),
            child.connections@.len() == self.connections@.len(),
    {
        let k = random_index(self.connections.len());
        let mut connections = copy_genes(&self.connections);
        let c = connections[k];
        connections[k] = ConnectionGene {
            in_node: c.in_node,
            out_node: c.out_node,
            weight: c.weight,
            enabled: !c.enabled,
        };
        let child = Genome { nodes: copy_genes(&self.nodes), connections };
        proof {
            assert(status_toggled(*self, child, k as int));
            assert(child.wf()) by {
                assert(forall|j: int|
                    0 <= j < child.connections@.len() ==> (#[trigger] child.connections@[j])
                        == if j == k {
                        with_enabled(self.connections@[k as int], !self.connections@[k as int].enabled)
                    } else {
                        self.connections@[j]
                    });
            }
        }
        child
    }

    /// Adds a random perturbation to the weight of one connection picked
    /// uniformly at random.
    pub fn mutate_perturbate_connection_weight(&self) -> (child: Genome)
        requires
            self.wf(),
            self.connections@.len() >= 1,
        ensures
            child.wf(),
            exists|k: int, raw: u64| weight_perturbed(*self, child, k, raw),
            is_mutation_of(*self, child),
            child.nodes@.len() == self.nodes@.len(),
            child.connections@.len() == self.connections@.len(),
    {
        let k = random_index(self.connections.len());
        let d = random_delta();
        let mut connections = copy_genes(&self.connections);
        let c = connections[k];
        let w = add_bits(c.weight, d);
        connections[k] = ConnectionGene {
            in_node: c.in_node,
            out_node: c.out_node,
            weight: w,
            enabled: c.enabled,
        };
        let child = Genome { nodes: copy_genes(&self.nodes), connections };
        proof {
            let raw = choose|raw: u64| d == delta_of(raw);
            assert(weight_perturbed(*self, child, k as int, raw));
            assert(child.wf()) by {
                assert(forall|j: int|
                    0 <= j < child.connections@.len() ==> (#[trigger] child.connections@[j])
                        == if j == k {
                        with_weight(
                            self.connections@[k as int],
                            add_of(self.connections@[k as int].weight, delta_of(raw)),
                        )
                    } else {
                        self.connections@[j]
                    });
            }
        }
        child
    }

    /// Overwrites the weight of one connection picked uniformly at random
    /// with a fresh uniform weight.
    pub fn mutate_replace_connection_weight(&self) -> (child: Genome)
        requires
            self.wf(),
            self.connections@.len() >= 1,
        ensures
            child.wf(),
            exists|k: int, raw: u64| weight_replaced(*self, child, k, raw),
            is_mutation_of(*self, child),
            child.nodes@.len() == self.nodes@.len(),
            child.connections@.len() == self.connections@.len(),
    {
        let k = random_index(self.connections.len());
        let w = random_weight();
        let mut connections = copy_genes(&self.connections);
        let c = connections[k];
        connections[k] = ConnectionGene {
            in_node: c.in_node,
            out_node: c.out_node,
            weight: w,
            enabled: c.enabled,
        };
        let child = Genome { nodes: copy_genes(&self.nodes), connections };
        proof {
            let raw = choose|raw: u64| w == weight_of(raw);
            assert(weight_replaced(*self, child, k as int, raw));
            assert(child.wf()) by {
                assert(forall|j: int|
                    0 <= j < child.connections@.len() ==> (#[trigger] child.connections@[j])
                        == if j == k {
                        with_weight(self.connections@[k as int], weight_of(raw))
                    } else {
                        self.connections@[j]
                    });
            }
        }
        child
    }

    /// Appends one enabled connection between two nodes picked independently
    /// and uniformly at random; the pair may be identical or already
    /// connected, so self-loops and duplicates can arise.
    pub fn mutate_add_connection(&self) -> (child: Genome)
        requires
            self.wf(),
            self.nodes@.len() >= 1,
        ensures
            child.wf(),
            exists|s: int, t: int, raw: u64| connection_added(*self, child, s, t, raw),
            is_mutation_of(*self, child),
            child.nodes@.len() == self.nodes@.len(),
            child.connections@.len() == self.connections@.len() + 1,
    {
        let s = random_index(self.nodes.len());
        let t = random_index(self.nodes.len());
        let w = random_weight();
        let mut connections = copy_genes(&self.connections);
        connections.push(ConnectionGene {
            in_node: self.nodes[s].id,
            out_node: self.nodes[t].id,
            weight: w,
            enabled: true,
        });
        let child = Genome { nodes: copy_genes(&self.nodes), connections };
        proof {
            let raw = choose|raw: u64| w == weight_of(raw);
            assert(connection_added(*self, child, s as int, t as int, raw));
        }
        child
    }

    /// Splits one connection picked uniformly at random: disables it, mints
    /// one fresh hidden node, and appends the two enabled connections that
    /// route around the disabled one.
    pub fn mutate_add_node(&self) -> (child: Genome)
        requires
            self.wf(),
            self.connections@.len() >= 1,
            self.nodes@.len() < u32::MAX,
        ensures
            child.wf(),
            exists|k: int| node_added(*self, child, k),
            is_mutation_of(*self, child),
            child.nodes@.len() == self.nodes@.len() + 1,
            child.connections@.len() == self.connections@.len() + 2,
    {
        let k = random_index(self.connections.len());
        let mut nodes = copy_genes(&self.nodes);
        let mut connections = copy_genes(&self.connections);
        let c = connections[k];
        connections[k] = ConnectionGene {
            in_node: c.in_node,
            out_node: c.out_node,
            weight: c.weight,
            enabled: false,
        };
        let fresh = NodeId(nodes.len() as u32);
        nodes.push(NodeGene { id: fresh, node_type: NodeType::Hidden });
        connections.push(ConnectionGene {
            in_node: c.in_node,
            out_node: fresh,
            weight: ONE_BITS,
            enabled: true,
        });
        connections.push(ConnectionGene {
            in_node: fresh,
            out_node: c.out_node,
            weight: c.weight,
            enabled: true,
        });
        let child = Genome { nodes, connections };
        proof {
            assert(node_added(*self, child, k as int));
            assert(child.wf()) by {
                let disabled = self.connections@.update(
                    k as int,
                    with_enabled(self.connections@[k as int], false),
                );
                assert(forall|j: int|
                    0 <= j < disabled.len() ==> (#[trigger] disabled[j]) == if j == k {
                        with_enabled(self.connections@[k as int], false)
                    } else {
                        self.connections@[j]
                    });
            }
        }
        child
    }

    /// Applies one of the five mutation operators, chosen uniformly at
    /// random, to a full copy of the receiver and returns the derived
    /// genome; the receiver is never changed.
    pub fn mutate(&self) -> (child: Genome)
        requires
            self.wf(),
            self.nodes@.len() >= 1,
            self.nodes@.len() < u32::MAX,
            self.connections@.len() >= 1,
        ensures
            child.wf(),
            is_mutation_of(*self, child),
            self.nodes@.len() <= child.nodes@.len() <= self.nodes@.len() + 1,
            self.connections@.len() <= child.connections@.len() <= self.connections@.len() + 2,
    {
        let op = random_operator(5);
        if op == 0 {
            self.mutate_connection_status()
        } else if op == 1 {
            self.mutate_perturbate_connection_weight()
        } else if op == 2 {
            self.mutate_replace_connection_weight()
        } else if op == 3 {
            self.mutate_add_connection()
        } else {
            self.mutate_add_node()
        }
    }
}

} // verus!
