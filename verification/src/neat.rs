//! The evolution driver: builds a population, scores it on the XOR
//! benchmark, and advances it for a fixed number of generations by breeding
//! every member of the next population from the fittest genome.

use vstd::prelude::*;
use crate::arith::{gt_of, gt_bits, ZERO_BITS};
use crate::gene::{Genome, is_mutation_of, fitness_of};

verus! {

/// How many generations one run advances the population.
pub const GENERATIONS: u32 = 10;

/// A genome the driver can score and breed from: well formed, with the three
/// nodes the XOR benchmark addresses, at least one connection for the
/// operators that pick one, and room left in the id space for a fresh node.
pub open spec fn viable(g: Genome) -> bool {
    &&& g.wf()
    &&& g.nodes@.len() >= 3
    &&& g.nodes@.len() < u32::MAX
    &&& g.connections@.len() >= 1
}

/// The selection fold of the driver, from position `j` on: a running best
/// that starts at fitness zero and nothing selected, replaced only where a
/// fitness is strictly greater than the best so far.
pub open spec fn best_index_from(
    fits: Seq<u64>,
    j: int,
    best_fit: u64,
    best: Option<int>,
) -> Option<int>
    decreases fits.len() - j,
{
    if !(0 <= j < fits.len()) {
        best
    } else if gt_of(fits[j], best_fit) {
        best_index_from(fits, j + 1, fits[j], Some(j))
    } else {
        best_index_from(fits, j + 1, best_fit, best)
    }
}

/// The index the selection fold picks over a whole fitness list; nothing is
/// picked where no fitness ever exceeds zero, as when every fitness is NaN.
pub open spec fn best_index(fits: Seq<u64>) -> Option<int> {
    best_index_from(fits, 0, ZERO_BITS, None)
}

/// The fitness of every genome of a population, in order.
pub open spec fn fitness_seq(pop: Seq<Genome>) -> Seq<u64> {
    pop.map(|i: int, g: Genome| fitness_of(g))
}

/// The position the next generation is bred from: the selected index, or the
/// first genome where nothing was selected.
pub open spec fn chosen_parent(pop: Seq<Genome>) -> int {
    match best_index(fitness_seq(pop)) {
        Some(b) => b,
        None => 0,
    }
}

/// Whatever index the selection fold returns lies inside the list, provided
/// the running best does.
proof fn lemma_best_index_from_range(fits: Seq<u64>, j: int, best_fit: u64, best: Option<int>)
    requires
        best is Some ==> 0 <= best->0 < fits.len(),
    ensures
        best_index_from(fits, j, best_fit, best) is Some ==> 0 <= best_index_from(
            fits,
            j,
            best_fit,
            best,
        )->0 < fits.len(),
    decreases fits.len() - j,
{
    if 0 <= j < fits.len() {
        if gt_of(fits[j], best_fit) {
            lemma_best_index_from_range(fits, j + 1, fits[j], Some(j));
        } else {
            lemma_best_index_from_range(fits, j + 1, best_fit, best);
        }
    }
}

/// The spec view of the running selection state.
pub open spec fn opt_index(o: Option<usize>) -> Option<int> {
    match o {
        Some(v) => Some(v as int),
        None => None,
    }
}

/// The descendant lies exactly `steps` mutations below the ancestor.
pub open spec fn mutation_descendant(ancestor: Genome, descendant: Genome, steps: nat) -> bool
    decreases steps,
{
    if steps == 0 {
        descendant == ancestor
    } else {
        exists|middle: Genome|
            is_mutation_of(ancestor, middle) && mutation_descendant(
                middle,
                descendant,
                (steps - 1) as nat,
            )
    }
}

/// A mutation of a descendant is a descendant one step deeper.
proof fn lemma_descendant_step(ancestor: Genome, descendant: Genome, child: Genome, steps: nat)
    requires
        mutation_descendant(ancestor, descendant, steps),
        is_mutation_of(descendant, child),
    ensures
        mutation_descendant(ancestor, child, steps + 1),
    decreases steps,
{
    if steps == 0 {
        assert(mutation_descendant(child, child, 0));
    } else {
        let middle = choose|middle: Genome|
            is_mutation_of(ancestor, middle) && mutation_descendant(
                middle,
                descendant,
                (steps - 1) as nat,
            );
        lemma_descendant_step(middle, descendant, child, (steps - 1) as nat);
    }
}

/// What the initializer guarantees of a genome's shape; its weights are
/// random and so not pinned here.
pub open spec fn initial_shape(g: Genome, input_size: int, output_size: int) -> bool {
    &&& g.wf()
    &&& g.nodes@.len() == input_size + output_size
    &&& g.connections@.len() == input_size * output_size
}

/// The genome lies exactly `steps` mutations below some genome of the
/// initial shape.
pub open spec fn descends_from_initial(g: Genome, input_size: int, output_size: int, steps: nat) -> bool {
    exists|root: Genome| initial_shape(root, input_size, output_size) && mutation_descendant(root, g, steps)
}

/// Advances the population one generation: scores every genome, picks the
/// one the selection fold chooses, and breeds `population_size` independent
/// mutated children from it.
pub fn generation(population_size: u32, population: &Vec<Genome>) -> (next: Vec<Genome>)
    requires
        population@.len() >= 1,
        forall|i: int| 0 <= i < population@.len() ==> viable(#[trigger] population@[i]),
    ensures
        next@.len() == population_size,
        0 <= chosen_parent(population@) < population@.len(),
        forall|i: int|
            0 <= i < next@.len() ==> {
                let parent = population@[chosen_parent(population@)];
                &&& is_mutation_of(parent, #[trigger] next@[i])
                &&& next@[i].wf()
                &&& parent.nodes@.len() <= next@[i].nodes@.len() <= parent.nodes@.len() + 1
                &&& next@[i].connections@.len() >= parent.connections@.len()
            },
{
    let ghost fits = fitness_seq(population@);
    let mut best_fit: u64 = ZERO_BITS;
    let mut best: Option<usize> = None;
    let mut i: usize = 0;
    while i < population.len()
        invariant
            forall|q: int| 0 <= q < population@.len() ==> viable(#[trigger] population@[q]),
            i <= population@.len(),
            fits == fitness_seq(population@),
            fits.len() == population@.len(),
            best is Some ==> best->0 < population@.len(),
            best_index(fits) == best_index_from(fits, i as int, best_fit, opt_index(best)),
        decreases population@.len() - i,
    {
        let f = population[i].calculate_fitness();
        proof {
            assert(fits[i as int] == fitness_of(population@[i as int]));
        }
        if gt_bits(f, best_fit) {
            best_fit = f;
            best = Some(i);
        }
        i = i + 1;
    }
    let parent_index: usize = match best {
        Some(b) => b,
        None => 0,
    };
    proof {
        lemma_best_index_from_range(fits, population@.len() as int, best_fit, opt_index(best));
        assert(parent_index as int == chosen_parent(population@));
    }
    let parent = &population[parent_index];
    let mut next: Vec<Genome> = Vec::new();
    while next.len() < population_size as usize
        invariant
            next@.len() <= population_size,
            parent_index as int == chosen_parent(population@),
            parent_index < population@.len(),
            *parent == population@[parent_index as int],
            viable(*parent),
            forall|q: int|
                0 <= q < next@.len() ==> {
                    &&& is_mutation_of(*parent, #[trigger] next@[q])
                    &&& next@[q].wf()
                    &&& parent.nodes@.len() <= next@[q].nodes@.len() <= parent.nodes@.len() + 1
                    &&& next@[q].connections@.len() >= parent.connections@.len()
                },
        decreases population_size - next@.len(),
    {
        next.push(parent.mutate());
    }
    next
}

/// Runs the whole evolution: builds `population_size` initial genomes of the
/// given shape and advances them for the fixed number of generations,
/// returning the final population.
pub fn run(population_size: u32, input_size: u32, output_size: u32) -> (population: Vec<Genome>)
    requires
        population_size >= 1,
        input_size >= 1,
        output_size >= 1,
        input_size + output_size >= 3,
        input_size + output_size + GENERATIONS < u32::MAX,
    ensures
        population@.len() == population_size,
        forall|i: int| 0 <= i < population@.len() ==> viable(#[trigger] population@[i]),
        forall|i: int|
            0 <= i < population@.len() ==> descends_from_initial(
                #[trigger] population@[i],
                input_size as int,
                output_size as int,
                GENERATIONS as nat,
            ),
{
    let mut population: Vec<Genome> = Vec::new();
    while population.len() < population_size as usize
        invariant
            input_size >= 1,
            output_size >= 1,
            input_size + output_size >= 3,
            input_size + output_size + GENERATIONS < u32::MAX,
            population@.len() <= population_size,
            forall|i: int|
                0 <= i < population@.len() ==> {
                    &&& (#[trigger] population@[i]).wf()
                    &&& population@[i].nodes@.len() == input_size + output_size
                    &&& population@[i].connections@.len() == input_size * output_size
                },
        decreases population_size - population@.len(),
    {
        population.push(Genome::new(input_size, output_size));
    }
    proof {
        assert(input_size * output_size >= 1) by (nonlinear_arith)
            requires
                input_size >= 1,
                output_size >= 1,
        ;
    }
    let mut g: u32 = 0;
    proof {
        assert forall|i: int| 0 <= i < population@.len() implies descends_from_initial(
            #[trigger] population@[i],
            input_size as int,
            output_size as int,
            g as nat,
        ) by {
            assert(mutation_descendant(population@[i], population@[i], g as nat));
            assert(initial_shape(population@[i], input_size as int, output_size as int));
        }
    }
    while g < GENERATIONS
        invariant
            g <= GENERATIONS,
            population_size >= 1,
            input_size + output_size >= 3,
            input_size + output_size + GENERATIONS < u32::MAX,
            population@.len() == population_size,
            forall|i: int|
                0 <= i < population@.len() ==> {
                    &&& viable(#[trigger] population@[i])
                    &&& population@[i].nodes@.len() <= input_size + output_size + g
                },
            forall|i: int|
                0 <= i < population@.len() ==> descends_from_initial(
                    #[trigger] population@[i],
                    input_size as int,
                    output_size as int,
                    g as nat,
                ),
        decreases GENERATIONS - g,
    {
        let ghost previous = population@;
        let next = generation(population_size, &population);
        population = next;
        proof {
            let c = chosen_parent(previous);
            assert(descends_from_initial(previous[c], input_size as int, output_size as int, g as nat));
            let root = choose|root: Genome|
                initial_shape(root, input_size as int, output_size as int)
                    && mutation_descendant(root, previous[c], g as nat);
            assert forall|i: int| 0 <= i < population@.len() implies descends_from_initial(
                #[trigger] population@[i],
                input_size as int,
                output_size as int,
                (g + 1) as nat,
            ) by {
                lemma_descendant_step(root, previous[c], population@[i], g as nat);
                assert(mutation_descendant(root, population@[i], (g as nat) + 1));
                assert((g as nat) + 1 == (g + 1) as nat);
            }
        }
        g = g + 1;
    }
    proof {
        assert forall|i: int| 0 <= i < population@.len() implies descends_from_initial(
            #[trigger] population@[i],
            input_size as int,
            output_size as int,
            GENERATIONS as nat,
        ) by {
            assert(g == GENERATIONS);
            assert(descends_from_initial(
                population@[i],
                input_size as int,
                output_size as int,
                g as nat,
            ));
        }
    }
    population
}

} // verus!
