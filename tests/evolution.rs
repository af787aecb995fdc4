use rand::rngs::StdRng;
use rand::SeedableRng;
use snake_evolution::member::Member;
use snake_evolution::nn_architecture::{Activation, NN_Architecture};
use snake_evolution::population::{EvolutionError, MixTarget, MixType, Mutation, Population, DEFAULT_ITERATIONS};
use snake_evolution::snakegame::{DeathCause, EpisodeResult};

/// A candidate whose genes are distinct numbers derived from `seed`.
fn generate_dummy_member(seed: u64) -> Member {
    let arch = NN_Architecture::new();
    let mut next = seed * 1_000_000;
    let mut weights = Vec::new();
    let mut biases = Vec::new();
    for layer in &arch.layers {
        let mut w = Vec::new();
        for _ in 0..layer.output_dim * layer.input_dim {
            next += 1;
            w.push(next);
        }
        weights.push(w);
        let mut b = Vec::new();
        for _ in 0..layer.output_dim {
            next += 1;
            b.push(next);
        }
        biases.push(b);
    }
    Member::new(weights, biases, 0)
}

fn with_fitness(seed: u64, fitness: usize) -> Member {
    let mut m = generate_dummy_member(seed);
    m.fitness = fitness;
    m
}

fn count_differences(a: &[Vec<u64>], b: &[Vec<u64>]) -> usize {
    a.iter().zip(b).map(|(x, y)| x.iter().zip(y).filter(|(p, q)| p != q).count()).sum()
}

#[test]
fn architecture_is_standard() {
    let arch = NN_Architecture::new();
    let dims: Vec<(usize, usize)> = arch.layers.iter().map(|l| (l.input_dim, l.output_dim)).collect();
    assert_eq!(dims, vec![(7, 32), (32, 64), (64, 3)]);
    assert_eq!(arch.layers[0].activation, Activation::Relu);
    assert_eq!(arch.layers[2].activation, Activation::Sigmoid);
}

#[test]
fn test_population_new_with_default_iterations() {
    let members = (0..5).map(generate_dummy_member).collect();
    let pop = Population::new(members, None);
    assert_eq!(pop.members.len(), 5);
    assert_eq!(pop.iterations, DEFAULT_ITERATIONS);
}

#[test]
fn test_population_new_with_custom_iterations() {
    let members = (0..3).map(generate_dummy_member).collect();
    let pop = Population::new(members, Some(42));
    assert_eq!(pop.members.len(), 3);
    assert_eq!(pop.iterations, 42);
}

#[test]
fn test_add_members() {
    let mut pop = Population::new((0..2).map(generate_dummy_member).collect(), None);
    let extra_members = vec![generate_dummy_member(7), generate_dummy_member(8)];
    pop.add_members(extra_members);
    assert_eq!(pop.members.len(), 4);
}

#[test]
fn test_best_members_sorted_by_fitness() {
    let mut pop = Population::new(Vec::new(), None);
    pop.add_members(vec![with_fitness(1, 10), with_fitness(2, 50), with_fitness(3, 30)]);
    let best = pop.best_members(2);

    assert_eq!(best.len(), 2);
    assert_eq!(best[0].fitness, 50);
    assert_eq!(best[1].fitness, 30);
    assert_eq!(best[0].weights, pop.members[1].weights);
    assert_eq!(best[1].weights, pop.members[2].weights);
}

#[test]
fn test_best_members_limited_by_quantity() {
    let mut pop = Population::new(Vec::new(), None);
    for i in 0..10 {
        pop.members.push(with_fitness(i as u64, i));
    }
    let best = pop.best_members(5);
    assert_eq!(best.len(), 5);
    assert_eq!(best[0].fitness, 9);
    assert_eq!(best[4].fitness, 5);
}

#[test]
fn best_members_keeps_order_of_equals_and_stops_at_population() {
    let pop = Population::new(vec![with_fitness(1, 4), with_fitness(2, 7), with_fitness(3, 4)], None);
    let order = Population::rank_order(&pop.members);
    assert_eq!(order, vec![1, 0, 2]);
    let best = pop.best_members(10);
    assert_eq!(best.len(), 3);
    assert_eq!(best[1].weights, pop.members[0].weights);
    assert_eq!(best[2].weights, pop.members[2].weights);
}

#[test]
fn test_cross_all_weights() {
    let mem1 = generate_dummy_member(1);
    let mem2 = generate_dummy_member(2);
    let mut rng = StdRng::seed_from_u64(11);

    let child = Population::cross_members(&mem1, &mem2, MixType::All, MixTarget::Weights, None, 0, &mut rng);

    assert_ne!(child.weights, mem1.weights);
    assert_eq!(child.weights, mem2.weights);
    assert_eq!(child.biases, mem1.biases);
}

#[test]
fn test_cross_single_biases() {
    let mem1 = generate_dummy_member(3);
    let mem2 = generate_dummy_member(4);
    let mut rng = StdRng::seed_from_u64(12);

    let child = Population::cross_members(&mem1, &mem2, MixType::Single, MixTarget::Biases, None, 0, &mut rng);

    assert_eq!(child.weights, mem1.weights);
    assert_ne!(child.biases, mem1.biases);
    assert_eq!(count_differences(&child.biases, &mem1.biases), 1);
}

#[test]
fn test_cross_both_with_mutation() {
    let mem1 = generate_dummy_member(5);
    let mem2 = generate_dummy_member(6);
    let mut rng = StdRng::seed_from_u64(13);
    let mutation = Mutation { weight_gene: u64::MAX, bias_gene: u64::MAX - 1 };

    let child = Population::cross_members(&mem1, &mem2, MixType::All, MixTarget::Both, Some(mutation), 0, &mut rng);

    assert_ne!(child.weights, mem1.weights);
    assert_ne!(child.biases, mem1.biases);
    assert_ne!(child.weights, mem2.weights);
    assert_ne!(child.biases, mem2.biases);
    assert_eq!(count_differences(&child.weights, &mem2.weights), 1);
    assert_eq!(count_differences(&child.biases, &mem2.biases), 1);
}

#[test]
fn crossing_a_candidate_with_itself_copies_it() {
    let a = generate_dummy_member(9);
    let mut rng = StdRng::seed_from_u64(1);
    let child = Population::cross_members(&a, &a, MixType::All, MixTarget::Both, None, 4, &mut rng);
    assert_eq!(child.weights, a.weights);
    assert_eq!(child.biases, a.biases);
    assert_eq!(child.generation, 4);
    assert_eq!(child.fitness, 0);
}

#[test]
fn single_weight_crossing_changes_at_most_one_weight() {
    let a = generate_dummy_member(1);
    let b = generate_dummy_member(2);
    for seed in 0..20 {
        let mut rng = StdRng::seed_from_u64(seed);
        let child = Population::cross_members(&a, &b, MixType::Single, MixTarget::Weights, None, 0, &mut rng);
        assert!(count_differences(&child.weights, &a.weights) <= 1);
        assert_eq!(child.biases, a.biases);
    }
}

#[test]
fn percentage_crossing_takes_each_gene_from_a_parent() {
    let a = generate_dummy_member(1);
    let b = generate_dummy_member(2);
    let mut rng = StdRng::seed_from_u64(5);
    let child = Population::cross_members(&a, &b, MixType::Percentage, MixTarget::Both, None, 0, &mut rng);
    for (i, row) in child.weights.iter().enumerate() {
        for (j, g) in row.iter().enumerate() {
            assert!(*g == a.weights[i][j] || *g == b.weights[i][j]);
        }
    }
    assert!(count_differences(&child.weights, &a.weights) > 0);
    assert!(count_differences(&child.weights, &b.weights) > 0);
}

#[test]
fn wheel_walks_cumulative_fitness() {
    let pool = vec![with_fitness(1, 10), with_fitness(2, 0), with_fitness(3, 5)];
    assert_eq!(Population::total_fitness(&pool), 15);
    assert_eq!(Population::select_by_wheel(&pool, 0), 0);
    assert_eq!(Population::select_by_wheel(&pool, 9), 0);
    assert_eq!(Population::select_by_wheel(&pool, 10), 2);
    assert_eq!(Population::select_by_wheel(&pool, 14), 2);
}

#[test]
fn sole_fit_member_is_always_selected() {
    let pool = vec![with_fitness(1, 0), with_fitness(2, 40), with_fitness(3, 0)];
    let mut rng = StdRng::seed_from_u64(2);
    for _ in 0..50 {
        let m = Population::select_proportional_by_fitness(&pool, &mut rng).expect("pool has fitness");
        assert_eq!(m.weights, pool[1].weights);
        assert_eq!(m.fitness, 40);
    }
}

#[test]
fn selection_errors() {
    let mut rng = StdRng::seed_from_u64(2);
    let empty: Vec<Member> = Vec::new();
    assert_eq!(Population::select_proportional_by_fitness(&empty, &mut rng).err(), Some(EvolutionError::EmptyPool));
    let zero = vec![with_fitness(1, 0), with_fitness(2, 0)];
    assert_eq!(Population::select_proportional_by_fitness(&zero, &mut rng).err(), Some(EvolutionError::ZeroFitness));
}

#[test]
fn crossovers_append_children_of_the_pool() {
    let pool = vec![with_fitness(1, 10), with_fitness(2, 20)];
    let mut pop = Population::new(vec![generate_dummy_member(7)], None);
    let fresh = vec![Mutation { weight_gene: 0, bias_gene: 0 }; 6];
    let mut rng = StdRng::seed_from_u64(8);
    assert_eq!(pop.add_crossovers_members(&pool, 6, 3, &fresh, &mut rng), Ok(()));
    assert_eq!(pop.members.len(), 7);
    for child in &pop.members[1..] {
        assert_eq!(child.generation, 3);
        assert_eq!(child.fitness, 0);
    }
}

#[test]
fn crossovers_from_unusable_pool_fail_without_change() {
    let mut pop = Population::new(vec![generate_dummy_member(7)], None);
    let mut rng = StdRng::seed_from_u64(8);
    let fresh = vec![Mutation { weight_gene: 0, bias_gene: 0 }; 2];
    assert_eq!(pop.add_crossovers_members(&Vec::new(), 2, 1, &fresh, &mut rng), Err(EvolutionError::EmptyPool));
    let zero = vec![with_fitness(1, 0)];
    assert_eq!(pop.add_crossovers_members(&zero, 2, 1, &fresh, &mut rng), Err(EvolutionError::ZeroFitness));
    assert_eq!(pop.members.len(), 1);
    assert_eq!(pop.add_crossovers_members(&Vec::new(), 0, 1, &fresh, &mut rng), Ok(()));
}

#[test]
fn reproduce_composes_next_generation() {
    let elites = vec![with_fitness(1, 30), with_fitness(2, 20)];
    let immigrants = vec![generate_dummy_member(40)];
    let fresh = vec![Mutation { weight_gene: 1, bias_gene: 2 }; 5];
    let mut rng = StdRng::seed_from_u64(4);
    let next = Population::reproduce(&elites, 5, immigrants, 9, Some(3), &fresh, &mut rng).expect("elites have fitness");
    assert_eq!(next.members.len(), 8);
    assert_eq!(next.members[0].weights, elites[0].weights);
    assert_eq!(next.members[1].fitness, 20);
    assert_eq!(next.members[7].weights, generate_dummy_member(40).weights);
    assert!(next.members[2..7].iter().all(|m| m.generation == 9));
    assert_eq!(next.iterations, 3);
}

#[test]
fn record_episodes_takes_mean_and_counts() {
    let mut m = generate_dummy_member(1);
    let results = vec![
        EpisodeResult { score: 10, apples_eaten: 1, cause: Some(DeathCause::Wall) },
        EpisodeResult { score: 25, apples_eaten: 0, cause: Some(DeathCause::Hunger) },
        EpisodeResult { score: 6, apples_eaten: 2, cause: Some(DeathCause::Wall) },
        EpisodeResult { score: 10000, apples_eaten: 3, cause: None },
    ];
    m.record_episodes(&results);
    assert_eq!(m.fitness, 10041 / 4);
    assert_eq!(m.killed_by_wall, 2);
    assert_eq!(m.killed_by_hunger, 1);
    assert_eq!(m.killed_by_myself, 0);
    assert_eq!(m.apples_eaten, 6);
    m.record_episodes(&Vec::new());
    assert_eq!(m.fitness, 0);
    assert_eq!(m.apples_eaten, 0);
}

#[test]
fn record_stats_sums_members() {
    let mut a = with_fitness(1, 10);
    a.killed_by_wall = 3;
    a.apples_eaten = 4;
    let mut b = with_fitness(2, 25);
    b.killed_by_hunger = 2;
    b.killed_by_myself = 1;
    let mut pop = Population::new(vec![a, b], None);
    assert_eq!(pop.record_stats(), 25);
    assert_eq!(pop.killed_by_wall, 3);
    assert_eq!(pop.killed_by_myself, 1);
    assert_eq!(pop.killed_by_hunger, 2);
    assert_eq!(pop.apples_eaten, 4);
    assert_eq!(pop.average_fitness, 17);
}
