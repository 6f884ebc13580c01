use std::collections::BTreeMap;

use evolution::{
    Chance, Chromosome, CrossoverMethod, GaussianMutation, GeneticAlgorithm, Individual, MutationMethod,
    RouletteWheelSelection, SelectionMethod, UniformCrossover,
};
use rand::SeedableRng;
use rand_chacha::ChaCha8Rng;

#[derive(Clone, Debug)]
enum TestIndividual {
    WithChromosome { chromosome: Chromosome<f32> },
    WithFitness { fitness: f32 },
}

impl TestIndividual {
    fn new(fitness: f32) -> Self {
        Self::WithFitness { fitness }
    }
}

impl Individual<f32> for TestIndividual {
    fn create(chromosome: Chromosome<f32>) -> Self {
        Self::WithChromosome { chromosome }
    }

    fn chromosome(&self) -> &Chromosome<f32> {
        match self {
            Self::WithChromosome { chromosome } => chromosome,
            Self::WithFitness { .. } => panic!("No chromosome"),
        }
    }

    fn fitness(&self) -> f32 {
        match self {
            Self::WithChromosome { .. } => {
                self.chromosome().iter().sum::<f32>() / self.chromosome().len() as f32
            }
            Self::WithFitness { fitness } => *fitness,
        }
    }
}

fn seeded() -> ChaCha8Rng {
    ChaCha8Rng::from_seed(Default::default())
}

fn chromosome(genes: &[f32]) -> Chromosome<f32> {
    Chromosome::new(genes.to_vec())
}

fn close(a: f32, b: f32, epsilon: f32) -> bool {
    if a == b {
        return true;
    }
    if a.is_infinite() || b.is_infinite() {
        return false;
    }
    let diff = (a - b).abs();
    diff <= epsilon || diff <= a.abs().max(b.abs()) * f32::EPSILON
}

fn all_close(a: &[f32], b: &[f32], epsilon: f32) -> bool {
    a.len() == b.len() && a.iter().zip(b.iter()).all(|(x, y)| close(*x, *y, epsilon))
}

fn mutated(chance: Chance, coeff: f32) -> Vec<f32> {
    let mut rng = seeded();
    let mut child = chromosome(&[1.0, 2.0, 3.0, 4.0, 5.0]);
    GaussianMutation::new(chance, coeff).mutate(&mut rng, &mut child);
    child.into_genes()
}

fn chance(numerator: u32, denominator: u32) -> Chance {
    Chance::new(numerator, denominator).unwrap()
}

#[test]
fn roulette_wheel_selection() {
    let mut rng = seeded();
    let population = vec![
        TestIndividual::new(1.0),
        TestIndividual::new(2.0),
        TestIndividual::new(3.0),
        TestIndividual::new(4.0),
    ];
    let actual = RouletteWheelSelection.select(&mut rng, &population);
    assert!(actual.fitness() == population[1].fitness());

    let mut histogram = BTreeMap::new();
    for _ in 0..1000 {
        let fitness = RouletteWheelSelection.select(&mut rng, &population).fitness() as i32;
        *histogram.entry(fitness).or_insert(0) += 1;
    }
    let expected: BTreeMap<i32, i32> = vec![(1, 102), (2, 198), (3, 301), (4, 399)].into_iter().collect();
    assert_eq!(histogram, expected);
}

#[test]
fn uniform_crossover() {
    let mut rng = seeded();
    let parent_a = Chromosome::new((1..=100).map(|n| n as f32).collect());
    let parent_b = Chromosome::new((1..=100).map(|n| -n as f32).collect());
    let child = UniformCrossover.crossover(&mut rng, &parent_a, &parent_b);

    let diff_a = child.iter().zip(parent_a.iter()).filter(|(c, p)| c != p).count();
    let diff_b = child.iter().zip(parent_b.iter()).filter(|(c, p)| c != p).count();
    assert_eq!(diff_a, 49);
    assert_eq!(diff_b, 51);
}

#[test]
fn lib_does_not_change_the_original_chromosome() {
    let expected = vec![1.0, 2.0, 3.0, 4.0, 5.0];
    // zero chance, zero and non-zero coefficient
    assert!(all_close(&mutated(chance(0, 1), 0.0), &expected, f32::EPSILON));
    assert!(all_close(&mutated(chance(0, 1), 0.5), &expected, f32::EPSILON));
    // half chance, zero coefficient
    assert!(all_close(&mutated(chance(1, 2), 0.0), &expected, f32::EPSILON));
    // full chance, zero coefficient
    assert!(all_close(&mutated(chance(1, 1), 0.0), &expected, f32::EPSILON));
}

#[test]
fn slightly_changes_the_original_chromosome() {
    let actual = mutated(chance(1, 2), 0.5);
    let expected = vec![1.0, 2.0, 3.0, 4.0, 5.0];
    assert!(all_close(&actual, &expected, 0.5));
}

#[test]
fn entirely_change_the_original_chromosome() {
    let actual = mutated(chance(1, 1), 0.5);
    let expected = vec![1.0, 2.0, 3.0, 4.0, 5.0];
    assert!(all_close(&actual, &expected, 0.5));
}

#[test]
fn genetic_algorithm() {
    fn individual(genes: &[f32]) -> TestIndividual {
        TestIndividual::create(chromosome(genes))
    }
    let mut rng = seeded();
    let ga = GeneticAlgorithm::new(
        RouletteWheelSelection,
        UniformCrossover,
        GaussianMutation::new(chance(1, 2), 0.5),
    );
    let mut population: Vec<TestIndividual> = vec![
        individual(&[0.0, 0.0, 0.0]),
        individual(&[1.0, 1.0, 1.0]),
        individual(&[1.0, 2.0, 1.0]),
        individual(&[1.0, 2.0, 4.0]),
    ];
    for _ in 0..10 {
        population = ga.evolve(&mut rng, &population);
    }
    let expected: Vec<TestIndividual> = vec![
        individual(&[0.4476949, 2.0648358, 4.3058133]),
        individual(&[1.2126867, 1.5538777, 2.886911]),
        individual(&[1.0617678, 2.265739, 4.428764]),
        individual(&[0.95909685, 2.4618788, 4.024733]),
    ];
    assert_eq!(population.len(), expected.len());
    for (actual, expected) in population.iter().zip(expected.iter()) {
        assert!(all_close(
            actual.chromosome().as_slice(),
            expected.chromosome().as_slice(),
            f32::EPSILON
        ));
    }
}

#[test]
fn selection_never_picks_a_member_of_zero_fitness() {
    let mut rng = seeded();
    let population = vec![TestIndividual::new(0.0), TestIndividual::new(5.0), TestIndividual::new(0.0)];
    for _ in 0..100 {
        let picked = RouletteWheelSelection.select(&mut rng, &population);
        assert_eq!(picked.fitness(), 5.0);
    }
}

#[test]
fn crossover_by_takes_each_gene_from_the_chosen_parent() {
    let a = chromosome(&[1.0, 2.0, 3.0, 4.0]);
    let b = chromosome(&[-1.0, -2.0, -3.0, -4.0]);
    let child = UniformCrossover.crossover_by(&[true, false, false, true], &a, &b);
    assert_eq!(child.as_slice(), &[1.0, -2.0, -3.0, 4.0]);
}

#[test]
fn crossover_keeps_the_length_and_takes_genes_from_the_parents() {
    let mut rng = seeded();
    let a = chromosome(&[1.0, 2.0, 3.0, 4.0, 5.0, 6.0, 7.0]);
    let b = chromosome(&[10.0, 20.0, 30.0, 40.0, 50.0, 60.0, 70.0]);
    let child = UniformCrossover.crossover(&mut rng, &a, &b);
    assert_eq!(child.len(), 7);
    for i in 0..7 {
        assert!(child.index(i) == a.index(i) || child.index(i) == b.index(i));
    }
    let empty = chromosome(&[]);
    assert_eq!(UniformCrossover.crossover(&mut rng, &empty, &empty).len(), 0);
}

#[test]
fn mutation_keeps_the_length() {
    let mut rng = seeded();
    let mut c = chromosome(&[0.5; 17]);
    GaussianMutation::new(chance(1, 1), 3.0).mutate(&mut rng, &mut c);
    assert_eq!(c.len(), 17);
}

#[test]
fn full_chance_changes_every_gene() {
    let actual = mutated(chance(1, 1), 0.5);
    let original = [1.0, 2.0, 3.0, 4.0, 5.0];
    for (a, o) in actual.iter().zip(original.iter()) {
        assert_ne!(a, o);
        assert!((a - o).abs() <= 0.5);
    }
}

#[test]
fn chance_must_be_a_probability() {
    assert!(Chance::new(0, 0).is_none());
    assert!(Chance::new(3, 2).is_none());
    let c = Chance::new(2, 3).unwrap();
    assert_eq!((c.numerator(), c.denominator()), (2, 3));
    assert!(Chance::new(0, 1).is_some());
    assert!(Chance::new(4, 4).is_some());
}

#[test]
fn gaussian_mutation_keeps_its_settings() {
    let m = GaussianMutation::new(chance(1, 4), 2.5f32);
    assert_eq!(m.chance(), chance(1, 4));
    assert_eq!(m.coeff(), 2.5);
}

#[test]
fn evolve_keeps_the_population_size() {
    let ga = GeneticAlgorithm::new(RouletteWheelSelection, UniformCrossover, GaussianMutation::new(chance(1, 2), 0.5));
    for size in [1usize, 2, 5, 9] {
        let mut rng = seeded();
        let population: Vec<TestIndividual> =
            (0..size).map(|i| TestIndividual::create(chromosome(&[i as f32 + 1.0, 2.0]))).collect();
        let next = ga.evolve(&mut rng, &population);
        assert_eq!(next.len(), size);
        assert!(next.iter().all(|n| n.chromosome().len() == 2));
    }
}

#[test]
fn same_seed_gives_the_same_generations() {
    let ga = GeneticAlgorithm::new(RouletteWheelSelection, UniformCrossover, GaussianMutation::new(chance(1, 3), 1.0));
    let start: Vec<TestIndividual> = (0..6)
        .map(|i| TestIndividual::create(chromosome(&[i as f32, 1.0 + i as f32, 2.0])))
        .collect();
    let run = || {
        let mut rng = seeded();
        let mut population = start.clone();
        for _ in 0..5 {
            population = ga.evolve(&mut rng, &population);
        }
        population
            .iter()
            .flat_map(|p| p.chromosome().iter().map(|g| g.to_bits()).collect::<Vec<u32>>())
            .collect::<Vec<u32>>()
    };
    assert_eq!(run(), run());
}

#[test]
fn chromosome_accessors() {
    let mut c = chromosome(&[1.0, 2.0, 3.0]);
    assert_eq!(c.len(), 3);
    assert_eq!(c.index(1), 2.0);
    c.set(1, 9.0);
    assert_eq!(c.as_slice(), &[1.0, 9.0, 3.0]);
    assert_eq!(c.iter().copied().collect::<Vec<f32>>(), vec![1.0, 9.0, 3.0]);
    let copy = c.clone();
    assert_eq!(copy.into_genes(), vec![1.0, 9.0, 3.0]);
}

#[test]
fn zero_chance_leaves_genes_bit_for_bit() {
    let mut rng = seeded();
    let mut c = chromosome(&[1.5, -2.25, 3.125]);
    let draws = GaussianMutation::new(chance(0, 7), 2.0).mutate_genes(&mut rng, &mut c);
    assert_eq!(draws, vec![None, None, None]);
    assert_eq!(c.as_slice(), &[1.5, -2.25, 3.125]);
}

#[test]
fn mutate_genes_reports_its_draws() {
    let mut rng = seeded();
    let original = [1.0f32, 2.0, 3.0, 4.0, 5.0, 6.0, 7.0, 8.0];
    let mut c = chromosome(&original);
    let coeff = 1.0f32;
    let draws = GaussianMutation::new(chance(1, 2), coeff).mutate_genes(&mut rng, &mut c);
    assert_eq!(draws.len(), original.len());
    assert!(draws.iter().any(|d| d.is_some()) && draws.iter().any(|d| d.is_none()));
    for i in 0..original.len() {
        match draws[i] {
            None => assert_eq!(c.index(i), original[i]),
            Some((negative, u)) => {
                let sign = if negative { -1.0f32 } else { 1.0 };
                assert!((0.0..1.0).contains(&u));
                assert_eq!(c.index(i), original[i] + sign * coeff * u);
            }
        }
    }
}

#[test]
fn full_chance_draws_for_every_gene() {
    let mut rng = seeded();
    let mut c = chromosome(&[0.0; 6]);
    let draws = GaussianMutation::new(chance(3, 3), 0.5).mutate_genes(&mut rng, &mut c);
    assert!(draws.iter().all(|d| d.is_some()));
}

#[test]
fn mutate_with_applies_the_given_draws() {
    let m = GaussianMutation::new(chance(1, 2), 2.0f32);
    let mut c = chromosome(&[1.0, 1.0, 1.0]);
    m.mutate_with(&mut c, &[Some((true, 0.25)), None, Some((false, 0.5))]);
    assert_eq!(c.as_slice(), &[0.5, 1.0, 2.0]);
}

#[test]
fn choose_index_never_picks_a_zero_weight() {
    let mut rng = seeded();
    let weights = [0.0f32, 2.0, 0.0, 1.0];
    let mut seen = [0usize; 4];
    for _ in 0..300 {
        seen[RouletteWheelSelection.choose_index(&mut rng, &weights)] += 1;
    }
    assert_eq!(seen[0], 0);
    assert_eq!(seen[2], 0);
    assert!(seen[1] > seen[3] && seen[3] > 0);
}

#[test]
fn selection_draws_like_choose_index() {
    let population = vec![TestIndividual::new(1.0), TestIndividual::new(2.0), TestIndividual::new(3.0)];
    let mut a = seeded();
    let mut b = seeded();
    for _ in 0..50 {
        let picked = RouletteWheelSelection.select(&mut a, &population).fitness();
        let index = RouletteWheelSelection.choose_index(&mut b, &[1.0f32, 2.0, 3.0]);
        assert_eq!(picked, population[index].fitness());
    }
}

#[test]
fn breed_keeps_the_length_and_with_zero_chance_equal_parents_reproduce() {
    let ga = GeneticAlgorithm::new(RouletteWheelSelection, UniformCrossover, GaussianMutation::new(chance(0, 1), 1.0));
    let mut rng = seeded();
    let p = chromosome(&[0.5, -1.5, 2.5, 4.0]);
    let child = ga.breed(&mut rng, &p, &p);
    assert_eq!(child.as_slice(), p.as_slice());
    let q = chromosome(&[9.0, 9.0, 9.0, 9.0]);
    assert_eq!(ga.breed(&mut rng, &p, &q).len(), 4);
}

#[test]
fn evolve_with_equal_parents_and_zero_chance_reproduces_the_genome() {
    let ga = GeneticAlgorithm::new(RouletteWheelSelection, UniformCrossover, GaussianMutation::new(chance(0, 1), 2.0));
    let mut rng = seeded();
    let population: Vec<TestIndividual> = (0..4).map(|_| TestIndividual::create(chromosome(&[1.0, 2.0, 3.0]))).collect();
    let next = ga.evolve(&mut rng, &population);
    assert_eq!(next.len(), 4);
    assert!(next.iter().all(|n| n.chromosome().as_slice() == &[1.0, 2.0, 3.0]));
}
