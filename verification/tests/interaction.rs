use axelrod_model_simulation::interaction::adopt_trait;
use axelrod_model_simulation::interaction::count_shared_traits;
use axelrod_model_simulation::interaction::find_differing_features;
use axelrod_model_simulation::interaction::same_culture;
use axelrod_model_simulation::Individual;
use axelrod_model_simulation::Pcg64;
use axelrod_model_simulation::Point;
use axelrod_model_simulation::SimulationConfig;
use axelrod_model_simulation::SimulationError;
use rand::distributions::Bernoulli;
use rand::distributions::Distribution;
use rand::seq::SliceRandom;
use rand::SeedableRng;

fn individual(features: &[u32]) -> Individual {
    Individual::from_parts(Point::new(0, 0), features.to_vec(), vec![Point::new(0, 1)], 0)
}

#[test]
fn shared_traits_are_counted() {
    assert_eq!(count_shared_traits(&vec![1, 2, 3], &vec![1, 0, 3]), 2);
    assert_eq!(count_shared_traits(&vec![1, 2, 3], &vec![1, 2, 3]), 3);
    assert_eq!(count_shared_traits(&vec![1, 2, 3], &vec![3, 1, 2]), 0);
    assert_eq!(count_shared_traits(&vec![], &vec![]), 0);
}

#[test]
fn differing_features_are_listed_in_rising_order() {
    assert_eq!(find_differing_features(&vec![1, 2, 3], &vec![1, 0, 3]), vec![1]);
    assert_eq!(find_differing_features(&vec![1, 2, 3, 4], &vec![0, 2, 0, 0]), vec![0, 2, 3]);
    assert_eq!(find_differing_features(&vec![5, 5], &vec![5, 5]), Vec::<usize>::new());
}

#[test]
fn shared_and_differing_features_cover_the_culture() {
    let mine = vec![4, 0, 2, 2, 1, 3];
    let theirs = vec![4, 1, 2, 0, 1, 0];
    let shared = count_shared_traits(&mine, &theirs);
    let differing = find_differing_features(&mine, &theirs);
    assert_eq!(shared + differing.len(), mine.len());
}

#[test]
fn same_culture_tells_cultures_apart() {
    assert!(same_culture(&vec![1, 2], &vec![1, 2]));
    assert!(!same_culture(&vec![1, 2], &vec![1, 3]));
    assert!(!same_culture(&vec![1, 2], &vec![1, 2, 0]));
    assert!(same_culture(&vec![], &vec![]));
}

#[test]
fn adopting_a_trait_changes_one_feature() {
    let mut mine = vec![1, 2, 3];
    adopt_trait(&mut mine, &vec![7, 8, 9], 1);
    assert_eq!(mine, vec![1, 8, 3]);
}

#[test]
fn identical_cultures_do_not_interact_and_draw_nothing() {
    let mut config = SimulationConfig::from_seed(3, 5, 4, 4, 0, 7);
    let untouched = config.rng.clone();
    let mut mine = individual(&[2, 4, 1]);
    mine.interact(individual(&[2, 4, 1]), &mut config);
    assert_eq!(mine.clone_cultural_features(), vec![2, 4, 1]);
    assert!(config.rng == untouched);
}

#[test]
fn an_interaction_changes_at_most_one_differing_feature() {
    let mut config = SimulationConfig::from_seed(5, 10, 4, 4, 0, 99);
    let theirs = vec![1, 2, 3, 4, 5];
    let mut changed_once = false;
    for start in 0..200u32 {
        let before = vec![1, start % 3, 3, start % 5, 5];
        let mut mine = individual(&before);
        mine.interact(individual(&theirs), &mut config);
        let after = mine.clone_cultural_features();
        assert_eq!(after.len(), before.len());
        let changed: Vec<usize> = (0..before.len()).filter(|&i| after[i] != before[i]).collect();
        assert!(changed.len() <= 1);
        for &i in &changed {
            assert_ne!(before[i], theirs[i]);
            assert_eq!(after[i], theirs[i]);
            changed_once = true;
        }
    }
    assert!(changed_once);
}

#[test]
fn an_interaction_leaves_cell_neighbors_and_label() {
    let mut config = SimulationConfig::from_seed(2, 2, 3, 3, 0, 1);
    let mut mine =
        Individual::from_parts(Point::new(1, 2), vec![0, 1], vec![Point::new(0, 2)], 6);
    for _ in 0..20 {
        mine.interact(individual(&[1, 1]), &mut config);
    }
    assert_eq!(mine.location(), Point::new(1, 2));
    assert_eq!(mine.neighbors(), &vec![Point::new(0, 2)]);
    assert_eq!(mine.culture_label(), 6);
}

#[test]
fn an_interaction_draws_as_the_generator_does() {
    for seed in 0..50u64 {
        let mut config = SimulationConfig::from_seed(4, 9, 3, 3, 0, seed);
        let mut rng = Pcg64::seed_from_u64(seed);
        let before: Vec<u32> = vec![1, 2, 3, 4];
        let theirs: Vec<u32> = vec![1, 7, 3, 8];
        let mut mine = individual(&before);
        mine.interact(individual(&theirs), &mut config);

        let mut expected = before.clone();
        if Bernoulli::from_ratio(2, 4).unwrap().sample(&mut rng) {
            let feature = *[1usize, 3usize].choose(&mut rng).unwrap();
            expected[feature] = theirs[feature];
        }
        assert_eq!(mine.clone_cultural_features(), expected);
        assert!(config.rng == rng);
    }
}

#[test]
fn cultures_without_a_common_trait_never_interact() {
    let mut config = SimulationConfig::from_seed(3, 9, 3, 3, 0, 5);
    for _ in 0..100 {
        let mut mine = individual(&[1, 2, 3]);
        mine.interact(individual(&[4, 5, 6]), &mut config);
        assert_eq!(mine.clone_cultural_features(), vec![1, 2, 3]);
    }
}

#[test]
fn a_neighbor_is_chosen_among_the_neighbors() {
    let mut config = SimulationConfig::from_seed(2, 3, 5, 5, 0, 11);
    let mut rng = Pcg64::seed_from_u64(11);
    let neighbors =
        vec![Point::new(2, 1), Point::new(2, 3), Point::new(1, 2), Point::new(3, 2)];
    let mine = Individual::from_parts(Point::new(2, 2), vec![0, 0], neighbors.clone(), 0);
    let mut seen = [false; 4];
    for _ in 0..100 {
        let chosen = *mine.choose_random_neighbor(&mut config).unwrap();
        let expected = *neighbors.choose(&mut rng).unwrap();
        assert_eq!(chosen, expected);
        let at = neighbors.iter().position(|n| *n == chosen).unwrap();
        seen[at] = true;
    }
    assert_eq!(seen, [true; 4]);
    assert!(config.rng == rng);
}

#[test]
fn an_individual_without_neighbors_cannot_choose_one() {
    let mut config = SimulationConfig::from_seed(2, 3, 3, 3, 0, 11);
    let stranded = Individual::new(Point::new(5, 5), &mut config).unwrap();
    assert_eq!(stranded.neighbors().len(), 0);
    let untouched = config.rng.clone();
    assert_eq!(
        stranded.choose_random_neighbor(&mut config),
        Err(SimulationError::NoNeighbors)
    );
    assert!(config.rng == untouched);
}

#[test]
fn a_copy_of_an_individual_keeps_every_part() {
    let mine =
        Individual::from_parts(Point::new(3, 4), vec![2, 0, 1], vec![Point::new(3, 3)], 8);
    let copy = mine.clone();
    assert_eq!(copy.location(), Point::new(3, 4));
    assert_eq!(copy.clone_cultural_features(), vec![2, 0, 1]);
    assert_eq!(copy.neighbors(), &vec![Point::new(3, 3)]);
    assert_eq!(copy.culture_label(), 8);
}

#[test]
fn writing_a_label_leaves_the_rest() {
    let mut mine =
        Individual::from_parts(Point::new(3, 4), vec![2, 0, 1], vec![Point::new(3, 3)], 0);
    mine.set_culture_label(12);
    assert_eq!(mine.culture_label(), 12);
    assert_eq!(mine.location(), Point::new(3, 4));
    assert_eq!(mine.clone_cultural_features(), vec![2, 0, 1]);
    assert_eq!(mine.neighbors(), &vec![Point::new(3, 3)]);
}
