use axelrod_model_simulation::CultureMap;
use axelrod_model_simulation::Individual;
use axelrod_model_simulation::Point;
use axelrod_model_simulation::SimulationConfig;
use axelrod_model_simulation::SimulationError;
use axelrod_model_simulation::Territory;

fn lattice_of(columns: &[&[&[u32]]]) -> Territory {
    let width = columns.len() as u32;
    let height = columns[0].len() as u32;
    let mut territory = Vec::new();
    for (x, column) in columns.iter().enumerate() {
        let mut individuals = Vec::new();
        for (y, features) in column.iter().enumerate() {
            individuals.push(Individual::from_parts(
                Point::new(x as u32, y as u32),
                features.to_vec(),
                Vec::new(),
                0,
            ));
        }
        territory.push(individuals);
    }
    Territory::from_parts(width, height, territory)
}

fn entries(map: &CultureMap) -> Vec<(Vec<u32>, u64)> {
    (0..map.len()).map(|i| (map.culture_at(i).clone(), map.number_at(i))).collect()
}

fn sample() -> (Territory, SimulationConfig) {
    let lattice = lattice_of(&[
        &[&[1, 1], &[0, 2], &[1, 1]],
        &[&[0, 2], &[1, 1], &[3, 3]],
    ]);
    (lattice, SimulationConfig::from_seed(2, 4, 2, 3, 0, 1))
}

#[test]
fn a_culture_map_keeps_entries_in_order_of_entry() {
    let mut map = CultureMap::new();
    assert_eq!(map.len(), 0);
    assert_eq!(map.largest_number(), None);
    assert_eq!(map.insert(vec![1, 2], 5), None);
    assert_eq!(map.insert(vec![0, 0], 9), None);
    assert_eq!(map.insert(vec![1, 2], 7), Some(5));
    assert_eq!(map.len(), 2);
    assert_eq!(entries(&map), vec![(vec![1, 2], 7), (vec![0, 0], 9)]);
    assert_eq!(map.get(&vec![1, 2]), Some(7));
    assert_eq!(map.get(&vec![0, 0]), Some(9));
    assert_eq!(map.get(&vec![2, 1]), None);
    assert!(map.contains_key(&vec![0, 0]));
    assert!(!map.contains_key(&vec![0]));
    assert_eq!(map.largest_number(), Some(9));
}

#[test]
fn the_census_counts_each_culture_in_order_of_first_meeting() {
    let (lattice, config) = sample();
    let census = lattice.run_count_cultures(&config);
    assert_eq!(
        entries(&census),
        vec![(vec![1, 1], 3), (vec![0, 2], 2), (vec![3, 3], 1)]
    );
}

#[test]
fn the_census_counts_every_individual_once() {
    for &(w, h, seed) in &[(2u32, 2u32, 1u64), (3, 5, 2), (10, 10, 3), (7, 2, 4)] {
        let mut config = SimulationConfig::from_seed(3, 3, w, h, 2000, seed);
        let lattice = Territory::run_simulation(&mut config).unwrap();
        let census = lattice.run_count_cultures(&config);
        let population: u64 = entries(&census).iter().map(|(_, n)| *n).sum();
        assert_eq!(population, (w * h) as u64);
        for (culture, number) in entries(&census) {
            let counted = lattice
                .territory
                .iter()
                .flatten()
                .filter(|i| i.clone_cultural_features() == culture)
                .count();
            assert_eq!(number, counted as u64);
            assert!(number >= 1);
        }
    }
}

#[test]
fn the_largest_cluster_is_given_as_an_exact_fraction() {
    let (lattice, config) = sample();
    let census = lattice.run_count_cultures(&config);
    assert_eq!(Territory::calc_prop_pop_in_largest_cluster(&config, &census), (3, 6));
}

#[test]
fn the_fraction_divides_by_width_times_height() {
    let mut map = CultureMap::new();
    map.insert(vec![0], 4);
    map.insert(vec![1], 6);
    let config = SimulationConfig::from_seed(1, 2, 2, 5, 0, 1);
    assert_eq!(Territory::calc_prop_pop_in_largest_cluster(&config, &map), (6, 10));
}

#[test]
fn the_largest_cluster_holds_between_one_and_all() {
    for seed in 0..20u64 {
        let mut config = SimulationConfig::from_seed(3, 4, 4, 3, 300 * seed as usize, seed);
        let lattice = Territory::run_simulation(&mut config).unwrap();
        let census = lattice.run_count_cultures(&config);
        let (largest, population) =
            Territory::calc_prop_pop_in_largest_cluster(&config, &census);
        assert_eq!(population, 12);
        assert!(1 <= largest && largest <= population);
        let share = largest as f64 / population as f64;
        assert!(1.0 / 12.0 <= share && share <= 1.0);
    }
}

#[test]
fn cultures_are_labelled_from_one_in_order_of_first_meeting() {
    let (lattice, config) = sample();
    let labels = lattice.run_assign_label_to_cultures(&config);
    assert_eq!(
        entries(&labels),
        vec![(vec![1, 1], 1), (vec![0, 2], 2), (vec![3, 3], 3)]
    );
}

#[test]
fn individuals_take_the_label_of_their_culture() {
    let (mut lattice, config) = sample();
    let labels = lattice.run_assign_label_to_cultures(&config);
    assert_eq!(lattice.run_assign_label_to_individuals(&config, labels), Ok(()));
    let written: Vec<Vec<u64>> = lattice
        .territory
        .iter()
        .map(|column| column.iter().map(|i| i.culture_label()).collect())
        .collect();
    assert_eq!(written, vec![vec![1, 2, 1], vec![2, 1, 3]]);
    let kept: Vec<Vec<Vec<u32>>> = lattice
        .territory
        .iter()
        .map(|column| column.iter().map(|i| i.clone_cultural_features()).collect())
        .collect();
    assert_eq!(
        kept,
        vec![
            vec![vec![1, 1], vec![0, 2], vec![1, 1]],
            vec![vec![0, 2], vec![1, 1], vec![3, 3]]
        ]
    );
}

#[test]
fn labels_after_a_run_match_the_census() {
    let mut config = SimulationConfig::from_seed(3, 3, 5, 5, 3000, 25163);
    let mut lattice = Territory::run_simulation(&mut config).unwrap();
    let census = lattice.run_count_cultures(&config);
    let labels = lattice.run_assign_label_to_cultures(&config);
    assert_eq!(labels.len(), census.len());
    for i in 0..labels.len() {
        assert_eq!(labels.culture_at(i), census.culture_at(i));
        assert_eq!(labels.number_at(i), i as u64 + 1);
    }
    let lookup = labels.clone();
    assert_eq!(lattice.run_assign_label_to_individuals(&config, labels), Ok(()));
    for column in &lattice.territory {
        for individual in column {
            assert_eq!(
                Some(individual.culture_label()),
                lookup.get(&individual.clone_cultural_features())
            );
        }
    }
}

#[test]
fn a_missing_label_stops_the_labelling_before_it_writes() {
    let (mut lattice, config) = sample();
    let mut labels = CultureMap::new();
    labels.insert(vec![1, 1], 4);
    labels.insert(vec![0, 2], 5);
    assert_eq!(
        lattice.run_assign_label_to_individuals(&config, labels),
        Err(SimulationError::MissingLabel)
    );
    for column in &lattice.territory {
        for individual in column {
            assert_eq!(individual.culture_label(), 0);
        }
    }
    assert_eq!(
        lattice.run_assign_label_to_individuals(&config, CultureMap::new()),
        Err(SimulationError::MissingLabel)
    );
}
