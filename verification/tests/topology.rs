use axelrod_model_simulation::neighbors_of;
use axelrod_model_simulation::Point;
use axelrod_model_simulation::SimulationError;

fn cells(points: &[(u32, u32)]) -> Vec<Point> {
    points.iter().map(|&(x, y)| Point::new(x, y)).collect()
}

#[test]
fn point_getters_return_the_coordinates() {
    let p = Point::new(3, 7);
    assert_eq!(p.x(), 3usize);
    assert_eq!(p.y(), 7usize);
    assert_eq!(p, Point { x: 3, y: 7 });
}

#[test]
fn corners_have_two_neighbors_in_order() {
    assert_eq!(neighbors_of(Point::new(0, 0), 3, 3).unwrap(), cells(&[(0, 1), (1, 0)]));
    assert_eq!(neighbors_of(Point::new(2, 2), 3, 3).unwrap(), cells(&[(2, 1), (1, 2)]));
    assert_eq!(neighbors_of(Point::new(0, 2), 3, 3).unwrap(), cells(&[(0, 1), (1, 2)]));
    assert_eq!(neighbors_of(Point::new(2, 0), 3, 3).unwrap(), cells(&[(2, 1), (1, 0)]));
}

#[test]
fn corners_follow_the_dimensions_of_any_lattice() {
    assert_eq!(neighbors_of(Point::new(0, 19), 12, 20).unwrap(), cells(&[(0, 18), (1, 19)]));
    assert_eq!(neighbors_of(Point::new(11, 0), 12, 20).unwrap(), cells(&[(11, 1), (10, 0)]));
    assert_eq!(neighbors_of(Point::new(11, 19), 12, 20).unwrap(), cells(&[(11, 18), (10, 19)]));
}

#[test]
fn rim_cells_have_three_neighbors_in_order() {
    assert_eq!(
        neighbors_of(Point::new(0, 2), 5, 4).unwrap(),
        cells(&[(0, 1), (0, 3), (1, 2)])
    );
    assert_eq!(
        neighbors_of(Point::new(4, 1), 5, 4).unwrap(),
        cells(&[(4, 0), (4, 2), (3, 1)])
    );
    assert_eq!(
        neighbors_of(Point::new(2, 0), 5, 4).unwrap(),
        cells(&[(1, 0), (3, 0), (2, 1)])
    );
    assert_eq!(
        neighbors_of(Point::new(3, 3), 5, 4).unwrap(),
        cells(&[(2, 3), (4, 3), (3, 2)])
    );
}

#[test]
fn inner_cells_have_four_neighbors_in_order() {
    assert_eq!(
        neighbors_of(Point::new(2, 1), 5, 4).unwrap(),
        cells(&[(2, 0), (2, 2), (1, 1), (3, 1)])
    );
}

#[test]
fn two_by_two_lattice_has_only_corners() {
    assert_eq!(neighbors_of(Point::new(0, 0), 2, 2).unwrap(), cells(&[(0, 1), (1, 0)]));
    assert_eq!(neighbors_of(Point::new(1, 0), 2, 2).unwrap(), cells(&[(1, 1), (0, 0)]));
    assert_eq!(neighbors_of(Point::new(0, 1), 2, 2).unwrap(), cells(&[(0, 0), (1, 1)]));
    assert_eq!(neighbors_of(Point::new(1, 1), 2, 2).unwrap(), cells(&[(1, 0), (0, 1)]));
}

#[test]
fn neighbor_counts_and_adjacency_hold_on_every_cell() {
    for &(width, height) in &[(2u32, 2u32), (2, 5), (5, 2), (3, 3), (7, 4), (10, 10)] {
        for x in 0..width {
            for y in 0..height {
                let found = neighbors_of(Point::new(x, y), width, height).unwrap();
                let on_x_rim = x == 0 || x == width - 1;
                let on_y_rim = y == 0 || y == height - 1;
                let expected = if on_x_rim && on_y_rim {
                    2
                } else if on_x_rim || on_y_rim {
                    3
                } else {
                    4
                };
                assert_eq!(found.len(), expected);
                for (i, n) in found.iter().enumerate() {
                    assert!(n.x < width && n.y < height);
                    let dx = if n.x > x { n.x - x } else { x - n.x };
                    let dy = if n.y > y { n.y - y } else { y - n.y };
                    assert_eq!(dx + dy, 1);
                    for m in &found[..i] {
                        assert_ne!(m, n);
                    }
                }
            }
        }
    }
}

#[test]
fn a_point_outside_the_lattice_has_no_neighbors() {
    assert_eq!(neighbors_of(Point::new(3, 0), 3, 3).unwrap(), Vec::<Point>::new());
    assert_eq!(neighbors_of(Point::new(0, 3), 3, 3).unwrap(), Vec::<Point>::new());
    assert_eq!(neighbors_of(Point::new(9, 9), 3, 3).unwrap(), Vec::<Point>::new());
}

#[test]
fn a_lattice_narrower_than_two_is_refused() {
    assert_eq!(neighbors_of(Point::new(0, 0), 1, 3), Err(SimulationError::WidthTooSmall));
    assert_eq!(neighbors_of(Point::new(0, 0), 0, 3), Err(SimulationError::WidthTooSmall));
    assert_eq!(neighbors_of(Point::new(0, 0), 1, 1), Err(SimulationError::WidthTooSmall));
}

#[test]
fn a_lattice_lower_than_two_is_refused() {
    assert_eq!(neighbors_of(Point::new(0, 0), 3, 1), Err(SimulationError::HeightTooSmall));
    assert_eq!(neighbors_of(Point::new(0, 0), 2, 0), Err(SimulationError::HeightTooSmall));
}
