//! The lattice of individuals: its construction, the run of the simulation
//! on it, and the census of the cultures that the run leaves.

use crate::census::is_census_of;
use crate::census::is_labelling_of;
use crate::census::lemma_census_step;
use crate::census::lemma_first_seen;
use crate::census::lemma_largest_cluster_bounds;
use crate::census::lemma_labelling_step;
use crate::config::Parameters;
use crate::config::SimulationConfig;
use crate::culture_map::largest;
use crate::culture_map::lemma_total_bounds;
use crate::culture_map::lemma_total_push;
use crate::culture_map::lemma_total_update;
use crate::culture_map::CultureMap;
use crate::error::SimulationError;
use crate::individual::drawn_features;
use crate::individual::newborn;
use crate::individual::Individual;
use crate::individual::IndividualView;
use crate::interaction::interaction_outcome;
use crate::stream::choice_draw;
use crate::stream::range_draw;
use crate::stream::uniform_below;
use crate::topology::lemma_neighbors_topology;
use crate::topology::Point;
use vstd::prelude::*;

verus! {

/// The lattice: `width` columns of `height` individuals each. The individual
/// of the cell `(x, y)` is `territory[x][y]`.
#[derive(Debug)]
pub struct Territory {
    width: u32,
    height: u32,
    pub territory: Vec<Vec<Individual>>,
}

/// A lattice as a value.
pub struct TerritoryView {
    pub width: u32,
    pub height: u32,
    pub cells: Seq<Seq<IndividualView>>,
}

/// A column of individuals as values.
pub open spec fn column_view(column: Seq<Individual>) -> Seq<IndividualView> {
    column.map_values(|individual: Individual| individual@)
}

/// Columns of individuals as values.
pub open spec fn grid_view(columns: Seq<Vec<Individual>>) -> Seq<Seq<IndividualView>> {
    columns.map_values(|column: Vec<Individual>| column_view(column@))
}

/// The cultures of a column, from its first cell to its last.
pub open spec fn column_cultures(column: Seq<IndividualView>) -> Seq<Seq<u32>> {
    column.map_values(|individual: IndividualView| individual.features)
}

/// The cultures of the first `columns` columns in the order of the scan:
/// column after column, each from its first cell to its last.
pub open spec fn scanned_cultures(cells: Seq<Seq<IndividualView>>, columns: nat) -> Seq<Seq<u32>>
    decreases columns,
{
    if columns == 0 {
        Seq::empty()
    } else {
        scanned_cultures(cells, (columns - 1) as nat) + column_cultures(cells[columns - 1])
    }
}

impl TerritoryView {
    /// Whether the lattice has `width` columns of `height` cells.
    pub open spec fn has_shape(self, width: u32, height: u32) -> bool {
        &&& self.width == width
        &&& self.height == height
        &&& self.cells.len() == width
        &&& forall|x: int| 0 <= x < width ==> (#[trigger] self.cells[x]).len() == height
    }

    /// Whether this is a lattice for the given parameters: it has their shape,
    /// and every individual stands in its own cell, has a culture that fits
    /// the parameters and has the neighbours of its cell.
    pub open spec fn wf(self, parameters: Parameters) -> bool {
        &&& self.has_shape(parameters.width, parameters.height)
        &&& forall|x: int, y: int|
            0 <= x < parameters.width && 0 <= y < parameters.height ==> {
                let individual = #[trigger] self.cells[x][y];
                &&& individual.location == (Point { x: x as u32, y: y as u32 })
                &&& individual.wf(parameters)
            }
    }

    /// The cultures of the lattice in the order of the scan.
    pub open spec fn scan(self) -> Seq<Seq<u32>> {
        scanned_cultures(self.cells, self.cells.len())
    }
}

impl View for Territory {
    type V = TerritoryView;

    closed spec fn view(&self) -> TerritoryView {
        TerritoryView {
            width: self.width,
            height: self.height,
            cells: grid_view(self.territory@),
        }
    }
}

/// The first `rows` individuals of column `x`, born one after the other with
/// a generator that starts in `state`, and the state after the last birth.
pub open spec fn settled_column(x: u32, rows: nat, parameters: Parameters, state: (u128, u128))
    -> (Seq<IndividualView>, (u128, u128))
    decreases rows,
{
    if rows == 0 {
        (Seq::empty(), state)
    } else {
        let (earlier, before) = settled_column(x, (rows - 1) as nat, parameters, state);
        let individual = newborn(Point { x, y: (rows - 1) as u32 }, parameters, before);
        let after = drawn_features(
            before,
            parameters.num_features as nat,
            parameters.num_traits,
        ).1;
        (earlier.push(individual), after)
    }
}

/// The first `columns` columns of a new lattice, settled one after the other
/// with a generator that starts in `state`, and the state after the last
/// birth.
pub open spec fn settled_lattice(columns: nat, parameters: Parameters, state: (u128, u128)) -> (
    Seq<Seq<IndividualView>>,
    (u128, u128),
)
    decreases columns,
{
    if columns == 0 {
        (Seq::empty(), state)
    } else {
        let (earlier, before) = settled_lattice((columns - 1) as nat, parameters, state);
        let (column, after) = settled_column(
            (columns - 1) as u32,
            parameters.height as nat,
            parameters,
            before,
        );
        (earlier.push(column), after)
    }
}

/// What one step of the simulation makes of a lattice and of a generator in
/// `state`: two draws choose a cell, first its column and then its row; one
/// draw chooses one of the neighbours of that cell; the individual of the cell
/// meets the neighbour as it is before the meeting.
pub open spec fn step(cells: Seq<Seq<IndividualView>>, parameters: Parameters, state: (u128, u128))
    -> (Seq<Seq<IndividualView>>, (u128, u128)) {
    let (x, after_x) = range_draw(state, parameters.width);
    let (y, after_y) = range_draw(after_x, parameters.height);
    let chosen = cells[x as int][y as int];
    let (position, after_choice) = choice_draw(after_y, chosen.neighbors.len());
    let at = chosen.neighbors[position as int];
    let neighbor = cells[at.x as int][at.y as int];
    let (features, after) = interaction_outcome(chosen.features, neighbor.features, after_choice);
    let met = IndividualView { features, ..chosen };
    (cells.update(x as int, cells[x as int].update(y as int, met)), after)
}

/// A lattice and a generator after `iterations` steps, one after the other.
pub open spec fn evolved(
    cells: Seq<Seq<IndividualView>>,
    parameters: Parameters,
    state: (u128, u128),
    iterations: nat,
) -> (Seq<Seq<IndividualView>>, (u128, u128))
    decreases iterations,
{
    if iterations == 0 {
        (cells, state)
    } else {
        let (earlier, before) = evolved(cells, parameters, state, (iterations - 1) as nat);
        step(earlier, parameters, before)
    }
}

/// The lattice that a simulation with the given parameters ends with when its
/// generator starts in `state`, and the state in which it leaves the
/// generator: a new lattice is settled and then takes as many steps as the
/// parameters ask for.
pub open spec fn simulated(parameters: Parameters, state: (u128, u128)) -> (
    Seq<Seq<IndividualView>>,
    (u128, u128),
) {
    let (cells, settled) = settled_lattice(parameters.width as nat, parameters, state);
    evolved(cells, parameters, settled, parameters.num_iterations as nat)
}

/// A lattice in which every individual carries the label that `labels` holds
/// for its culture.
pub open spec fn labelled(cells: Seq<Seq<IndividualView>>, labels: Map<Seq<u32>, u64>) -> Seq<
    Seq<IndividualView>,
> {
    Seq::new(
        cells.len(),
        |x: int|
            Seq::new(
                cells[x].len(),
                |y: int| IndividualView { label: labels[cells[x][y].features], ..cells[x][y] },
            ),
    )
}

/// Whether `labels` holds a label for the culture of every individual.
pub open spec fn every_culture_labelled(
    cells: Seq<Seq<IndividualView>>,
    labels: Map<Seq<u32>, u64>,
) -> bool {
    forall|x: int, y: int|
        0 <= x < cells.len() && 0 <= y < cells[x].len() ==> labels.dom().contains(
            (#[trigger] cells[x][y]).features,
        )
}

/// The place of the cell `(x, y)` in the scan of a lattice `width` wide and
/// `height` high lies before the end of the scan, which is no longer than a
/// 64-bit count can tell.
proof fn lemma_scan_position(x: int, y: int, width: u32, height: u32)
    by (nonlinear_arith)
    requires
        0 <= x < width,
        0 <= y <= height,
    ensures
        0 <= x * height + y <= width * height,
        y < height ==> x * height + y < width * height,
        (x + 1) * height == x * height + height,
        width * height < u64::MAX,
{
}

/// A scan has one census: two maps that count the cultures of the same scan
/// hold the same entries in the same order.
pub proof fn lemma_census_unique(
    first_keys: Seq<Seq<u32>>,
    first_values: Seq<u64>,
    second_keys: Seq<Seq<u32>>,
    second_values: Seq<u64>,
    scan: Seq<Seq<u32>>,
)
    requires
        is_census_of(first_keys, first_values, scan),
        is_census_of(second_keys, second_values, scan),
    ensures
        first_keys == second_keys,
        first_values == second_values,
{
    assert(first_values =~= second_values);
}

/// Two runs with the same parameters whose generators start in the same state
/// end with the same lattice, leave their generators in the same state, and
/// have the same census.
pub proof fn lemma_runs_agree(
    first: Parameters,
    first_state: (u128, u128),
    first_lattice: TerritoryView,
    first_keys: Seq<Seq<u32>>,
    first_values: Seq<u64>,
    second: Parameters,
    second_state: (u128, u128),
    second_lattice: TerritoryView,
    second_keys: Seq<Seq<u32>>,
    second_values: Seq<u64>,
)
    requires
        first == second,
        first_state == second_state,
        first_lattice.cells == simulated(first, first_state).0,
        second_lattice.cells == simulated(second, second_state).0,
        is_census_of(first_keys, first_values, first_lattice.scan()),
        is_census_of(second_keys, second_values, second_lattice.scan()),
    ensures
        first_lattice.cells == second_lattice.cells,
        simulated(first, first_state).1 == simulated(second, second_state).1,
        first_keys == second_keys,
        first_values == second_values,
{
    lemma_census_unique(
        first_keys,
        first_values,
        second_keys,
        second_values,
        first_lattice.scan(),
    );
}

/// The number of cells of a lattice fits a 64-bit count.
proof fn lemma_product_fits(width: u32, height: u32)
    by (nonlinear_arith)
    ensures
        0 <= width * height < u64::MAX,
{
}

impl Territory {
    /// A new lattice. The individuals are born column by column, each column
    /// from its first cell to its last, so the generator is drawn from once
    /// for every feature of every cell in that order.
    ///
    /// Nothing is drawn where the parameters are faulty.
    pub fn new(config: &mut SimulationConfig) -> (res: Result<Territory, SimulationError>)
        ensures
            final(config).parameters() == old(config).parameters(),
            match res {
                Ok(lattice) => {
                    &&& old(config).parameters().fault() is None
                    &&& lattice@.width == old(config).width
                    &&& lattice@.height == old(config).height
                    &&& (lattice@.cells, final(config).stream()) == settled_lattice(
                        old(config).width as nat,
                        old(config).parameters(),
                        old(config).stream(),
                    )
                    &&& lattice@.wf(old(config).parameters())
                },
                Err(e) => {
                    &&& old(config).parameters().fault() == Some(e)
                    &&& final(config).stream() == old(config).stream()
                },
            },
    {
        match config.validate() {
            Ok(_) => {},
            Err(e) => {
                return Err(e);
            },
        }
        let ghost parameters = config.parameters();
        let ghost start = config.stream();
        let mut territory: Vec<Vec<Individual>> = Vec::new();
        let mut x: u32 = 0;
        while x < config.width
            invariant
                x <= config.width,
                config.parameters() == parameters,
                parameters.fault() is None,
                territory@.len() == x,
                (grid_view(territory@), config.stream()) == settled_lattice(
                    x as nat,
                    parameters,
                    start,
                ),
                forall|cx: int| 0 <= cx < x ==> (#[trigger] territory@[cx])@.len() == parameters.height,
                forall|cx: int, cy: int|
                    0 <= cx < x && 0 <= cy < parameters.height ==> {
                        let individual = #[trigger] territory@[cx]@[cy]@;
                        &&& individual.location == (Point { x: cx as u32, y: cy as u32 })
                        &&& individual.wf(parameters)
                    },
            decreases config.width - x,
        {
            let ghost column_start = config.stream();
            let mut y_vec: Vec<Individual> = Vec::new();
            let mut y: u32 = 0;
            while y < config.height
                invariant
                    y <= config.height,
                    x < config.width,
                    config.parameters() == parameters,
                    parameters.fault() is None,
                    y_vec@.len() == y,
                    (column_view(y_vec@), config.stream()) == settled_column(
                        x,
                        y as nat,
                        parameters,
                        column_start,
                    ),
                    forall|cy: int|
                        0 <= cy < y ==> {
                            let individual = (#[trigger] y_vec@[cy])@;
                            &&& individual.location == (Point { x, y: cy as u32 })
                            &&& individual.wf(parameters)
                        },
                decreases config.height - y,
            {
                let location = Point { x, y };
                let ghost before = column_view(y_vec@);
                match Individual::new(location, config) {
                    Ok(individual) => {
                        y_vec.push(individual);
                        assert(column_view(y_vec@) =~= before.push(individual@));
                    },
                    Err(e) => {
                        return Err(e);
                    },
                }
                y += 1;
            }
            let ghost before = grid_view(territory@);
            territory.push(y_vec);
            assert(grid_view(territory@) =~= before.push(column_view(y_vec@)));
            x += 1;
        }
        let lattice = Territory { width: config.width, height: config.height, territory };
        assert(lattice@.wf(parameters)) by {
            assert forall|cx: int| 0 <= cx < parameters.width implies (#[trigger] lattice@.cells[cx]).len()
                == parameters.height by {
                assert(lattice.territory@[cx]@.len() == parameters.height);
            }
            assert forall|cx: int, cy: int|
                0 <= cx < parameters.width && 0 <= cy < parameters.height implies {
                let individual = #[trigger] lattice@.cells[cx][cy];
                &&& individual.location == (Point { x: cx as u32, y: cy as u32 })
                &&& individual.wf(parameters)
            } by {
                assert(lattice@.cells[cx][cy] == lattice.territory@[cx]@[cy]@);
            }
        }
        Ok(lattice)
    }

    /// Runs a simulation: settles a new lattice and lets it take
    /// `num_iterations` steps, one after the other.
    ///
    /// Nothing is drawn where the parameters are faulty.
    pub fn run_simulation(config: &mut SimulationConfig) -> (res: Result<
        Territory,
        SimulationError,
    >)
        ensures
            final(config).parameters() == old(config).parameters(),
            match res {
                Ok(lattice) => {
                    &&& old(config).parameters().fault() is None
                    &&& lattice@.width == old(config).width
                    &&& lattice@.height == old(config).height
                    &&& (lattice@.cells, final(config).stream()) == simulated(
                        old(config).parameters(),
                        old(config).stream(),
                    )
                    &&& lattice@.wf(old(config).parameters())
                },
                Err(e) => {
                    &&& old(config).parameters().fault() == Some(e)
                    &&& final(config).stream() == old(config).stream()
                },
            },
    {
        let ghost parameters = config.parameters();
        let mut simulation = match Territory::new(config) {
            Ok(lattice) => lattice,
            Err(e) => {
                return Err(e);
            },
        };
        let ghost settled_cells = simulation@.cells;
        let ghost settled = config.stream();
        let mut iteration: usize = 0;
        while iteration < config.num_iterations
            invariant
                iteration <= config.num_iterations,
                config.parameters() == parameters,
                parameters.fault() is None,
                simulation@.wf(parameters),
                (simulation@.cells, config.stream()) == evolved(
                    settled_cells,
                    parameters,
                    settled,
                    iteration as nat,
                ),
            decreases config.num_iterations - iteration,
        {
            let ghost cells = simulation@.cells;
            let x = uniform_below(&mut config.rng, config.width) as usize;
            let y = uniform_below(&mut config.rng, config.height) as usize;
            assert(cells[x as int].len() == parameters.height);
            assert(cells[x as int] == column_view(simulation.territory@[x as int]@));
            let chosen = &simulation.territory[x][y];
            assert(chosen@ == cells[x as int][y as int]);
            proof {
                lemma_neighbors_topology(
                    Point { x: x as u32, y: y as u32 },
                    parameters.width,
                    parameters.height,
                );
            }
            let loc_neighbor = match chosen.choose_random_neighbor(config) {
                Ok(neighbor) => *neighbor,
                Err(_) => unreached(),
            };
            let neighbor = simulation.return_neighbor_clone(&loc_neighbor);
            assert(cells[loc_neighbor.x as int][loc_neighbor.y as int].wf(parameters));
            let ghost before = simulation.territory@[x as int]@[y as int]@;
            simulation.territory[x][y].interact(neighbor, config);
            proof {
                let after = simulation.territory@[x as int]@[y as int]@;
                let met = IndividualView { features: after.features, ..before };
                assert(after == met);
                assert(simulation@.cells =~= cells.update(
                    x as int,
                    cells[x as int].update(y as int, met),
                )) by {
                    assert forall|cx: int| 0 <= cx < cells.len() implies simulation@.cells[cx]
                        =~= cells.update(x as int, cells[x as int].update(y as int, met))[cx] by {
                        assert(simulation@.cells[cx] == column_view(simulation.territory@[cx]@));
                    }
                }
                assert(simulation@.wf(parameters)) by {
                    assert forall|cx: int, cy: int|
                        0 <= cx < parameters.width && 0 <= cy < parameters.height implies {
                        let individual = #[trigger] simulation@.cells[cx][cy];
                        &&& individual.location == (Point { x: cx as u32, y: cy as u32 })
                        &&& individual.wf(parameters)
                    } by {
                        if cx == x && cy == y {
                        } else {
                            assert(simulation@.cells[cx][cy] == cells[cx][cy]);
                        }
                    }
                }
            }
            iteration += 1;
        }
        Ok(simulation)
    }

    /// A copy of the individual at `location` that carries its cell and its
    /// culture, without neighbours and without a label.
    pub fn return_neighbor_clone(&self, location: &Point) -> (neighbor: Individual)
        requires
            location.x < self@.cells.len(),
            location.y < self@.cells[location.x as int].len(),
        ensures
            neighbor@ == (IndividualView {
                location: *location,
                features: self@.cells[location.x as int][location.y as int].features,
                neighbors: Seq::empty(),
                label: 0,
            }),
    {
        let neighbor = &self.territory[location.x()][location.y()];
        assert(self@.cells[location.x as int][location.y as int] == neighbor@);
        Individual::from_parts(
            Point::new(location.x, location.y),
            neighbor.clone_cultural_features(),
            Vec::new(),
            0,
        )
    }

    /// The census of the lattice: how many individuals share each culture.
    /// The cells are scanned column by column, each column from its first
    /// cell to its last; the cultures are entered in the order in which the
    /// scan first meets them, and the counts add up to the number of cells.
    pub fn run_count_cultures(&self, config: &SimulationConfig) -> (culture_hashmap: CultureMap)
        requires
            self@.has_shape(config.width, config.height),
        ensures
            culture_hashmap.wf(),
            is_census_of(culture_hashmap.keys(), culture_hashmap.values(), self@.scan()),
            culture_hashmap.population() == config.width * config.height,
            self@.scan().len() == config.width * config.height,
            config.width > 0 && config.height > 0 ==> culture_hashmap.keys().len() > 0,
    {
        let ghost cells = self@.cells;
        let mut culture_hashmap = CultureMap::new();
        let mut i: u32 = 0;
        while i < config.width
            invariant
                i <= config.width,
                cells == self@.cells,
                self@.has_shape(config.width, config.height),
                culture_hashmap.wf(),
                is_census_of(
                    culture_hashmap.keys(),
                    culture_hashmap.values(),
                    scanned_cultures(cells, i as nat),
                ),
                scanned_cultures(cells, i as nat).len() == i * config.height,
                culture_hashmap.population() == i * config.height,
            decreases config.width - i,
        {
            let ghost done = scanned_cultures(cells, i as nat);
            let ghost column = column_cultures(cells[i as int]);
            assert(done + column.take(0) =~= done);
            let mut j: u32 = 0;
            while j < config.height
                invariant
                    j <= config.height,
                    i < config.width,
                    cells == self@.cells,
                    self@.has_shape(config.width, config.height),
                    done == scanned_cultures(cells, i as nat),
                    done.len() == i * config.height,
                    column == column_cultures(cells[i as int]),
                    culture_hashmap.wf(),
                    is_census_of(
                        culture_hashmap.keys(),
                        culture_hashmap.values(),
                        done + column.take(j as int),
                    ),
                    culture_hashmap.population() == i * config.height + j,
                decreases config.height - j,
            {
                assert(cells[i as int].len() == config.height);
                assert(cells[i as int] == column_view(self.territory@[i as int]@));
                let features = self.territory[i as usize][j as usize].clone_cultural_features();
                let ghost scan = done + column.take(j as int);
                let ghost keys = culture_hashmap.keys();
                let ghost values = culture_hashmap.values();
                proof {
                    assert(features@ == column[j as int]);
                    assert(scan.push(features@) =~= done + column.take(j + 1));
                    lemma_census_step(keys, values, scan, features@);
                    lemma_scan_position(i as int, j as int, config.width, config.height);
                    lemma_total_bounds(values, values.len());
                    if keys.contains(features@) {
                        lemma_total_update(
                            values,
                            keys.index_of(features@),
                            (values[keys.index_of(features@)] + 1) as u64,
                        );
                    } else {
                        lemma_total_push(values, 1);
                    }
                }
                let count = match culture_hashmap.get(&features) {
                    Some(counted) => counted,
                    None => 0,
                };
                culture_hashmap.insert(features, count + 1);
                j += 1;
            }
            proof {
                assert(column.take(config.height as int) =~= column);
                lemma_scan_position(i as int, config.height as int, config.width, config.height);
            }
            i += 1;
        }
        proof {
            lemma_first_seen(self@.scan());
            if config.width > 0 && config.height > 0 {
                lemma_scan_position(0, 0, config.width, config.height);
            }
        }
        culture_hashmap
    }

    /// The labels of the cultures of the lattice: the scan of
    /// `run_count_cultures` numbers the cultures from one in the order in
    /// which it first meets them.
    pub fn run_assign_label_to_cultures(&self, config: &SimulationConfig) -> (map: CultureMap)
        requires
            self@.has_shape(config.width, config.height),
        ensures
            map.wf(),
            is_labelling_of(map.keys(), map.values(), self@.scan()),
            every_culture_labelled(self@.cells, map@),
    {
        let ghost cells = self@.cells;
        let mut current_label: u64 = 1;
        let mut map = CultureMap::new();
        let mut i: u32 = 0;
        while i < config.width
            invariant
                i <= config.width,
                cells == self@.cells,
                self@.has_shape(config.width, config.height),
                map.wf(),
                is_labelling_of(map.keys(), map.values(), scanned_cultures(cells, i as nat)),
                scanned_cultures(cells, i as nat).len() == i * config.height,
                current_label == map.keys().len() + 1,
                forall|x: int, y: int|
                    0 <= x < i && 0 <= y < config.height ==> map@.dom().contains(
                        (#[trigger] cells[x][y]).features,
                    ),
            decreases config.width - i,
        {
            let ghost done = scanned_cultures(cells, i as nat);
            let ghost column = column_cultures(cells[i as int]);
            assert(done + column.take(0) =~= done);
            let mut j: u32 = 0;
            while j < config.height
                invariant
                    j <= config.height,
                    i < config.width,
                    cells == self@.cells,
                    self@.has_shape(config.width, config.height),
                    done == scanned_cultures(cells, i as nat),
                    done.len() == i * config.height,
                    column == column_cultures(cells[i as int]),
                    map.wf(),
                    is_labelling_of(map.keys(), map.values(), done + column.take(j as int)),
                    current_label == map.keys().len() + 1,
                    forall|x: int, y: int|
                        (0 <= x < i && 0 <= y < config.height) || (x == i && 0 <= y < j)
                            ==> map@.dom().contains((#[trigger] cells[x][y]).features),
                decreases config.height - j,
            {
                assert(cells[i as int].len() == config.height);
                assert(cells[i as int] == column_view(self.territory@[i as int]@));
                let current_features =
                    self.territory[i as usize][j as usize].clone_cultural_features();
                let ghost scan = done + column.take(j as int);
                let ghost keys = map.keys();
                proof {
                    assert(current_features@ == column[j as int]);
                    assert(current_features@ == cells[i as int][j as int].features);
                    assert(scan.push(current_features@) =~= done + column.take(j + 1));
                    lemma_first_seen(scan);
                    lemma_scan_position(i as int, j as int, config.width, config.height);
                    lemma_labelling_step(keys, map.values(), scan, current_features@);
                }
                if !map.contains_key(&current_features) {
                    map.insert(current_features, current_label);
                    current_label += 1;
                }
                j += 1;
            }
            proof {
                assert(column.take(config.height as int) =~= column);
                lemma_scan_position(i as int, config.height as int, config.width, config.height);
            }
            i += 1;
        }
        map
    }

    /// Writes on every individual the label that `label_map` holds for its
    /// culture. Where the map lacks the culture of an individual, nothing is
    /// written at all.
    pub fn run_assign_label_to_individuals(
        &mut self,
        config: &SimulationConfig,
        label_map: CultureMap,
    ) -> (res: Result<(), SimulationError>)
        requires
            old(self)@.has_shape(config.width, config.height),
        ensures
            final(self)@.width == old(self)@.width,
            final(self)@.height == old(self)@.height,
            forall|parameters: Parameters|
                old(self)@.wf(parameters) ==> #[trigger] final(self)@.wf(parameters),
            match res {
                Ok(_) => {
                    &&& every_culture_labelled(old(self)@.cells, label_map@)
                    &&& final(self)@.cells == labelled(old(self)@.cells, label_map@)
                },
                Err(e) => {
                    &&& e == SimulationError::MissingLabel
                    &&& !every_culture_labelled(old(self)@.cells, label_map@)
                    &&& final(self)@.cells == old(self)@.cells
                },
            },
    {
        let ghost cells = self@.cells;
        let mut i: u32 = 0;
        while i < config.width
            invariant
                i <= config.width,
                *self == *old(self),
                cells == self@.cells,
                self@.has_shape(config.width, config.height),
                forall|x: int, y: int|
                    0 <= x < i && 0 <= y < config.height ==> label_map@.dom().contains(
                        (#[trigger] cells[x][y]).features,
                    ),
            decreases config.width - i,
        {
            let mut j: u32 = 0;
            while j < config.height
                invariant
                    j <= config.height,
                    i < config.width,
                    *self == *old(self),
                    cells == self@.cells,
                    self@.has_shape(config.width, config.height),
                        forall|x: int, y: int|
                        (0 <= x < i && 0 <= y < config.height) || (x == i && 0 <= y < j)
                            ==> label_map@.dom().contains((#[trigger] cells[x][y]).features),
                decreases config.height - j,
            {
                assert(cells[i as int].len() == config.height);
                assert(cells[i as int] == column_view(self.territory@[i as int]@));
                let current_features =
                    self.territory[i as usize][j as usize].clone_cultural_features();
                assert(current_features@ == cells[i as int][j as int].features);
                if !label_map.contains_key(&current_features) {
                    return Err(SimulationError::MissingLabel);
                }
                j += 1;
            }
            i += 1;
        }
        assert(every_culture_labelled(cells, label_map@)) by {
            assert forall|x: int, y: int|
                0 <= x < cells.len() && 0 <= y < cells[x].len() implies label_map@.dom().contains(
                (#[trigger] cells[x][y]).features,
            ) by {
                assert(cells[x].len() == config.height);
            }
        }
        let mut i: u32 = 0;
        while i < config.width
            invariant
                i <= config.width,
                self@.has_shape(config.width, config.height),
                cells == old(self)@.cells,
                old(self)@.has_shape(config.width, config.height),
                every_culture_labelled(cells, label_map@),
                forall|x: int, y: int|
                    0 <= x < config.width && 0 <= y < config.height ==> #[trigger] self@.cells[x][y]
                        == (if x < i {
                        labelled(cells, label_map@)[x][y]
                    } else {
                        cells[x][y]
                    }),
            decreases config.width - i,
        {
            let mut j: u32 = 0;
            while j < config.height
                invariant
                    j <= config.height,
                    i < config.width,
                    self@.has_shape(config.width, config.height),
                    cells == old(self)@.cells,
                    old(self)@.has_shape(config.width, config.height),
                        every_culture_labelled(cells, label_map@),
                    forall|x: int, y: int|
                        0 <= x < config.width && 0 <= y < config.height
                            ==> #[trigger] self@.cells[x][y] == (if x < i || (x == i && y < j) {
                            labelled(cells, label_map@)[x][y]
                        } else {
                            cells[x][y]
                        }),
                decreases config.height - j,
            {
                let ghost before = self@.cells;
                assert(before[i as int].len() == config.height);
                assert(cells[i as int].len() == config.height);
                assert(before[i as int] == column_view(self.territory@[i as int]@));
                assert(before[i as int][j as int] == cells[i as int][j as int]);
                let current_features =
                    self.territory[i as usize][j as usize].clone_cultural_features();
                let current_label = match label_map.get(&current_features) {
                    Some(label) => label,
                    None => unreached(),
                };
                self.territory[i as usize][j as usize].set_culture_label(current_label);
                proof {
                    let written = IndividualView {
                        label: current_label,
                        ..before[i as int][j as int]
                    };
                    assert(self@.cells =~= before.update(
                        i as int,
                        before[i as int].update(j as int, written),
                    )) by {
                        assert forall|x: int| 0 <= x < before.len() implies self@.cells[x]
                            =~= before.update(
                            i as int,
                            before[i as int].update(j as int, written),
                        )[x] by {
                            assert(self@.cells[x] == column_view(self.territory@[x]@));
                        }
                    }
                    assert forall|x: int, y: int|
                        0 <= x < config.width && 0 <= y < config.height implies #[trigger] self@.cells[x][y]
                        == (if x < i || (x == i && y < j + 1) {
                        labelled(cells, label_map@)[x][y]
                    } else {
                        cells[x][y]
                    }) by {
                        assert(cells[x].len() == config.height);
                        if x == i && y == j {
                        } else {
                            assert(self@.cells[x][y] == before[x][y]);
                        }
                    }
                }
                j += 1;
            }
            i += 1;
        }
        assert(self@.cells =~= labelled(cells, label_map@)) by {
            assert forall|x: int| 0 <= x < cells.len() implies self@.cells[x] =~= labelled(
                cells,
                label_map@,
            )[x] by {
                assert(cells[x].len() == config.height);
                assert(self@.cells[x].len() == config.height);
                assert forall|y: int| 0 <= y < config.height implies self@.cells[x][y] == labelled(
                    cells,
                    label_map@,
                )[x][y] by {
                    assert(self@.cells[x][y] == labelled(cells, label_map@)[x][y]);
                }
            }
        }
        Ok(())
    }

    /// The share of the population that lives in the largest cluster, as a
    /// fraction: the size of the largest cluster over the number of cells. For
    /// the census of a lattice with these dimensions the numerator is at
    /// least one and at most the denominator.
    pub fn calc_prop_pop_in_largest_cluster(config: &SimulationConfig, map: &CultureMap) -> (fraction:
        (u64, u64))
        requires
            map.keys().len() > 0,
        ensures
            fraction.0 == largest(map.values()),
            fraction.1 == config.width * config.height,
            forall|scan: Seq<Seq<u32>>|
                #[trigger] is_census_of(map.keys(), map.values(), scan) && scan.len()
                    == config.width * config.height ==> 1 <= fraction.0 <= fraction.1,
    {
        let largest_cluster = match map.largest_number() {
            Some(found) => found,
            None => unreached(),
        };
        proof {
            lemma_product_fits(config.width, config.height);
            assert forall|scan: Seq<Seq<u32>>|
                #[trigger] is_census_of(map.keys(), map.values(), scan) && scan.len()
                    == config.width * config.height implies 1 <= largest_cluster
                <= config.width * config.height by {
                lemma_first_seen(scan);
                lemma_largest_cluster_bounds(map.keys(), map.values(), scan);
            }
        }
        (largest_cluster, config.width as u64 * config.height as u64)
    }

    /// The lattice with the given dimensions and columns.
    pub fn from_parts(width: u32, height: u32, territory: Vec<Vec<Individual>>) -> (lattice:
        Territory)
        ensures
            lattice@ == (TerritoryView { width, height, cells: grid_view(territory@) }),
    {
        Territory { width, height, territory }
    }

    /// The number of columns the lattice was made with.
    pub fn width(&self) -> (width: u32)
        ensures
            width == self@.width,
    {
        self.width
    }

    /// The number of cells each column was made with.
    pub fn height(&self) -> (height: u32)
        ensures
            height == self@.height,
    {
        self.height
    }
}

/// A lattice after its run, together with the census of its cultures and the
/// labels of its clusters.
#[derive(Debug)]
pub struct FinishedTerritory {
    width: u32,
    height: u32,
    pub territory: Vec<Vec<Individual>>,
    pub culture_counter: CultureMap,
    pub culture_labels: CultureMap,
}

impl FinishedTerritory {
    /// The lattice as a value.
    pub closed spec fn lattice(&self) -> TerritoryView {
        TerritoryView { width: self.width, height: self.height, cells: grid_view(self.territory@) }
    }

    /// The census that was taken of the lattice.
    pub closed spec fn census(&self) -> CultureMap {
        self.culture_counter
    }

    /// The labels of the clusters of the lattice.
    pub closed spec fn labels(&self) -> CultureMap {
        self.culture_labels
    }

    /// Takes the lattice of a finished run and counts its cultures. The labels
    /// are left empty.
    pub fn new(config: &SimulationConfig, simulation: Territory) -> (finished: FinishedTerritory)
        requires
            simulation@.has_shape(config.width, config.height),
        ensures
            finished.lattice() == simulation@,
            finished.census().wf(),
            is_census_of(
                finished.census().keys(),
                finished.census().values(),
                simulation@.scan(),
            ),
            finished.census().population() == config.width * config.height,
            finished.labels().wf(),
            finished.labels()@ == Map::<Seq<u32>, u64>::empty(),
    {
        let culture_counter = simulation.run_count_cultures(config);
        let culture_labels = CultureMap::new();
        let width = simulation.width;
        let height = simulation.height;
        let territory = simulation.territory;
        FinishedTerritory { width, height, territory, culture_counter, culture_labels }
    }

    /// The finished lattice with the given dimensions, columns, census and
    /// labels.
    pub fn from_parts(
        width: u32,
        height: u32,
        territory: Vec<Vec<Individual>>,
        culture_counter: CultureMap,
        culture_labels: CultureMap,
    ) -> (finished: FinishedTerritory)
        ensures
            finished.lattice() == (TerritoryView { width, height, cells: grid_view(territory@) }),
            finished.census() == culture_counter,
            finished.labels() == culture_labels,
    {
        FinishedTerritory { width, height, territory, culture_counter, culture_labels }
    }

    /// The number of columns of the lattice.
    pub fn width(&self) -> (width: u32)
        ensures
            width == self.lattice().width,
    {
        self.width
    }

    /// The number of cells in each column of the lattice.
    pub fn height(&self) -> (height: u32)
        ensures
            height == self.lattice().height,
    {
        self.height
    }
}

} // verus!
