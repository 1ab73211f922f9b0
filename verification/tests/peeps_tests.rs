use biosim::genome::make_random_genome;
use biosim::grid::EMPTY_CELL;
use biosim::individual::Individual;
use biosim::parameters::Parameters;
use biosim::peeps::Peeps;
use biosim::signals::Signals;
use biosim::survival_criteria::circle_challenge;
use biosim::types::Coord;
use biosim::world::World;

fn occupancy_matches(peeps: &Peeps) -> bool {
    // Every live agent's cell holds its index, and every occupant tag
    // names a live agent standing there.
    for i in 1..peeps.population.len() {
        let ind = &peeps.population[i];
        if ind.alive {
            if !peeps.world.is_in_bounds(ind.location) {
                return false;
            }
            if peeps.world.at_coord(ind.location) != i as u16 {
                return false;
            }
        }
    }
    for x in 0..peeps.world.grid.width {
        for y in 0..peeps.world.grid.height {
            let t = peeps.world.grid.at(x, y);
            if t != EMPTY_CELL {
                let ind = &peeps.population[t as usize];
                if !ind.alive || ind.location != Coord(x as i16, y as i16) {
                    return false;
                }
            }
        }
    }
    true
}

#[test]
fn test_new_population_occupancy() {
    let mut params = Parameters::defaults();
    params.size_x = 16;
    params.size_y = 16;
    params.population = 20;
    let peeps = Peeps::new(&params);
    assert_eq!(peeps.population.len(), 21);
    assert!(!peeps.population[0].alive);
    for i in 1..peeps.population.len() {
        assert!(peeps.population[i].alive);
        assert_eq!(peeps.population[i].index as usize, i);
    }
    assert!(occupancy_matches(&peeps));
}

#[test]
fn test_move_resolution_first_come_first_served() {
    let mut params = Parameters::defaults();
    params.size_x = 3;
    params.size_y = 1;
    params.population = 2;
    let mut peeps = Peeps::new(&params);
    let x1 = peeps.population[1].location.0;
    let x2 = peeps.population[2].location.0;
    let lo = x1.min(x2);
    let hi = x1.max(x2);
    let empty_x = 3 - x1 - x2;
    let id_lo: u16 = if x1 == lo { 1 } else { 2 };
    let id_hi: u16 = if x1 == lo { 2 } else { 1 };

    if hi == lo + 1 {
        // The two agents stand side by side; the empty cell lies beyond
        // one of them.  Both urge one step towards the empty side.
        let (dx, front, rear) = if empty_x > hi { (1i16, id_hi, id_lo) } else { (-1i16, id_lo, id_hi) };
        // Drained rear-first, the rear agent finds its target still
        // taken and stays put.
        let rear_before = peeps.population[rear as usize].location;
        peeps.resolve_move(rear, dx, 0);
        assert_eq!(peeps.population[rear as usize].location, rear_before);
        // The front agent leaves, and afterwards the rear agent's urge
        // succeeds.
        let front_before = peeps.population[front as usize].location;
        peeps.resolve_move(front, dx, 0);
        assert_eq!(peeps.population[front as usize].location.0, front_before.0 + dx);
        peeps.resolve_move(rear, dx, 0);
        assert_eq!(peeps.population[rear as usize].location.0, rear_before.0 + dx);
    } else {
        // The empty cell lies between the agents; both urge one step
        // into it, and only the first served gets it.
        let lo_before = peeps.population[id_lo as usize].location;
        let hi_before = peeps.population[id_hi as usize].location;
        peeps.resolve_move(id_lo, 1, 0);
        assert_eq!(peeps.population[id_lo as usize].location.0, lo_before.0 + 1);
        peeps.resolve_move(id_hi, -1, 0);
        assert_eq!(peeps.population[id_hi as usize].location, hi_before);
    }
    assert!(occupancy_matches(&peeps));
}

#[test]
fn test_move_updates_heading_and_cells() {
    let mut params = Parameters::defaults();
    params.size_x = 3;
    params.size_y = 1;
    params.population = 1;
    let mut peeps = Peeps::new(&params);
    let before = peeps.population[1].location;
    let dx: i16 = if before.0 == 0 { 1 } else { -1 };
    peeps.resolve_move(1, dx, 0);
    let after = peeps.population[1].location;
    assert_eq!(after.0, before.0 + dx);
    assert_eq!(peeps.world.at_coord(after), 1);
    assert_eq!(peeps.world.at_coord(before), EMPTY_CELL);
    let heading: Coord = peeps.population[1].last_move_direction.into();
    assert_eq!(heading, Coord(dx, 0));
    assert!(occupancy_matches(&peeps));
}

#[test]
fn test_death_queue() {
    let mut params = Parameters::defaults();
    params.size_x = 8;
    params.size_y = 8;
    params.population = 5;
    let mut peeps = Peeps::new(&params);
    let loc = peeps.population[3].location;
    peeps.queue_for_death(3);
    assert_eq!(peeps.death_queue.len(), 1);
    peeps.drain_death_queue();
    assert_eq!(peeps.death_queue.len(), 0);
    assert!(!peeps.population[3].alive);
    assert_eq!(peeps.world.at_coord(loc), EMPTY_CELL);
    for i in 1..peeps.population.len() {
        if i != 3 {
            assert!(peeps.population[i].alive);
        }
    }
    assert!(occupancy_matches(&peeps));
}

#[test]
fn test_circle_challenge_radius_one() {
    let params = Parameters::defaults();
    let world = World::new(5, 5);
    let signals = Signals::new(1, 5, 5);
    let at_center = Individual::new(1, Coord(2, 2), make_random_genome(3), &params);
    let beside_center = Individual::new(2, Coord(3, 2), make_random_genome(3), &params);
    let mut dead_at_center = Individual::new(3, Coord(2, 2), make_random_genome(3), &params);
    dead_at_center.alive = false;
    assert!(circle_challenge(&at_center, &world, &signals, &params, vec![1]));
    assert!(!circle_challenge(&beside_center, &world, &signals, &params, vec![1]));
    assert!(!circle_challenge(&dead_at_center, &world, &signals, &params, vec![1]));
    assert!(circle_challenge(&beside_center, &world, &signals, &params, vec![2]));
}

#[test]
fn test_generation_turnover() {
    let mut params = Parameters::defaults();
    params.size_x = 8;
    params.size_y = 8;
    params.population = 10;
    let mut peeps = Peeps::new(&params);
    // On a small world every live agent sits within the survival circle,
    // so the whole population's genomes form the parent pool.
    let pool = peeps.surviving_genomes();
    assert_eq!(pool.len(), 10);
    for k in 0..pool.len() {
        assert_eq!(pool[k], peeps.population[k + 1].genome);
    }
    // One agent dies before the turnover and leaves the pool.
    peeps.queue_for_death(4);
    peeps.drain_death_queue();
    let smaller_pool = peeps.surviving_genomes();
    assert_eq!(smaller_pool.len(), 9);
    // The turnover reseeds a full population on distinct empty cells.
    peeps.end_generation();
    assert_eq!(peeps.population.len(), 11);
    for i in 1..peeps.population.len() {
        assert!(peeps.population[i].alive);
    }
    assert!(occupancy_matches(&peeps));
    let mut seen = Vec::new();
    for i in 1..peeps.population.len() {
        let loc = peeps.population[i].location;
        assert!(!seen.contains(&loc));
        seen.push(loc);
    }
}

#[test]
fn test_population_locations() {
    let mut params = Parameters::defaults();
    params.size_x = 6;
    params.size_y = 6;
    params.population = 4;
    let peeps = Peeps::new(&params);
    let locations = peeps.get_population_locations();
    assert_eq!(locations.len(), 5);
    for i in 0..locations.len() {
        assert_eq!(locations[i].0, peeps.population[i].location.0);
        assert_eq!(locations[i].1, peeps.population[i].location.1);
    }
}

#[test]
fn test_individual_at() {
    let mut params = Parameters::defaults();
    params.size_x = 6;
    params.size_y = 6;
    params.population = 3;
    let peeps = Peeps::new(&params);
    let loc = peeps.population[2].location;
    let found = peeps.individual_at(loc).expect("an agent stands there");
    assert_eq!(found.index, 2);
    // An empty cell names the sentinel.
    for x in 0..6i16 {
        for y in 0..6i16 {
            let c = Coord(x, y);
            if peeps.world.is_empty_at(c) {
                let sentinel = peeps.individual_at(c).expect("tag zero names the sentinel");
                assert_eq!(sentinel.index, 0);
                return;
            }
        }
    }
}

#[test]
fn test_new_individual_fields() {
    let params = Parameters::defaults();
    let genome = make_random_genome(4);
    let ind = Individual::new(9, Coord(3, 4), genome, &params);
    assert!(ind.alive);
    assert_eq!(ind.index, 9);
    assert_eq!(ind.location, Coord(3, 4));
    assert_eq!(ind.birth_location, Coord(3, 4));
    assert_eq!(ind.age, 0);
    assert_eq!(ind.responsiveness_milli, 500);
    assert_eq!(ind.oscillation_period, 34);
    assert_eq!(ind.long_probe_distance, 16);
    assert_eq!(ind.challenge_bits, 0);
    assert_eq!(ind.genome.len(), 4);
    assert!(ind.neural_net.neurons.len() <= 10);
}

#[test]
fn test_individual_setters() {
    let params = Parameters::defaults();
    let mut ind = Individual::new(1, Coord(0, 0), make_random_genome(2), &params);
    ind.increment_age();
    ind.increment_age();
    assert_eq!(ind.age, 2);
    ind.set_oscillation_period(7);
    assert_eq!(ind.oscillation_period, 7);
    ind.set_long_probe_distance(25);
    assert_eq!(ind.long_probe_distance, 25);
    ind.set_responsiveness_milli(900);
    assert_eq!(ind.responsiveness_milli, 900);
    assert_eq!(ind.index, 1);
}
