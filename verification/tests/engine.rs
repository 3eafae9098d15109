use dunge::Action;
use dunge::CreatureType;
use dunge::Grid;
use dunge::TurnQueue;
use dunge::get;

#[test]
fn round_trip_square_grid() {
    let g = Grid::new(4, 4);
    for x in 0u32..4 {
        for y in 0u32..4 {
            let index = g.position_to_index((x, y));
            assert_eq!(index, (y * 4 + x) as usize);
            assert_eq!(g.index_to_position(index), (x, y));
        }
    }
}

#[test]
fn queue_dedup_keeps_one_entry() {
    let mut q = TurnQueue::new();
    q.push(5);
    q.push(5);
    assert_eq!(q.len(), 1);
    assert!(q.contains(5));
    q.push(7);
    q.push(5);
    assert_eq!(q.len(), 2);
    assert_eq!(q.pop(), Some(5));
    assert!(!q.contains(5));
    assert_eq!(q.pop(), Some(7));
    assert_eq!(q.pop(), None);
    assert_eq!(q.len(), 0);
}

#[test]
fn step_bound_defers_new_activations() {
    let mut g = Grid::new(3, 3);
    g.set_cell((1, 1), get(CreatureType::Spreader));
    assert_eq!(g.turn_queue.len(), 1);
    g.step();
    // The one pending spreader was evaluated; the 8 activations it caused
    // are all still pending, untouched by the same call.
    assert_eq!(g.turn_queue.len(), 8);
    g.step();
    // The 8 empty cells idle, so the queue drains completely.
    assert_eq!(g.turn_queue.len(), 0);
}

#[test]
fn step_dedups_activations_across_decisions() {
    let mut g = Grid::new(3, 3);
    g.set_cell((0, 0), get(CreatureType::Spreader));
    g.set_cell((2, 2), get(CreatureType::Spreader));
    assert_eq!(g.turn_queue.len(), 2);
    g.step();
    // (0,0) queues (1,0),(0,1),(1,1); (2,2) queues (1,1),(2,1),(1,2) with
    // (1,1) already pending.
    assert_eq!(g.turn_queue.len(), 5);
    assert_eq!(g.turn_queue.pop(), Some(1));
    assert_eq!(g.turn_queue.pop(), Some(3));
    assert_eq!(g.turn_queue.pop(), Some(4));
    assert_eq!(g.turn_queue.pop(), Some(5));
    assert_eq!(g.turn_queue.pop(), Some(7));
    assert_eq!(g.turn_queue.pop(), None);
}

#[test]
fn edge_clipping_counts() {
    let g = Grid::new(3, 3);
    assert_eq!(g.get_neighbors((0, 0)).all().len(), 3);
    assert_eq!(g.get_neighbors((1, 1)).all().len(), 8);
    assert_eq!(g.get_neighbors((2, 2)).all().len(), 3);
    assert_eq!(g.get_neighbors((1, 0)).all().len(), 5);
    let single = Grid::new(1, 1);
    assert_eq!(single.get_neighbors((0, 0)).all().len(), 0);
    let wide = Grid::new(3, 2);
    assert_eq!(wide.get_neighbors((0, 0)).all().len(), 3);
}

#[test]
fn set_cell_queues_self_and_step_reaches_it() {
    let mut g = Grid::new(3, 3);
    g.set_cell((1, 1), get(CreatureType::Vanisher));
    let index = g.position_to_index((1, 1));
    assert!(g.turn_queue.contains(index));
    let before = g.turn_queue.len();
    assert_eq!(before, 1);
    g.step();
    // The vanisher was evaluated within the same step: it cleared itself.
    assert_eq!(g.get_cell((1, 1)).creature_type, CreatureType::Empty);
    assert_eq!(g.turn_queue.len(), 0);
}

#[test]
fn new_fills_empty_with_empty_queue() {
    let g = Grid::new(3, 3);
    for x in 0u32..3 {
        for y in 0u32..3 {
            assert_eq!(g.get_cell((x, y)).creature_type, CreatureType::Empty);
        }
    }
    assert_eq!(g.turn_queue.len(), 0);
}

#[test]
fn reset_clears_cells_but_preserves_queue() {
    let mut g = Grid::new(3, 3);
    g.set_cell((1, 1), get(CreatureType::Spreader));
    g.set_cell((0, 2), get(CreatureType::Blinker));
    assert_eq!(g.turn_queue.len(), 2);
    g.reset();
    for x in 0u32..3 {
        for y in 0u32..3 {
            assert_eq!(g.get_cell((x, y)).creature_type, CreatureType::Empty);
        }
    }
    // The documented edge case: reset leaves the turn queue untouched.
    assert_eq!(g.turn_queue.len(), 2);
}

#[test]
fn spreader_queues_all_eight_neighbors_in_order() {
    let mut g = Grid::new(3, 3);
    g.set_cell((1, 1), get(CreatureType::Spreader));
    g.step();
    // Expected order: (0,0),(1,0),(2,0),(0,1),(2,1),(0,2),(1,2),(2,2),
    // encoded with index = y * height + x.
    let expected: Vec<usize> = vec![0, 1, 2, 3, 5, 6, 7, 8];
    let mut drained: Vec<usize> = Vec::new();
    while let Some(i) = g.turn_queue.pop() {
        drained.push(i);
    }
    assert_eq!(drained, expected);
}

#[test]
fn clear_empties_cell_without_queuing() {
    let mut g = Grid::new(3, 3);
    g.set_cell((2, 2), get(CreatureType::Vanisher));
    assert_eq!(g.get_cell((2, 2)).creature_type, CreatureType::Vanisher);
    g.step();
    assert_eq!(g.get_cell((2, 2)).creature_type, CreatureType::Empty);
    let index = g.position_to_index((2, 2));
    assert!(!g.turn_queue.contains(index));
    assert_eq!(g.turn_queue.len(), 0);
}

#[test]
fn seeder_installs_and_requeues_target_and_neighbors() {
    let mut g = Grid::new(3, 3);
    g.set_cell((1, 1), get(CreatureType::Seeder));
    g.step();
    assert_eq!(g.get_cell((1, 1)).creature_type, CreatureType::Spreader);
    // Install pushes the written cell first, then the acting cell's
    // snapshot neighbors.
    let expected: Vec<usize> = vec![4, 0, 1, 2, 3, 5, 6, 7, 8];
    let mut drained: Vec<usize> = Vec::new();
    while let Some(i) = g.turn_queue.pop() {
        drained.push(i);
    }
    assert_eq!(drained, expected);
}

#[test]
fn blinker_keeps_itself_pending() {
    let mut g = Grid::new(2, 2);
    g.set_cell((0, 0), get(CreatureType::Blinker));
    g.step();
    assert_eq!(g.turn_queue.len(), 1);
    assert!(g.turn_queue.contains(0));
    g.step();
    assert_eq!(g.turn_queue.len(), 1);
    assert_eq!(g.get_cell((0, 0)).creature_type, CreatureType::Blinker);
}

#[test]
fn neighbor_snapshot_order_and_filters() {
    let mut g = Grid::new(3, 3);
    g.set_cell((0, 0), get(CreatureType::Spreader));
    g.set_cell((2, 0), get(CreatureType::Vanisher));
    let n = g.get_neighbors((1, 1));
    assert_eq!(n.pos(), (1, 1));
    assert_eq!(n.get_neighbor(0), (CreatureType::Spreader, (0, 0)));
    assert_eq!(n.get_neighbor(1), (CreatureType::Empty, (1, 0)));
    assert_eq!(n.get_neighbor(2), (CreatureType::Vanisher, (2, 0)));
    assert_eq!(n.all().len(), 8);

    let spreaders = n.of_type(CreatureType::Spreader);
    assert_eq!(spreaders, vec![(CreatureType::Spreader, (0, 0))]);

    let both = n.of_types(&[CreatureType::Spreader, CreatureType::Vanisher]);
    assert_eq!(
        both,
        vec![(CreatureType::Spreader, (0, 0)), (CreatureType::Vanisher, (2, 0))]
    );

    // A type listed twice matches each entry twice, in scan order.
    let doubled = n.of_types(&[CreatureType::Vanisher, CreatureType::Vanisher]);
    assert_eq!(
        doubled,
        vec![(CreatureType::Vanisher, (2, 0)), (CreatureType::Vanisher, (2, 0))]
    );

    let empties = n.of_type(CreatureType::Empty);
    assert_eq!(empties.len(), 6);
}

#[test]
fn creature_decisions() {
    let g = Grid::new(3, 3);
    let n = g.get_neighbors((1, 1));

    let idle = get(CreatureType::Empty).act(&n);
    assert_eq!(idle.len(), 1);
    assert!(matches!(idle[0], Action::Idle));

    let spread = get(CreatureType::Spreader).act(&n);
    assert_eq!(spread.len(), 2);
    assert!(matches!(spread[0], Action::QueueNeighbors));
    assert!(matches!(spread[1], Action::Idle));

    let vanish = get(CreatureType::Vanisher).act(&n);
    assert_eq!(vanish.len(), 1);
    assert!(matches!(vanish[0], Action::Clear((1, 1))));

    let seed = get(CreatureType::Seeder).act(&n);
    assert_eq!(seed.len(), 1);
    match seed[0] {
        Action::Install(pos, c) => {
            assert_eq!(pos, (1, 1));
            assert_eq!(c.creature_type, CreatureType::Spreader);
        },
        _ => panic!("seeder must install"),
    }

    let blink = get(CreatureType::Blinker).act(&n);
    assert_eq!(blink.len(), 1);
    assert!(matches!(blink[0], Action::Queue((1, 1))));
}

#[test]
fn color_enumerator_walks_every_cell_and_restarts() {
    let mut g = Grid::new(2, 2);
    g.set_cell((1, 0), get(CreatureType::Spreader));
    let spreader_color = get(CreatureType::Spreader).color;
    let empty_color = get(CreatureType::Empty).color;

    let mut e = g.color_enumerator();
    assert_eq!(e.next(), Some((0, empty_color)));
    assert_eq!(e.next(), Some((1, spreader_color)));
    assert_eq!(e.next(), Some((2, empty_color)));
    assert_eq!(e.next(), Some((3, empty_color)));
    assert_eq!(e.next(), None);
    assert_eq!(e.next(), None);

    let mut again = g.color_enumerator();
    assert_eq!(again.next(), Some((0, empty_color)));
}

#[test]
fn factory_builds_each_kind() {
    assert_eq!(get(CreatureType::Empty).creature_type, CreatureType::Empty);
    assert_eq!(get(CreatureType::Spreader).creature_type, CreatureType::Spreader);
    assert_eq!(get(CreatureType::Vanisher).creature_type, CreatureType::Vanisher);
    assert_eq!(get(CreatureType::Seeder).creature_type, CreatureType::Seeder);
    assert_eq!(get(CreatureType::Blinker).creature_type, CreatureType::Blinker);
    assert_ne!(get(CreatureType::Spreader).color, get(CreatureType::Empty).color);
}

#[test]
fn rectangular_grids_use_height_as_pitch() {
    // The layout encodes with the height as row pitch and decodes with
    // `(index % width, index / height)`, so encode and decode only invert
    // each other where `y * height` is a multiple of the width (always the
    // case on square grids).
    let g = Grid::new(3, 2);
    assert_eq!(g.position_to_index((2, 1)), 4);
    assert_eq!(g.index_to_position(4), (1, 2));
    assert_eq!(g.position_to_index((1, 1)), 3);
    assert_eq!(g.index_to_position(3), (0, 1));
}
