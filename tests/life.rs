use game_of_life::{
    boundary_class, next_tile, BoundaryClass, Cell, Coordinates, Field, NeighborhoodPolicy,
    SeedError, Tile, TileMap,
};

fn grid_with(width: u16, height: u16, live: &[(u16, u16)]) -> TileMap {
    let mut map = TileMap::empty(width, height);
    for &(x, y) in live {
        map.set(x, y, Tile::Alive);
    }
    map
}

fn live_cells(map: &TileMap) -> Vec<(u16, u16)> {
    let mut out = Vec::new();
    for y in 0..map.height() {
        for x in 0..map.width() {
            if map.is_alive_at(Coordinates::new(x, y)) {
                out.push((x, y));
            }
        }
    }
    out
}

#[test]
fn empty_grid_is_all_dead() {
    let map = TileMap::empty(4, 3);
    assert_eq!(map.width(), 4);
    assert_eq!(map.height(), 3);
    assert!(live_cells(&map).is_empty());
}

#[test]
fn seed_places_exact_count() {
    for n in [0u16, 1, 7, 19, 20] {
        let mut map = TileMap::empty(5, 4);
        assert_eq!(map.set_initial_conditions(n), Ok(()));
        assert_eq!(live_cells(&map).len(), n as usize);
        assert_eq!(map.count_dead(), 20 - n as usize);
    }
}

#[test]
fn seed_fills_whole_grid() {
    let mut map = TileMap::empty(3, 3);
    assert_eq!(map.set_initial_conditions(9), Ok(()));
    assert_eq!(live_cells(&map).len(), 9);
}

#[test]
fn seed_too_many_is_refused_without_change() {
    let mut map = grid_with(3, 2, &[(1, 1)]);
    assert_eq!(map.set_initial_conditions(7), Err(SeedError::InvalidSeedCount));
    assert_eq!(live_cells(&map), vec![(1, 1)]);
}

#[test]
fn seed_keeps_existing_live_cells() {
    let mut map = grid_with(4, 4, &[(0, 0), (3, 3)]);
    assert_eq!(map.set_initial_conditions(5), Ok(()));
    let live = live_cells(&map);
    assert_eq!(live.len(), 7);
    assert!(live.contains(&(0, 0)));
    assert!(live.contains(&(3, 3)));
    assert_eq!(map.set_initial_conditions(10), Err(SeedError::InvalidSeedCount));
}

#[test]
fn seed_zero_size_grid() {
    let mut map = TileMap::empty(0, 5);
    assert_eq!(map.set_initial_conditions(0), Ok(()));
    assert_eq!(map.set_initial_conditions(1), Err(SeedError::InvalidSeedCount));
}

#[test]
fn seeded_builds_grid() {
    let map = TileMap::seeded(25, 25, 30).unwrap();
    assert_eq!(map.width(), 25);
    assert_eq!(map.height(), 25);
    assert_eq!(live_cells(&map).len(), 30);
    assert_eq!(TileMap::seeded(2, 2, 5).err(), Some(SeedError::InvalidSeedCount));
}

#[test]
fn policies_agree_on_every_cell() {
    for (w, h, n) in [(1u16, 1u16, 1u16), (1, 6, 3), (6, 1, 2), (2, 2, 2), (7, 5, 17), (9, 9, 40)] {
        let map = TileMap::seeded(w, h, n).unwrap();
        for y in 0..h {
            for x in 0..w {
                let c = Coordinates::new(x, y);
                let a = NeighborhoodPolicy::Clipped.live_neighbor_count(&map, c);
                let b = NeighborhoodPolicy::EdgeCase.live_neighbor_count(&map, c);
                assert_eq!(a, b);
                assert_eq!(map.edge_case_count_at(c), map.alive_count_at(c));
            }
        }
    }
}

#[test]
fn full_grid_counts() {
    let map = TileMap::seeded(3, 3, 9).unwrap();
    assert_eq!(map.alive_count_at(Coordinates::new(0, 0)), 3);
    assert_eq!(map.alive_count_at(Coordinates::new(1, 0)), 5);
    assert_eq!(map.alive_count_at(Coordinates::new(1, 1)), 8);
    assert_eq!(map.edge_case_count_at(Coordinates::new(2, 2)), 3);
    assert_eq!(map.edge_case_count_at(Coordinates::new(2, 1)), 5);
    assert_eq!(map.edge_case_count_at(Coordinates::new(1, 1)), 8);
}

#[test]
fn neighbor_count_ignores_own_state() {
    let map = grid_with(3, 3, &[(1, 1), (0, 0), (2, 2)]);
    assert_eq!(map.alive_count_at(Coordinates::new(1, 1)), 2);
    assert_eq!(map.alive_count_at(Coordinates::new(0, 0)), 1);
}

#[test]
fn neighbor_count_off_grid_position() {
    let map = grid_with(3, 3, &[(2, 2), (2, 1)]);
    assert_eq!(map.alive_count_at(Coordinates::new(3, 3)), 1);
    assert_eq!(map.alive_count_at(Coordinates::new(3, 2)), 2);
    assert_eq!(map.alive_count_at(Coordinates::new(100, 100)), 0);
}

#[test]
fn is_alive_at_off_grid_is_dead() {
    let map = grid_with(2, 2, &[(1, 1)]);
    assert!(map.is_alive_at(Coordinates::new(1, 1)));
    assert!(!map.is_alive_at(Coordinates::new(2, 1)));
    assert!(!map.is_alive_at(Coordinates::new(1, 2)));
    assert_eq!(map.get(1, 1), Tile::Alive);
    assert_eq!(map.get(0, 1), Tile::Dead);
}

#[test]
fn safe_square_at_corner_edge_interior() {
    let map = TileMap::empty(3, 3);
    let m = u16::MAX;
    let corner = map.safe_square_at(Coordinates::new(0, 0));
    assert_eq!(
        corner,
        vec![
            Coordinates::new(m, m),
            Coordinates::new(0, m),
            Coordinates::new(1, m),
            Coordinates::new(m, 0),
            Coordinates::new(1, 0),
            Coordinates::new(m, 1),
            Coordinates::new(0, 1),
            Coordinates::new(1, 1),
        ]
    );
    let on_grid: Vec<Coordinates> =
        corner.into_iter().filter(|c| c.x < map.width() && c.y < map.height()).collect();
    assert_eq!(
        on_grid,
        vec![Coordinates::new(1, 0), Coordinates::new(0, 1), Coordinates::new(1, 1)]
    );
    let far = map.safe_square_at(Coordinates::new(2, 2));
    assert_eq!(far.len(), 8);
    assert_eq!(far[7], Coordinates::new(3, 3));
    let inner = map.safe_square_at(Coordinates::new(1, 1));
    assert_eq!(
        inner,
        vec![
            Coordinates::new(0, 0),
            Coordinates::new(1, 0),
            Coordinates::new(2, 0),
            Coordinates::new(0, 1),
            Coordinates::new(2, 1),
            Coordinates::new(0, 2),
            Coordinates::new(1, 2),
            Coordinates::new(2, 2),
        ]
    );
    let top = map.safe_square_at(Coordinates::new(m, m));
    assert_eq!(top[0], Coordinates::new(m - 1, m - 1));
    assert_eq!(top[7], Coordinates::new(m, m));
}

#[test]
fn safe_square_at_does_not_depend_on_grid() {
    let c = Coordinates::new(5, 7);
    assert_eq!(TileMap::empty(1, 1).safe_square_at(c), TileMap::empty(20, 20).safe_square_at(c));
}

#[test]
fn boundary_classes() {
    assert_eq!(boundary_class(0, 0, 4, 3), BoundaryClass::NorthWest);
    assert_eq!(boundary_class(3, 0, 4, 3), BoundaryClass::NorthEast);
    assert_eq!(boundary_class(1, 0, 4, 3), BoundaryClass::North);
    assert_eq!(boundary_class(0, 2, 4, 3), BoundaryClass::SouthWest);
    assert_eq!(boundary_class(3, 2, 4, 3), BoundaryClass::SouthEast);
    assert_eq!(boundary_class(2, 2, 4, 3), BoundaryClass::South);
    assert_eq!(boundary_class(0, 1, 4, 3), BoundaryClass::West);
    assert_eq!(boundary_class(3, 1, 4, 3), BoundaryClass::East);
    assert_eq!(boundary_class(1, 1, 4, 3), BoundaryClass::Interior);
}

#[test]
fn rule_table() {
    for n in 0u8..=8 {
        let survives = next_tile(Tile::Alive, n) == Tile::Alive;
        let born = next_tile(Tile::Dead, n) == Tile::Alive;
        assert_eq!(survives, n == 2 || n == 3);
        assert_eq!(born, n == 3);
    }
}

#[test]
fn dead_grid_stays_dead() {
    for policy in [NeighborhoodPolicy::Clipped, NeighborhoodPolicy::EdgeCase] {
        let mut map = TileMap::empty(6, 4);
        map.advance(&policy);
        assert!(live_cells(&map).is_empty());
        assert_eq!(map.width(), 6);
        assert_eq!(map.height(), 4);
    }
}

#[test]
fn lone_center_cell_dies() {
    let mut map = grid_with(3, 3, &[(1, 1)]);
    assert_eq!(map.alive_count_at(Coordinates::new(1, 1)), 0);
    map.advance(&NeighborhoodPolicy::Clipped);
    assert!(live_cells(&map).is_empty());
}

#[test]
fn blinker_oscillates() {
    let horizontal = vec![(1, 2), (2, 2), (3, 2)];
    let vertical = vec![(2, 1), (2, 2), (2, 3)];
    let mut map = grid_with(5, 5, &horizontal);
    map.advance(&NeighborhoodPolicy::Clipped);
    assert_eq!(live_cells(&map), vertical);
    map.advance(&NeighborhoodPolicy::Clipped);
    assert_eq!(live_cells(&map), horizontal);
    map.advance(&NeighborhoodPolicy::EdgeCase);
    assert_eq!(live_cells(&map), vertical);
    map.advance(&NeighborhoodPolicy::EdgeCase);
    assert_eq!(live_cells(&map), horizontal);
}

#[test]
fn corner_cell_with_two_neighbors_survives() {
    for (w, h) in [(2u16, 2u16), (4, 3), (5, 5)] {
        let mut map = grid_with(w, h, &[(0, 0), (1, 0), (0, 1)]);
        let corner = Coordinates::new(0, 0);
        assert_eq!(map.alive_count_at(corner), 2);
        assert_eq!(map.edge_case_count_at(corner), 2);
        let square = map.safe_square_at(corner);
        assert_eq!(square.len(), 8);
        let on_grid = square.iter().filter(|c| c.x < w && c.y < h).count();
        assert_eq!(on_grid, 3);
        map.advance(&NeighborhoodPolicy::EdgeCase);
        assert!(map.is_alive_at(corner));
        assert!(map.is_alive_at(Coordinates::new(1, 0)));
        assert!(map.is_alive_at(Coordinates::new(0, 1)));
        assert!(map.is_alive_at(Coordinates::new(1, 1)));
        assert_eq!(live_cells(&map).len(), 4);
    }
}

#[test]
fn block_is_still_life() {
    let block = vec![(2, 2), (3, 2), (2, 3), (3, 3)];
    let mut map = grid_with(6, 6, &block);
    for _ in 0..5 {
        map.advance(&NeighborhoodPolicy::Clipped);
        assert_eq!(live_cells(&map), block);
    }
    map.advance(&NeighborhoodPolicy::EdgeCase);
    assert_eq!(live_cells(&map), block);
}

#[test]
fn advance_uses_previous_generation() {
    // An in-place scan would see (1, 0) already dead when it reaches (1, 1).
    let mut map = grid_with(3, 3, &[(0, 0), (1, 0), (2, 0)]);
    map.advance(&NeighborhoodPolicy::Clipped);
    assert_eq!(live_cells(&map), vec![(1, 0), (1, 1)]);
}

#[test]
fn tile_console_output() {
    assert_eq!(Tile::Dead.console_output(), " ");
    let live = Tile::Alive.console_output();
    assert!(live == "*" || live == "\u{1b}[91m*\u{1b}[0m");
    assert!(Tile::Alive.is_alive());
    assert!(!Tile::Dead.is_alive());
}

#[test]
fn render_exact_text() {
    let map = grid_with(3, 2, &[(0, 0), (2, 1)]);
    assert_eq!(map.render("#", "."), "Map (3, 2):\n-----\n|..#|\n|#..|\n-----");
    let wide = TileMap::empty(12, 1);
    assert_eq!(wide.render("#", "."), "Map (12, 1):\n--------------\n|............|\n--------------");
}

#[test]
fn console_output_of_map() {
    let dead = TileMap::empty(2, 1);
    assert_eq!(dead.console_output(), "Map (2, 1):\n----\n|  |\n----");
    let map = grid_with(2, 1, &[(1, 0)]);
    let text = map.console_output();
    assert!(
        text == "Map (2, 1):\n----\n| *|\n----"
            || text == "Map (2, 1):\n----\n| \u{1b}[91m*\u{1b}[0m|\n----"
    );
}

#[test]
fn field_cells_know_their_position() {
    let field = Field::new(4, 3);
    assert_eq!(field.get_width(), 4);
    assert_eq!(field.get_height(), 3);
    let mat = field.get_mat();
    assert_eq!(mat.len(), 4);
    for (x, column) in mat.iter().enumerate() {
        assert_eq!(column.len(), 3);
        for (y, cell) in column.iter().enumerate() {
            assert_eq!(cell.get_pos(), (x, y));
            assert!(!cell.alive);
        }
    }
    let cell = Cell::new(7, 9);
    assert_eq!(cell.get_pos(), (7, 9));
}
