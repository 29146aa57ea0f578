use game_of_life::{Cell, Universe};

fn make(width: u32, height: u32, alive: &[(u32, u32)]) -> Universe {
    let mut cells = vec![Cell::Dead; (width * height) as usize];
    for &(r, c) in alive {
        cells[(r * width + c) as usize] = Cell::Alive;
    }
    Universe::from_cells(width, height, cells).unwrap()
}

fn cell(u: &Universe, r: u32, c: u32) -> Cell {
    u.cells()[(r * u.width() + c) as usize]
}

fn alive_positions(u: &Universe) -> Vec<(u32, u32)> {
    let mut out = Vec::new();
    for r in 0..u.height() {
        for c in 0..u.width() {
            if cell(u, r, c) == Cell::Alive {
                out.push((r, c));
            }
        }
    }
    out
}

#[test]
fn default_dimensions_and_buffer_len() {
    let mut u = Universe::new();
    assert_eq!(u.width(), 160);
    assert_eq!(u.height(), 90);
    assert_eq!(u.cells().len(), 160 * 90);
    u.tick();
    assert_eq!(u.cells().len(), 160 * 90);
    u.tick();
    assert_eq!(u.cells().len(), 160 * 90);
}

#[test]
fn default_seed_pattern() {
    let u = Universe::new();
    for i in 0..(160 * 90) {
        let expected = if i % 2 == 0 || i % 7 == 0 {
            Cell::Alive
        } else {
            Cell::Dead
        };
        assert_eq!(u.cells()[i], expected);
    }
}

#[test]
fn default_constructor_is_deterministic() {
    let a = Universe::new();
    let b = Universe::new();
    assert_eq!(a.width(), b.width());
    assert_eq!(a.height(), b.height());
    assert_eq!(a.cells(), b.cells());
}

#[test]
fn random_has_fixed_dimensions() {
    let u = Universe::random();
    assert_eq!(u.width(), 160);
    assert_eq!(u.height(), 90);
    assert_eq!(u.cells().len(), 160 * 90);
}

#[test]
fn from_cells_accepts_exactly_full_buffers() {
    let u = Universe::from_cells(3, 2, vec![Cell::Dead; 6]).unwrap();
    assert_eq!(u.width(), 3);
    assert_eq!(u.height(), 2);
    assert_eq!(u.cells().len(), 6);
    assert!(Universe::from_cells(3, 2, vec![Cell::Dead; 5]).is_none());
    assert!(Universe::from_cells(3, 2, vec![Cell::Dead; 7]).is_none());
    assert!(Universe::from_cells(0, 2, vec![]).is_none());
    assert!(Universe::from_cells(3, 0, vec![]).is_none());
}

#[test]
fn isolated_cell_dies_of_underpopulation() {
    let mut u = make(3, 3, &[(1, 1)]);
    u.tick();
    assert_eq!(alive_positions(&u), Vec::<(u32, u32)>::new());
}

#[test]
fn dead_cell_with_three_neighbors_is_born() {
    let mut u = make(5, 5, &[(1, 1), (1, 3), (3, 2)]);
    u.tick();
    assert_eq!(cell(&u, 2, 2), Cell::Alive);
}

#[test]
fn dead_cell_with_two_neighbors_stays_dead() {
    let mut u = make(5, 5, &[(1, 1), (1, 3)]);
    u.tick();
    assert_eq!(cell(&u, 2, 2), Cell::Dead);
}

#[test]
fn dead_cell_with_four_neighbors_stays_dead() {
    let mut u = make(5, 5, &[(1, 1), (1, 3), (3, 1), (3, 3)]);
    u.tick();
    assert_eq!(cell(&u, 2, 2), Cell::Dead);
}

#[test]
fn alive_cell_with_four_neighbors_dies_of_overpopulation() {
    let mut u = make(5, 5, &[(1, 2), (2, 1), (2, 2), (2, 3), (3, 2)]);
    u.tick();
    assert_eq!(cell(&u, 2, 2), Cell::Dead);
}

#[test]
fn block_is_a_still_life() {
    let mut u = make(4, 4, &[(1, 1), (1, 2), (2, 1), (2, 2)]);
    let before = u.cells().clone();
    for _ in 0..5 {
        u.tick();
        assert_eq!(u.cells(), &before);
    }
}

#[test]
fn blinker_oscillates_with_period_two() {
    let mut u = make(7, 7, &[(3, 2), (3, 3), (3, 4)]);
    u.tick();
    assert_eq!(alive_positions(&u), vec![(2, 3), (3, 3), (4, 3)]);
    u.tick();
    assert_eq!(alive_positions(&u), vec![(3, 2), (3, 3), (3, 4)]);
}

#[test]
fn neighbors_wrap_around_the_edges() {
    // A horizontal blinker centred at the corner column: its arms sit on the
    // two edge columns, and only toroidal wrap lets it flip to vertical.
    let mut u = make(5, 5, &[(0, 4), (0, 0), (0, 1)]);
    u.tick();
    assert_eq!(alive_positions(&u), vec![(0, 0), (1, 0), (4, 0)]);
    u.tick();
    assert_eq!(alive_positions(&u), vec![(0, 0), (0, 1), (0, 4)]);
}
