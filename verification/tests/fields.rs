use fixedbitset::FixedBitSet;
use game_of_life::Universe;

const DEAD: char = '\u{25FB}';
const ALIVE: char = '\u{25FC}';

fn cells_of(universe: &Universe) -> Vec<bool> {
    let mut cells = Vec::new();
    for row in 0..universe.height() {
        for col in 0..universe.width() {
            cells.push(universe.is_alive(row, col));
        }
    }
    cells
}

#[test]
fn new_universe_has_the_seed_pattern() {
    let universe = Universe::new(64, 64);
    assert_eq!(universe.width(), 64);
    assert_eq!(universe.height(), 64);
    assert_eq!(universe.get_size(), 4096);
    for row in 0..64u32 {
        for col in 0..64u32 {
            let i = row * 64 + col;
            assert_eq!(universe.is_alive(row, col), i % 2 == 0 || i % 7 == 0, "cell {}", i);
        }
    }
}

#[test]
fn new_universe_of_five_by_three() {
    let universe = Universe::new(5, 3);
    let expected = vec![
        true, false, true, false, true, false, true, true, true, false, true, false, true, false,
        true,
    ];
    assert_eq!(cells_of(&universe), expected);
}

#[test]
fn new_universe_without_cells_is_valid() {
    for (width, height) in [(0u32, 0u32), (0, 5), (5, 0)] {
        let universe = Universe::new(width, height);
        assert_eq!(universe.width(), width);
        assert_eq!(universe.height(), height);
        assert_eq!(universe.get_size(), 0);
        assert_eq!(universe.get_cells().len(), 0);
        assert_eq!(universe.cells().len(), 0);
    }
}

#[test]
fn index_is_row_major() {
    let universe = Universe::new(5, 3);
    assert_eq!(universe.get_index(0, 0), 0);
    assert_eq!(universe.get_index(0, 4), 4);
    assert_eq!(universe.get_index(1, 0), 5);
    assert_eq!(universe.get_index(2, 3), 13);
    assert_eq!(universe.get_index(2, 4), 14);
}

#[test]
fn kill_cells_leaves_no_live_cell() {
    let mut universe = Universe::new(9, 4);
    universe.kill_cells();
    assert_eq!(universe.width(), 9);
    assert_eq!(universe.height(), 4);
    assert_eq!(cells_of(&universe), vec![false; 36]);
    assert_eq!(universe.get_cells().count_ones(..), 0);
    assert_eq!(universe.get_cells().len(), 36);
}

#[test]
fn set_width_gives_a_dead_universe_of_the_new_width() {
    let mut universe = Universe::new(6, 4);
    assert!(universe.is_alive(0, 0));
    universe.set_width(9);
    assert_eq!(universe.width(), 9);
    assert_eq!(universe.height(), 4);
    assert_eq!(universe.get_size(), 36);
    assert_eq!(universe.get_cells().len(), 36);
    assert_eq!(cells_of(&universe), vec![false; 36]);
    universe.randomize(&[true; 36]);
    universe.set_width(2);
    assert_eq!(universe.width(), 2);
    assert_eq!(cells_of(&universe), vec![false; 8]);
    universe.set_width(0);
    assert_eq!(universe.get_size(), 0);
    assert_eq!(universe.height(), 4);
}

#[test]
fn set_height_gives_a_dead_universe_of_the_new_height() {
    let mut universe = Universe::new(6, 4);
    universe.set_height(7);
    assert_eq!(universe.width(), 6);
    assert_eq!(universe.height(), 7);
    assert_eq!(universe.get_size(), 42);
    assert_eq!(universe.get_cells().len(), 42);
    assert_eq!(cells_of(&universe), vec![false; 42]);
    universe.randomize(&[true; 42]);
    universe.set_height(1);
    assert_eq!(universe.height(), 1);
    assert_eq!(cells_of(&universe), vec![false; 6]);
}

#[test]
fn set_width_to_the_same_width_clears_too() {
    let mut universe = Universe::new(6, 4);
    universe.set_width(6);
    assert_eq!(cells_of(&universe), vec![false; 24]);
    let mut other = Universe::new(6, 4);
    other.set_height(4);
    assert_eq!(cells_of(&other), vec![false; 24]);
}

#[test]
fn toggle_inverts_one_cell() {
    let mut universe = Universe::new(5, 3);
    let before = cells_of(&universe);
    assert!(!universe.is_alive(1, 0));
    universe.toggle_cell(1, 0);
    let mut expected = before.clone();
    expected[5] = true;
    assert_eq!(cells_of(&universe), expected);
    universe.toggle_cell(2, 4);
    expected[14] = false;
    assert_eq!(cells_of(&universe), expected);
}

#[test]
fn toggle_twice_restores_the_cell() {
    let mut universe = Universe::new(5, 3);
    let before = cells_of(&universe);
    for row in 0..3 {
        for col in 0..5 {
            universe.toggle_cell(row, col);
            assert_ne!(cells_of(&universe), before);
            universe.toggle_cell(row, col);
            assert_eq!(cells_of(&universe), before);
        }
    }
}

#[test]
fn set_cells_marks_the_named_cells_and_keeps_the_others() {
    let mut universe = Universe::new(4, 3);
    let before = cells_of(&universe);
    universe.set_cells(&[(0, 1), (2, 3), (0, 1), (0, 0)]);
    let mut expected = before.clone();
    expected[1] = true;
    expected[11] = true;
    assert_eq!(cells_of(&universe), expected);
    universe.set_cells(&[]);
    assert_eq!(cells_of(&universe), expected);
}

#[test]
fn randomize_sets_each_cell_from_its_draw() {
    let mut universe = Universe::new(3, 2);
    let draws = [false, true, true, false, false, true];
    universe.randomize(&draws);
    assert_eq!(cells_of(&universe), draws.to_vec());
    assert_eq!(universe.width(), 3);
    assert_eq!(universe.height(), 2);
    let inverse = [true, false, false, true, true, false];
    universe.randomize(&inverse);
    assert_eq!(cells_of(&universe), inverse.to_vec());
}

#[test]
fn cells_are_packed_thirty_two_to_a_block() {
    let mut universe = Universe::new(8, 5);
    universe.kill_cells();
    assert_eq!(universe.cells(), &[0u32, 0u32]);
    universe.set_cells(&[(0, 0), (0, 3), (3, 7), (4, 0), (4, 7)]);
    assert_eq!(universe.cells(), &[0x8000_0009u32, 0x0000_0081u32]);
    universe.toggle_cell(0, 0);
    assert_eq!(universe.cells(), &[0x8000_0008u32, 0x0000_0081u32]);
}

#[test]
fn seed_pattern_blocks() {
    let universe = Universe::new(4, 4);
    assert_eq!(universe.cells(), &[0b0101_0101_1101_0101u32]);
}

#[test]
fn get_cells_is_the_bit_set_behind_the_universe() {
    let mut universe = Universe::new(4, 3);
    universe.kill_cells();
    universe.set_cells(&[(1, 2), (2, 3)]);
    let mut expected = FixedBitSet::with_capacity(12);
    expected.insert(6);
    expected.insert(11);
    assert_eq!(universe.get_cells(), &expected);
    assert!(universe.get_cells().contains(6));
    assert!(!universe.get_cells().contains(5));
    assert_eq!(universe.get_cells().ones().collect::<Vec<usize>>(), vec![6, 11]);
}

#[test]
fn render_has_a_line_for_each_row_and_a_glyph_for_each_cell() {
    for (width, height) in [(1u32, 1u32), (5, 3), (3, 5), (64, 64), (33, 2)] {
        let universe = Universe::new(width, height);
        let text = universe.render();
        assert_eq!(text.lines().count(), height as usize);
        assert_eq!(text.matches('\n').count(), height as usize);
        assert!(text.ends_with('\n'));
        for line in text.lines() {
            assert_eq!(line.chars().count(), width as usize);
            assert!(line.chars().all(|ch| ch == DEAD || ch == ALIVE));
        }
    }
}

#[test]
fn render_is_exact() {
    let mut universe = Universe::new(3, 2);
    universe.randomize(&[true, false, false, false, true, true]);
    let expected: String = [ALIVE, DEAD, DEAD, '\n', DEAD, ALIVE, ALIVE, '\n'].iter().collect();
    assert_eq!(universe.render(), expected);
    universe.kill_cells();
    let dead: String = [DEAD, DEAD, DEAD, '\n', DEAD, DEAD, DEAD, '\n'].iter().collect();
    assert_eq!(universe.render(), dead);
}

#[test]
fn render_does_not_change_the_universe() {
    let universe = Universe::new(6, 6);
    let before = cells_of(&universe);
    let first = universe.render();
    let second = universe.render();
    assert_eq!(first, second);
    assert_eq!(cells_of(&universe), before);
}

#[test]
fn render_of_universe_without_cells() {
    assert_eq!(Universe::new(0, 0).render(), "");
    assert_eq!(Universe::new(4, 0).render(), "");
    assert_eq!(Universe::new(0, 3).render(), "\n\n\n");
}
