use korodis::{
    Flow, GameManager, Input, Layout, NoLandingCells, Size, Tetrominoe,
    TetrominoeType, TooSmall, Uvec2, BACKGROUND_COLOR, BLOCK_SCALE, BOX_COLOR, SGR,
};
use nanorand::WyRand;

const ROWS: u16 = 12;
const COLS: u16 = 10;

fn game(scale: usize) -> GameManager {
    GameManager::init(Size { rows: ROWS, cols: COLS }, scale, WyRand::new_seed(9), 0)
}

fn set_piece(gm: &mut GameManager, t: TetrominoeType, x: usize, y: usize) {
    gm.tetrominoe = Tetrominoe::placed(&gm.inner_box_size, gm.scale, t, Uvec2::new(x, y), SGR::GreenBG, 0);
}

fn cells(t: &Tetrominoe) -> Vec<(usize, usize)> {
    t.vertices_pos.iter().map(|v| (v.x, v.y)).collect()
}

#[test]
fn init_gives_empty_board_and_floor_skyline() {
    let gm = game(1);
    assert_eq!(gm.cells.len(), ROWS as usize);
    assert!(gm.cells.iter().all(|r| r.len() == COLS as usize && r.iter().all(|c| *c == BACKGROUND_COLOR)));
    assert_eq!(gm.cols_borders, vec![ROWS as usize - 1; COLS as usize]);
    assert_eq!(gm.next_tetrominoes.len(), 3);
    for (i, t) in gm.next_tetrominoes.iter().enumerate() {
        let p = gm.nt_pos(i);
        assert_eq!(t.vertices_pos[0], p);
        assert_eq!(t.scale, 1);
    }
    assert_eq!(gm.nt_pos(0), Uvec2::new(11, 1));
    assert_eq!(gm.nt_pos(1), Uvec2::new(11, 6));
    assert_eq!(gm.nt_pos(2), Uvec2::new(11, 11));
    assert_eq!(gm.tetrominoe.vertices_pos[0].y, 1);
    assert!(!gm.pause);
}

#[test]
fn collision_at_recorded_height() {
    let mut gm = game(1);
    gm.cols_borders[4] = 5;
    // a bar in column 4 whose lowest cell is on row 5
    set_piece(&mut gm, TetrominoeType::Bar, 4, 2);
    assert!(gm.is_collision());
    // one row higher
    set_piece(&mut gm, TetrominoeType::Bar, 4, 1);
    assert!(!gm.is_collision());
}

#[test]
fn collision_counts_the_block_height() {
    let mut gm = game(2);
    gm.cols_borders[4] = 9;
    // lowest cell on row 7, its block reaches row 8
    set_piece(&mut gm, TetrominoeType::Bar, 4, 1);
    assert!(!gm.is_collision());
    gm.cols_borders[4] = 8;
    assert!(gm.is_collision());
}

#[test]
fn commit_only_lowers_heights() {
    let mut gm = game(1);
    set_piece(&mut gm, TetrominoeType::Square, 3, 6);
    assert_eq!(gm.log_new_border(), Ok(()));
    assert_eq!(gm.cols_borders[3], 6);
    assert_eq!(gm.cols_borders[4], 6);
    assert_eq!(gm.cols_borders[5], ROWS as usize - 1);
    // a second piece strictly below the first in the same columns
    set_piece(&mut gm, TetrominoeType::Square, 3, 8);
    assert_eq!(gm.log_new_border(), Ok(()));
    assert_eq!(gm.cols_borders[3], 6);
    assert_eq!(gm.cols_borders[4], 6);
}

#[test]
fn commit_lowers_only_the_columns_of_the_cells() {
    let mut gm = game(2);
    set_piece(&mut gm, TetrominoeType::LRight, 4, 2);
    assert_eq!(gm.log_new_border(), Ok(()));
    // cells (4,2), (4,4), (4,6), (6,6): columns 4 and 6 only
    assert_eq!(gm.cols_borders[4], 2);
    assert_eq!(gm.cols_borders[6], 6);
    assert_eq!(gm.cols_borders[5], ROWS as usize - 1);
    assert_eq!(gm.cols_borders[7], ROWS as usize - 1);
    assert_eq!(gm.cols_borders[3], ROWS as usize - 1);
}

#[test]
fn commit_without_cells_fails() {
    let mut gm = game(1);
    gm.tetrominoe.vertices_pos.clear();
    let before = gm.cols_borders.clone();
    assert_eq!(gm.log_new_border(), Err(NoLandingCells));
    assert_eq!(gm.cols_borders, before);
}

#[test]
fn clear_full_rows_only() {
    let mut gm = game(1);
    let w = COLS as usize;
    for x in 0..w {
        gm.cells[7][x] = SGR::RedBG;
    }
    for x in 0..w - 1 {
        gm.cells[8][x] = SGR::CyanBG;
    }
    gm.cells[3][0] = SGR::BlueBG;
    gm.cells[3][5] = SGR::BlueBG;
    let before = gm.cells.clone();
    assert_eq!(gm.check_row_clear(), 1);
    // the skyline is measured again from what is left
    assert_eq!(gm.cols_borders[0], 3);
    assert_eq!(gm.cols_borders[5], 3);
    assert_eq!(gm.cols_borders[1], 8);
    assert_eq!(gm.cols_borders[9], ROWS as usize - 1);
    for y in 0..ROWS as usize {
        if y == 7 {
            assert!(gm.cells[y].iter().all(|c| *c == BACKGROUND_COLOR));
        } else {
            assert_eq!(gm.cells[y], before[y]);
        }
    }
}

#[test]
fn square_falls_one_row_after_still_time() {
    let mut gm = game(1);
    set_piece(&mut gm, TetrominoeType::Square, 4, 3);
    let color = gm.tetrominoe.color;
    // nothing happens before the rest time is over
    assert!(!gm.compute_next_frame(49));
    assert_eq!(cells(&gm.tetrominoe), vec![(4, 3), (5, 3), (4, 4), (5, 4)]);
    assert!(!gm.compute_next_frame(50));
    assert_eq!(cells(&gm.tetrominoe), vec![(4, 4), (5, 4), (4, 5), (5, 5)]);
    assert_eq!(gm.tetrominoe.ttype, TetrominoeType::Square);
    assert_eq!(gm.tetrominoe.color, color);
    assert_eq!(gm.tetrominoe.now, 50);
    assert_eq!(gm.cols_borders, vec![ROWS as usize - 1; COLS as usize]);
    for (x, y) in cells(&gm.tetrominoe) {
        assert_eq!(gm.cells[y][x], color);
    }
    assert_eq!(gm.cells[3][4], BACKGROUND_COLOR);
}

#[test]
fn piece_lands_on_floor_and_queue_promotes() {
    let mut gm = game(1);
    set_piece(&mut gm, TetrominoeType::Square, 4, 1);
    let head = gm.next_tetrominoes[0].ttype;
    let second = gm.next_tetrominoes[1].ttype;
    let mut now = 0;
    let mut falls = 0;
    loop {
        now += 50;
        let before = cells(&gm.tetrominoe);
        assert!(!gm.compute_next_frame(now), "landing away from row 1 is no game over");
        if cells(&gm.tetrominoe) == before.iter().map(|(x, y)| (*x, y + 1)).collect::<Vec<_>>() {
            falls += 1;
            continue;
        }
        // landed: the square rests with its bottom on the floor row 11
        assert_eq!(before, vec![(4, 10), (5, 10), (4, 11), (5, 11)]);
        break;
    }
    assert_eq!(falls, 9);
    assert_eq!(gm.cols_borders[4], 10);
    assert_eq!(gm.cols_borders[5], 10);
    assert_eq!(gm.cols_borders[6], ROWS as usize - 1);
    assert_ne!(gm.cells[11][4], BACKGROUND_COLOR);
    assert_ne!(gm.cells[10][5], BACKGROUND_COLOR);
    assert_eq!(gm.tetrominoe.ttype, head);
    assert_eq!(gm.next_tetrominoes[0].ttype, second);
    assert_eq!(gm.next_tetrominoes.len(), 3);
    assert_eq!(gm.tetrominoe.vertices_pos[0].y, 1);
}

#[test]
fn collision_on_spawn_row_is_game_over() {
    let mut gm = game(1);
    set_piece(&mut gm, TetrominoeType::Square, 4, 1);
    gm.cols_borders[4] = 2;
    gm.cols_borders[5] = 2;
    assert!(gm.compute_next_frame(50));
    assert_eq!(cells(&gm.tetrominoe), vec![(4, 1), (5, 1), (4, 2), (5, 2)]);
}

#[test]
fn queue_promotes_three_times() {
    let mut gm = game(1);
    let mut expected: Vec<TetrominoeType> = gm.next_tetrominoes.iter().map(|t| t.ttype).collect();
    for round in 0..3 {
        let head = expected.remove(0);
        let head_color = gm.next_tetrominoes[0].color;
        gm.pick_next_tetrominoe(100 + round);
        assert_eq!(gm.tetrominoe.ttype, head);
        assert_eq!(gm.tetrominoe.color, head_color);
        assert_eq!(gm.tetrominoe.scale, 1);
        assert_eq!(gm.next_tetrominoes.len(), 3);
        assert_eq!(gm.next_tetrominoes[0].ttype, expected[0]);
        assert_eq!(gm.next_tetrominoes[1].ttype, expected[1]);
        for (i, t) in gm.next_tetrominoes.iter().enumerate() {
            assert_eq!(t.vertices_pos[0], gm.nt_pos(i));
        }
        expected.push(gm.next_tetrominoes[2].ttype);
    }
}

#[test]
fn step_handles_keys() {
    let mut gm = game(1);
    set_piece(&mut gm, TetrominoeType::Bar, 4, 3);
    assert_eq!(gm.step(Some(Input::Quit), 10), Flow::Quit);
    assert_eq!(cells(&gm.tetrominoe), vec![(4, 3), (4, 4), (4, 5), (4, 6)]);
    assert_eq!(gm.step(Some(Input::Right), 10), Flow::Running);
    assert_eq!(cells(&gm.tetrominoe), vec![(5, 3), (5, 4), (5, 5), (5, 6)]);
    assert_eq!(gm.cells[3][5], SGR::GreenBG);
    assert_eq!(gm.cells[3][4], BACKGROUND_COLOR);
    assert_eq!(gm.step(Some(Input::Pause), 100), Flow::Paused);
    assert!(gm.pause);
    let grid = gm.cells.clone();
    let borders = gm.cols_borders.clone();
    assert_eq!(gm.step(Some(Input::Left), 200), Flow::Paused);
    assert_eq!(gm.step(Some(Input::RotateClockwise), 210), Flow::Paused);
    assert_eq!(gm.step(None, 220), Flow::Paused);
    assert_eq!(cells(&gm.tetrominoe), vec![(5, 3), (5, 4), (5, 5), (5, 6)]);
    assert_eq!(gm.cells, grid);
    assert_eq!(gm.cols_borders, borders);
    assert_eq!(gm.step(Some(Input::Pause), 300), Flow::Running);
    assert_eq!(cells(&gm.tetrominoe), vec![(5, 4), (5, 5), (5, 6), (5, 7)]);
    assert_eq!(gm.step(Some(Input::RotateClockwise), 310), Flow::Running);
    assert_eq!(cells(&gm.tetrominoe), vec![(5, 4), (4, 4), (3, 4), (2, 4)]);
    assert_eq!(gm.step(None, 320), Flow::Running);
}

#[test]
fn step_reports_game_over() {
    let mut gm = game(1);
    set_piece(&mut gm, TetrominoeType::Bar, 4, 1);
    gm.cols_borders[4] = 3;
    assert_eq!(gm.step(Some(Input::Other), 60), Flow::GameOver);
}

#[test]
fn layout_of_terminal() {
    assert_eq!(Layout::of_terminal(Size { rows: 31, cols: 200 }), Err(TooSmall));
    assert_eq!(Layout::of_terminal(Size { rows: 40, cols: 99 }), Err(TooSmall));
    let l = Layout::of_terminal(Size { rows: 40, cols: 120 }).unwrap();
    assert_eq!(l.tetris_size, Size { rows: 38, cols: 60 });
    assert_eq!(l.offset, Size { rows: 1, cols: 30 });
    assert_eq!(l.inner_box_size, Size { rows: 36, cols: 47 });
    assert_eq!(l.scale, BLOCK_SCALE);
}

#[test]
fn tetris_box_outline() {
    let l = Layout::of_terminal(Size { rows: 40, cols: 120 }).unwrap();
    let f = GameManager::draw_tetris_box(&l);
    assert_eq!(f.len(), 40);
    assert!(f.iter().all(|r| r.len() == 120));
    for x in 30..90 {
        assert_eq!(f[1][x], BOX_COLOR);
        assert_eq!(f[38][x], BOX_COLOR);
    }
    for y in 1..39 {
        assert_eq!(f[y][30], BOX_COLOR);
        assert_eq!(f[y][89], BOX_COLOR);
        assert_eq!(f[y][78], BOX_COLOR);
    }
    assert_eq!(f[20][50], BACKGROUND_COLOR);
    assert_eq!(f[1][8], SGR::BlueBG);
}

#[test]
fn clear_reports_the_number_of_full_rows() {
    let mut gm = game(1);
    assert_eq!(gm.check_row_clear(), 0);
    for y in [4usize, 9] {
        for x in 0..COLS as usize {
            gm.cells[y][x] = SGR::CyanBG;
        }
    }
    assert_eq!(gm.check_row_clear(), 2);
    assert!(gm.cells.iter().all(|r| r.iter().all(|c| *c == BACKGROUND_COLOR)));
}

#[test]
fn rebuild_borders_measures_the_board() {
    let mut gm = game(1);
    gm.cells[6][2] = SGR::RedBG;
    gm.cells[9][2] = SGR::RedBG;
    gm.cells[11][7] = SGR::RedBG;
    gm.cols_borders[5] = 3;
    gm.rebuild_borders();
    let mut expected = vec![ROWS as usize - 1; COLS as usize];
    expected[2] = 6;
    expected[7] = 11;
    assert_eq!(gm.cols_borders, expected);
}

#[test]
fn landing_that_fills_a_row_clears_it_and_measures_the_skyline() {
    let mut gm = game(1);
    let w = COLS as usize;
    // the floor row full but for columns 4 and 5, and one older cell above
    for x in 0..w {
        if x != 4 && x != 5 {
            gm.cells[11][x] = SGR::BlueBG;
        }
    }
    gm.cells[10][0] = SGR::BlueBG;
    for x in 0..w {
        gm.cols_borders[x] = if x == 0 { 10 } else if x == 4 || x == 5 { 11 } else { 11 };
    }
    // a square whose bottom already reaches row 11
    set_piece(&mut gm, TetrominoeType::Square, 4, 10);
    assert!(!gm.compute_next_frame(50));
    assert!(gm.cells[11].iter().all(|c| *c == BACKGROUND_COLOR));
    assert_eq!(gm.cells[10][4], SGR::GreenBG);
    assert_eq!(gm.cells[10][0], SGR::BlueBG);
    assert_eq!(gm.cols_borders[0], 10);
    assert_eq!(gm.cols_borders[4], 10);
    assert_eq!(gm.cols_borders[5], 10);
    assert_eq!(gm.cols_borders[1], ROWS as usize - 1);
}

#[test]
fn clearing_the_only_landed_cell_lowers_the_skyline_to_the_floor() {
    let mut gm = game(1);
    for x in 0..COLS as usize {
        gm.cells[10][x] = SGR::RedBG;
        gm.cols_borders[x] = 10;
    }
    assert_eq!(gm.check_row_clear(), 1);
    assert_eq!(gm.cols_borders, vec![ROWS as usize - 1; COLS as usize]);
}

#[test]
fn clear_without_full_rows_keeps_the_skyline() {
    let mut gm = game(1);
    gm.cells[10][2] = SGR::RedBG;
    gm.cols_borders[2] = 10;
    gm.cols_borders[3] = 4;
    let before = gm.cols_borders.clone();
    assert_eq!(gm.check_row_clear(), 0);
    assert_eq!(gm.cols_borders, before);
}
