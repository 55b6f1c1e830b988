use korodis::{Size, Tetrominoe, TetrominoeType, Uvec2, SGR, STILL_TIME_MS};
use nanorand::WyRand;

fn board() -> Size {
    Size { rows: 30, cols: 20 }
}

fn cells(t: &Tetrominoe) -> Vec<(usize, usize)> {
    t.vertices_pos.iter().map(|v| (v.x, v.y)).collect()
}

fn placed(t: TetrominoeType, x: usize, y: usize, scale: usize) -> Tetrominoe {
    Tetrominoe::placed(&board(), scale, t, Uvec2::new(x, y), SGR::BlueBG, 0)
}

#[test]
fn spawn_every_kind_lies_on_board() {
    let size = board();
    let mut rng = WyRand::new_seed(11);
    for id in 0..7u8 {
        for scale in 1..=4usize {
            for _ in 0..20 {
                let t = Tetrominoe::new(&size, scale, Some(TetrominoeType::from_id(id)), None, &mut rng, 0);
                assert_eq!(t.vertices_pos.len(), 4);
                for v in &t.vertices_pos {
                    assert!(v.x < size.cols as usize);
                    assert!(v.y < size.rows as usize);
                }
                let pivot = t.vertices_pos[0];
                assert_eq!(pivot.y, 1);
                assert!(pivot.x >= 2 * scale && pivot.x <= size.cols as usize - 2 * scale);
                assert_eq!(pivot.x % scale, 0);
            }
        }
    }
}

#[test]
fn shape_tables_follow_the_silhouettes() {
    assert_eq!(cells(&placed(TetrominoeType::Bar, 5, 1, 2)), vec![(5, 1), (5, 3), (5, 5), (5, 7)]);
    assert_eq!(cells(&placed(TetrominoeType::Square, 5, 1, 1)), vec![(5, 1), (6, 1), (5, 2), (6, 2)]);
    assert_eq!(cells(&placed(TetrominoeType::Pyramid, 5, 1, 1)), vec![(5, 1), (4, 1), (6, 1), (5, 2)]);
    assert_eq!(cells(&placed(TetrominoeType::LLeft, 5, 1, 1)), vec![(5, 1), (5, 2), (5, 3), (4, 3)]);
    assert_eq!(cells(&placed(TetrominoeType::LRight, 5, 1, 1)), vec![(5, 1), (5, 2), (5, 3), (6, 3)]);
    assert_eq!(cells(&placed(TetrominoeType::SnakeLeft, 5, 1, 1)), vec![(5, 1), (4, 1), (5, 2), (6, 2)]);
    assert_eq!(cells(&placed(TetrominoeType::SnakeRight, 5, 1, 1)), vec![(5, 1), (6, 1), (5, 2), (4, 2)]);
}

#[test]
fn spawn_at_given_position_keeps_it() {
    let mut rng = WyRand::new_seed(3);
    let t = Tetrominoe::new(&board(), 1, Some(TetrominoeType::Square), Some(Uvec2::new(7, 4)), &mut rng, 9);
    assert_eq!(cells(&t), vec![(7, 4), (8, 4), (7, 5), (8, 5)]);
    assert_eq!(t.now, 9);
    assert_eq!(t.still_time, STILL_TIME_MS);
    assert!(matches!(t.color, SGR::BlueBG | SGR::CyanBG | SGR::GreenBG | SGR::MagentaBG | SGR::RedBG));
}

#[test]
fn from_self_keeps_shape_and_color() {
    let mut rng = WyRand::new_seed(5);
    let mut a = placed(TetrominoeType::LRight, 5, 1, 1);
    a.color = SGR::MagentaBG;
    a.still_time = 80;
    let b = Tetrominoe::from_self(&a, Some(2), Some(Uvec2::new(6, 2)), &mut rng, 4);
    assert_eq!(b.ttype, TetrominoeType::LRight);
    assert_eq!(b.color, SGR::MagentaBG);
    assert_eq!(b.still_time, 80);
    assert_eq!(b.scale, 2);
    assert_eq!(cells(&b), vec![(6, 2), (6, 4), (6, 6), (8, 6)]);
}

#[test]
fn rotate_four_times_is_identity() {
    for id in 0..7u8 {
        let mut t = placed(TetrominoeType::from_id(id), 8, 8, 1);
        let start = cells(&t);
        t.rotate(true);
        assert_ne!(cells(&t), start, "a quarter turn moves kind {}", id);
        t.rotate(true);
        t.rotate(true);
        t.rotate(true);
        assert_eq!(cells(&t), start);
    }
}

#[test]
fn rotate_clockwise_turns_bar_to_the_left() {
    let mut t = placed(TetrominoeType::Bar, 8, 8, 1);
    t.rotate(true);
    assert_eq!(cells(&t), vec![(8, 8), (7, 8), (6, 8), (5, 8)]);
    let mut u = placed(TetrominoeType::Bar, 8, 8, 1);
    u.rotate(false);
    assert_eq!(cells(&u), vec![(8, 8), (9, 8), (10, 8), (11, 8)]);
}

#[test]
fn rotation_is_all_or_nothing() {
    // the turned cells would be (2, 4), (2, 6) and (1, 5): only the last
    // leaves the columns allowed, which start at 2
    let mut t = placed(TetrominoeType::Pyramid, 2, 5, 1);
    let start = cells(&t);
    t.rotate(true);
    assert_eq!(cells(&t), start);
    // the same piece one column to the right turns
    let mut u = placed(TetrominoeType::Pyramid, 3, 5, 1);
    u.rotate(true);
    assert_eq!(cells(&u), vec![(3, 5), (3, 4), (3, 6), (2, 5)]);
}

#[test]
fn translate_left_then_right_restores() {
    let mut t = placed(TetrominoeType::SnakeLeft, 8, 3, 2);
    let start = cells(&t);
    t.translate_left();
    assert_eq!(cells(&t), vec![(6, 3), (4, 3), (6, 5), (8, 5)]);
    t.translate_right();
    assert_eq!(cells(&t), start);
}

#[test]
fn translate_is_refused_at_the_walls() {
    // leftmost cell at column 1: a shift left would put it at 0 < scale
    let mut t = placed(TetrominoeType::Pyramid, 2, 3, 1);
    let start = cells(&t);
    t.translate_left();
    assert_eq!(cells(&t), start);
    // rightmost cell at column 19 on a board of 20: past cols - scale
    let mut u = placed(TetrominoeType::Pyramid, 18, 3, 1);
    let start = cells(&u);
    u.translate_right();
    assert_eq!(cells(&u), start);
    let mut w = placed(TetrominoeType::Pyramid, 17, 3, 1);
    w.translate_right();
    assert_eq!(cells(&w), vec![(18, 3), (17, 3), (19, 3), (18, 4)]);
}

#[test]
fn fall_moves_every_cell_one_row() {
    let mut t = placed(TetrominoeType::LLeft, 5, 1, 1);
    t.fall();
    assert_eq!(cells(&t), vec![(5, 2), (5, 3), (5, 4), (4, 4)]);
}

#[test]
fn tick_waits_for_still_time() {
    let mut t = placed(TetrominoeType::Bar, 5, 1, 1);
    t.now = 100;
    assert!(!t.tick(100));
    assert!(!t.tick(149));
    assert!(t.tick(150));
    assert!(!t.tick(20));
}

#[test]
fn shape_ids_and_random_shapes() {
    assert_eq!(TetrominoeType::from_id(0), TetrominoeType::Bar);
    assert_eq!(TetrominoeType::from_id(3), TetrominoeType::LLeft);
    assert_eq!(TetrominoeType::from_id(6), TetrominoeType::SnakeRight);
    let mut rng = WyRand::new_seed(42);
    let mut seen = [false; 7];
    for _ in 0..500 {
        let t = TetrominoeType::random(&mut rng);
        seen[t as usize] = true;
    }
    assert!(seen.iter().all(|s| *s));
}

#[test]
fn shapes_without_a_left_cell_may_start_at_column_zero() {
    let mut rng = WyRand::new_seed(8);
    let t = Tetrominoe::new(&board(), 2, Some(TetrominoeType::Bar), Some(Uvec2::new(0, 1)), &mut rng, 0);
    assert_eq!(cells(&t), vec![(0, 1), (0, 3), (0, 5), (0, 7)]);
    let u = Tetrominoe::new(&board(), 1, Some(TetrominoeType::Square), Some(Uvec2::new(0, 0)), &mut rng, 0);
    assert_eq!(cells(&u), vec![(0, 0), (1, 0), (0, 1), (1, 1)]);
}
