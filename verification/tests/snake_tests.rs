use rigorstarter_rust_tauri_webgpu::game::snake::{
    CellType, Direction, Position, SnakeGame, SnakeKey,
};

fn snake_cells(game: &SnakeGame) -> Vec<(i32, i32)> {
    let mut cells = Vec::new();
    for y in 0..game.grid_height {
        for x in 0..game.grid_width {
            match game.get_cell(x, y) {
                CellType::Head | CellType::Body | CellType::Tail => cells.push((x, y)),
                _ => {}
            }
        }
    }
    cells
}

fn food_of(game: &SnakeGame) -> (i32, i32) {
    for y in 0..game.grid_height {
        for x in 0..game.grid_width {
            if game.get_cell(x, y) == CellType::Food {
                return (x, y);
            }
        }
    }
    panic!("no food on the grid");
}

#[test]
fn opposite_directions() {
    assert_eq!(Direction::Up.opposite(), Direction::Down);
    assert_eq!(Direction::Down.opposite(), Direction::Up);
    assert_eq!(Direction::Left.opposite(), Direction::Right);
    assert_eq!(Direction::Right.opposite(), Direction::Left);
    assert_eq!(Direction::Left.opposite().opposite(), Direction::Left);
}

#[test]
fn position_new_keeps_coordinates() {
    let p = Position::new(3, -4);
    assert_eq!(p.x, 3);
    assert_eq!(p.y, -4);
}

#[test]
fn new_game_starts_in_the_middle() {
    let game = SnakeGame::new(30, 20);
    assert_eq!(game.score, 0);
    assert!(!game.game_over);
    assert_eq!(game.get_cell(15, 10), CellType::Head);
    assert_eq!(game.get_cell(14, 10), CellType::Body);
    assert_eq!(game.get_cell(13, 10), CellType::Tail);
    let food = food_of(&game);
    assert!(food != (15, 10) && food != (14, 10) && food != (13, 10));
    assert_eq!(game.free_cell_count(), 30 * 20 - 3);
}

#[test]
fn free_cells_in_row_major_order() {
    let game = SnakeGame::new(3, 1);
    // snake on (1,0), (0,0) and (-1,0): only (2,0) is free
    assert_eq!(game.free_cell_count(), 1);
    assert_eq!(game.nth_free_cell(0), Position::new(2, 0));
    assert_eq!(food_of(&game), (2, 0));

    let game = SnakeGame::new(4, 2);
    // snake on (2,1), (1,1), (0,1)
    assert_eq!(game.free_cell_count(), 5);
    assert_eq!(game.nth_free_cell(0), Position::new(0, 0));
    assert_eq!(game.nth_free_cell(3), Position::new(3, 0));
    assert_eq!(game.nth_free_cell(4), Position::new(3, 1));
}

#[test]
fn steps_move_the_snake_and_walls_end_the_game() {
    let mut game = SnakeGame::new(4, 2);
    // the only free cells beside the row of the snake: the food is somewhere
    let mut steps = 0;
    while !game.game_over && steps < 10 {
        assert!(game.can_step());
        game.step();
        steps += 1;
    }
    assert!(game.game_over);
    let before = snake_cells(&game);
    let score = game.score;
    game.step();
    assert_eq!(snake_cells(&game), before);
    assert_eq!(game.score, score);
}

#[test]
fn turning_back_is_refused() {
    let mut game = SnakeGame::new(30, 20);
    game.set_direction(Direction::Left);
    game.step();
    assert_eq!(game.get_cell(16, 10), CellType::Head);
    game.set_direction(Direction::Up);
    game.step();
    assert_eq!(game.get_cell(16, 9), CellType::Head);
    assert!(!game.game_over);
}

#[test]
fn eating_grows_and_scores() {
    let mut game = SnakeGame::new(3, 1);
    // food at (2,0), head at (1,0) moving right: the next step eats it,
    // leaving no free cell for new food, so the step is not allowed
    assert_eq!(food_of(&game), (2, 0));
    assert!(!game.can_step());

    let mut game = SnakeGame::new(5, 1);
    // snake on (2,0), (1,0), (0,0); free cells (3,0) and (4,0)
    let food = food_of(&game);
    assert!(game.can_step());
    game.step();
    if food == (3, 0) {
        assert_eq!(game.score, 10);
        assert_eq!(snake_cells(&game).len(), 4);
        assert_eq!(food_of(&game), (4, 0));
    } else {
        assert_eq!(game.score, 0);
        assert_eq!(snake_cells(&game), vec![(1, 0), (2, 0), (3, 0)]);
        assert_eq!(game.get_cell(3, 0), CellType::Head);
        assert_eq!(game.get_cell(1, 0), CellType::Tail);
    }
}

#[test]
fn cell_codes_mark_border_and_snake() {
    let game = SnakeGame::new(30, 20);
    let codes = game.cell_codes();
    assert_eq!(codes.len(), 600);
    assert_eq!(codes[10 * 30 + 15], 1);
    assert_eq!(codes[10 * 30 + 14], 2);
    assert_eq!(codes[10 * 30 + 13], 3);
    let (fx, fy) = food_of(&game);
    assert_eq!(codes[(fy * 30 + fx) as usize], 4);
    let corner = if (fx, fy) == (0, 0) { 4 } else { 5 };
    assert_eq!(codes[0], corner);
    if (fx, fy) != (5, 5) {
        assert_eq!(codes[5 * 30 + 5], 0);
    }
}

#[test]
fn keys_turn_reset_and_leave() {
    let mut game = SnakeGame::new(4, 2);
    assert!(!game.handle_key(SnakeKey::Up, true));
    assert!(!game.handle_key(SnakeKey::Space, true));
    assert!(!game.handle_key(SnakeKey::Escape, false));
    assert!(game.handle_key(SnakeKey::Escape, true));
    let mut guard = 0;
    while !game.game_over && guard < 10 {
        if game.can_step() {
            game.step();
        }
        guard += 1;
    }
    if game.game_over {
        assert!(!game.handle_key(SnakeKey::Space, true));
        assert!(!game.game_over);
        assert_eq!(game.score, 0);
        assert_eq!(game.get_cell(2, 1), CellType::Head);
    }
}

#[test]
fn reset_starts_over() {
    let mut game = SnakeGame::new(30, 20);
    game.set_direction(Direction::Up);
    game.step();
    game.reset();
    assert_eq!(game.get_cell(15, 10), CellType::Head);
    assert_eq!(game.score, 0);
    assert!(!game.game_over);
}
