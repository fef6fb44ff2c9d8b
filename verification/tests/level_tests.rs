use rust_opengl_learn::level::{Brick, BrickColor, GameLevel, HitSound};
use rust_opengl_learn::level_text::{parse_level_text, LevelError};

#[test]
fn parse_rows_of_tiles() {
    let tiles = parse_level_text("1 1 0\n2 3 4\n").unwrap();
    assert_eq!(tiles, vec![vec![1, 1, 0], vec![2, 3, 4]]);
}

#[test]
fn parse_last_line_without_newline() {
    let tiles = parse_level_text("5 5\n0 1").unwrap();
    assert_eq!(tiles, vec![vec![5, 5], vec![0, 1]]);
}

#[test]
fn parse_crlf_lines() {
    let tiles = parse_level_text("1 2\r\n3 4\r\n").unwrap();
    assert_eq!(tiles, vec![vec![1, 2], vec![3, 4]]);
}

#[test]
fn parse_plus_sign_and_leading_zeros() {
    let tiles = parse_level_text("+7 007 255").unwrap();
    assert_eq!(tiles, vec![vec![7, 7, 255]]);
}

#[test]
fn parse_empty_text_has_no_rows() {
    assert_eq!(parse_level_text("").unwrap(), Vec::<Vec<u8>>::new());
}

#[test]
fn parse_rejects_value_above_255() {
    assert_eq!(parse_level_text("1 256"), Err(LevelError::InvalidTile));
}

#[test]
fn parse_rejects_double_space() {
    assert_eq!(parse_level_text("1  2"), Err(LevelError::InvalidTile));
}

#[test]
fn parse_rejects_empty_line() {
    assert_eq!(parse_level_text("1\n\n2"), Err(LevelError::InvalidTile));
}

#[test]
fn parse_rejects_minus_and_lone_plus() {
    assert_eq!(parse_level_text("-1"), Err(LevelError::InvalidTile));
    assert_eq!(parse_level_text("+"), Err(LevelError::InvalidTile));
}

#[test]
fn parse_rejects_carriage_return_without_newline() {
    assert_eq!(parse_level_text("1\r"), Err(LevelError::InvalidTile));
}

#[test]
fn parse_rejects_trailing_space() {
    assert_eq!(parse_level_text("1 2 \n"), Err(LevelError::InvalidTile));
}

#[test]
fn level_bricks_follow_tiles() {
    let level = GameLevel::new("1 0 2\n3 1 0\n");
    assert_eq!(level.rows, 2);
    assert_eq!(level.columns, 3);
    assert_eq!(
        level.bricks,
        vec![
            Brick { column: 0, row: 0, tile: 1, is_solid: true, destroyed: false },
            Brick { column: 2, row: 0, tile: 2, is_solid: false, destroyed: false },
            Brick { column: 0, row: 1, tile: 3, is_solid: false, destroyed: false },
            Brick { column: 1, row: 1, tile: 1, is_solid: true, destroyed: false },
        ]
    );
    assert_eq!(level.destroyable_count, 2);
    assert_eq!(level.destroyed_count, 0);
    assert!(!level.is_complete());
}

#[test]
fn empty_level_is_complete() {
    let level = GameLevel::new("");
    assert!(level.bricks.is_empty());
    assert_eq!(level.rows, 0);
    assert_eq!(level.columns, 0);
    assert!(level.is_complete());
}

#[test]
fn level_of_only_solid_bricks_is_complete() {
    let level = GameLevel::new("1 1");
    assert_eq!(level.destroyable_count, 0);
    assert!(level.is_complete());
}

#[test]
fn level_text_with_letter_is_not_a_level() {
    assert_eq!(parse_level_text("1 x"), Err(LevelError::InvalidTile));
}

#[test]
fn brick_colors_by_tile() {
    let level = GameLevel::new("1 2 3 4 5 6 9");
    let colors: Vec<BrickColor> = level.bricks.iter().map(|b| b.color()).collect();
    assert_eq!(
        colors,
        vec![
            BrickColor::Solid,
            BrickColor::Blue,
            BrickColor::Green,
            BrickColor::Yellow,
            BrickColor::Orange,
            BrickColor::White,
            BrickColor::White,
        ]
    );
}

#[test]
fn hit_destroys_destroyable_brick_and_bounces() {
    let mut level = GameLevel::new("2 1");
    let hit = level.hit_brick(0, false);
    assert!(hit.destroyed);
    assert!(!hit.shake);
    assert_eq!(hit.sound, HitSound::Brick);
    assert!(hit.bounce);
    assert!(level.bricks[0].destroyed);
    // the count of destroyed bricks is not advanced by a hit
    assert_eq!(level.destroyed_count, 0);
}

#[test]
fn hit_passes_through_destroyable_brick() {
    let mut level = GameLevel::new("2 1");
    let hit = level.hit_brick(0, true);
    assert!(hit.destroyed);
    assert!(!hit.bounce);
}

#[test]
fn hit_on_solid_brick_shakes_and_bounces_even_passing_through() {
    let mut level = GameLevel::new("2 1");
    let hit = level.hit_brick(1, true);
    assert!(!hit.destroyed);
    assert!(hit.shake);
    assert_eq!(hit.sound, HitSound::Solid);
    assert!(hit.bounce);
    assert!(!level.bricks[1].destroyed);
}

#[test]
fn reset_restores_bricks_and_counts_destroyable() {
    let mut level = GameLevel::new("2 1 3");
    level.hit_brick(0, false);
    level.hit_brick(2, false);
    level.reset();
    assert!(level.bricks.iter().all(|b| !b.destroyed));
    assert_eq!(level.destroyed_count, 0);
    assert_eq!(level.destroyable_count, 2);
    assert!(!level.is_complete());
}

#[test]
fn reset_level_of_solid_bricks_is_complete() {
    let mut level = GameLevel::new("1 1");
    level.reset();
    assert_eq!(level.destroyable_count, 0);
    assert!(level.is_complete());
}

#[test]
fn reset_empty_level_is_complete() {
    let mut level = GameLevel::new("0 0");
    level.reset();
    assert!(level.is_complete());
}

#[test]
fn from_tiles_uses_first_row_for_columns() {
    let level = GameLevel::from_tiles(&vec![vec![2, 2], vec![0, 0, 3]]);
    assert_eq!(level.columns, 2);
    assert_eq!(level.rows, 2);
    assert_eq!(level.bricks.len(), 3);
    assert_eq!(level.bricks[2].column, 2);
    assert_eq!(level.destroyable_count, 3);
}
