use akari::archive::archive_path;
use akari::game::Game;
use akari::puzzle::{classify, LoadError, Puzzle, PuzzleMetadata, PuzzleSize};
use akari::types::{
    CellType, Direction, GameState, LightState, PlayerObject, PlayerOperation,
};

fn record(rows: usize, cols: usize, problem: &[&[&str]]) -> Puzzle {
    Puzzle {
        id: 7,
        metadata: PuzzleMetadata {
            puzzle_type: String::from("akari"),
            author: String::from("author"),
            solver: String::from("solver"),
            source: String::from("source"),
            info: String::from("info"),
            size: PuzzleSize { cols, rows, unit: 3 },
        },
        problem: problem
            .iter()
            .map(|row| row.iter().map(|token| token.to_string()).collect())
            .collect(),
    }
}

#[test]
fn tokens_classify_cells() {
    assert_eq!(classify("x"), CellType::Wall);
    assert_eq!(classify("0"), CellType::Target(0));
    assert_eq!(classify("1"), CellType::Target(1));
    assert_eq!(classify("2"), CellType::Target(2));
    assert_eq!(classify("3"), CellType::Target(3));
    assert_eq!(classify("4"), CellType::Target(4));
    assert_eq!(classify("-"), CellType::Empty);
}

#[test]
fn unknown_tokens_are_open_cells() {
    assert_eq!(classify(""), CellType::Empty);
    assert_eq!(classify("5"), CellType::Empty);
    assert_eq!(classify("X"), CellType::Empty);
    assert_eq!(classify("xx"), CellType::Empty);
    assert_eq!(classify("10"), CellType::Empty);
    assert_eq!(classify(" "), CellType::Empty);
    assert_eq!(classify("é"), CellType::Empty);
    assert_eq!(classify("1 "), CellType::Empty);
}

#[test]
fn a_loaded_game_is_blank() {
    let mut game = Game::new();
    let result = game.init_game(record(
        2,
        4,
        &[&["x", "0", "-", "4"], &["?", "3", "2", "1"]],
    ));
    assert_eq!(result, Ok(()));
    assert_eq!(game.phase(), GameState::Ready);
    assert_eq!(game.cursor(), (0, 0));
    assert_eq!(game.history_len(), 0);
    assert_eq!(
        game.board(),
        &vec![
            vec![CellType::Wall, CellType::Target(0), CellType::Empty, CellType::Target(4)],
            vec![CellType::Empty, CellType::Target(3), CellType::Target(2), CellType::Target(1)],
        ]
    );
    assert_eq!(
        game.light_state(),
        &vec![
            vec![LightState::IsWall, LightState::IsWall, LightState::Dark, LightState::IsWall],
            vec![LightState::Dark, LightState::IsWall, LightState::IsWall, LightState::IsWall],
        ]
    );
    assert_eq!(
        game.player_objects(),
        &vec![
            vec![
                PlayerObject::IsWall,
                PlayerObject::IsWall,
                PlayerObject::Empty,
                PlayerObject::IsWall,
            ],
            vec![
                PlayerObject::Empty,
                PlayerObject::IsWall,
                PlayerObject::IsWall,
                PlayerObject::IsWall,
            ],
        ]
    );
    assert_eq!(
        game.target_remain(),
        &vec![vec![None, Some(0), None, Some(4)], vec![None, Some(3), Some(2), Some(1)]]
    );
    let puzzle = game.puzzle().as_ref().unwrap();
    assert_eq!(puzzle.id, 7);
    assert_eq!(puzzle.metadata.size.rows, 2);
    assert_eq!(puzzle.metadata.size.cols, 4);
    assert_eq!(puzzle.metadata.size.unit, 3);
    assert_eq!(puzzle.metadata.author, "author");
    assert_eq!(puzzle.problem[1][0], "?");
}

#[test]
fn a_record_of_the_stated_size_is_well_formed() {
    assert!(record(1, 1, &[&["-"]]).is_well_formed());
    assert!(record(2, 3, &[&["-", "x", "-"], &["1", "-", "-"]]).is_well_formed());
}

#[test]
fn a_record_with_a_wrong_size_is_malformed() {
    let cases = vec![
        record(0, 0, &[]),
        record(0, 2, &[]),
        record(1, 0, &[&[]]),
        record(2, 2, &[&["-", "-"]]),
        record(1, 2, &[&["-", "-"], &["-", "-"]]),
        record(2, 2, &[&["-", "-"], &["-"]]),
        record(2, 2, &[&["-", "-"], &["-", "-", "-"]]),
        record(2, 3, &[&["-", "-"], &["-", "-"]]),
        record(3, 2, &[&["-", "-", "-"], &["-", "-", "-"]]),
    ];
    for puzzle in cases {
        assert!(!puzzle.is_well_formed());
        let mut game = Game::new();
        assert_eq!(game.init_game(puzzle), Err(LoadError::Malformed));
        assert!(game.puzzle().is_none());
        assert!(game.board().is_empty());
        assert_eq!(game.phase(), GameState::Ready);
    }
}

#[test]
fn a_refused_record_leaves_the_game_as_it_was() {
    let mut game = Game::new();
    assert_eq!(game.init_game(record(1, 3, &[&["1", "-", "-"]])), Ok(()));
    game.start();
    game.player_move_cursor(Direction::Right);
    game.player_operation(PlayerOperation::AddLightbulb);
    game.update();
    assert_eq!(game.phase(), GameState::GameOver);
    assert_eq!(
        game.init_game(record(2, 2, &[&["-", "-"]])),
        Err(LoadError::Malformed)
    );
    assert_eq!(game.phase(), GameState::GameOver);
    assert_eq!(game.cursor(), (0, 1));
    assert_eq!(game.history_len(), 1);
    assert_eq!(
        game.player_objects(),
        &vec![vec![PlayerObject::IsWall, PlayerObject::Lightbulb, PlayerObject::Empty]]
    );
    assert_eq!(game.puzzle().as_ref().unwrap().metadata.size.cols, 3);
}

#[test]
fn loading_starts_the_game_anew() {
    let mut game = Game::new();
    assert_eq!(game.init_game(record(1, 3, &[&["1", "-", "-"]])), Ok(()));
    game.start();
    game.player_move_cursor(Direction::Right);
    game.player_operation(PlayerOperation::AddLightbulb);
    game.update();
    assert_eq!(game.phase(), GameState::GameOver);
    assert_eq!(game.init_game(record(2, 1, &[&["-"], &["x"]])), Ok(()));
    assert_eq!(game.phase(), GameState::Ready);
    assert_eq!(game.cursor(), (0, 0));
    assert_eq!(game.history_len(), 0);
    assert_eq!(
        game.player_objects(),
        &vec![vec![PlayerObject::Empty], vec![PlayerObject::IsWall]]
    );
}

#[test]
fn rows_and_columns_may_add_up_to_257_and_no_more() {
    let wide: Vec<&str> = vec!["-"; 256];
    assert!(record(1, 256, &[&wide]).is_well_formed());
    let wider: Vec<&str> = vec!["-"; 257];
    let puzzle = record(1, 257, &[&wider]);
    assert!(!puzzle.is_well_formed());
    let mut game = Game::new();
    assert_eq!(game.init_game(puzzle), Err(LoadError::Malformed));

    let row: Vec<&str> = vec!["-"; 128];
    let rows: Vec<&[&str]> = vec![&row; 129];
    assert!(record(129, 128, &rows).is_well_formed());
    let rows: Vec<&[&str]> = vec![&row; 130];
    assert!(!record(130, 128, &rows).is_well_formed());
}

#[test]
fn paths_go_by_folders_of_a_hundred() {
    assert_eq!(archive_path(1), Ok(String::from("archive/1/001.json")));
    assert_eq!(archive_path(9), Ok(String::from("archive/1/009.json")));
    assert_eq!(archive_path(10), Ok(String::from("archive/1/010.json")));
    assert_eq!(archive_path(42), Ok(String::from("archive/1/042.json")));
    assert_eq!(archive_path(99), Ok(String::from("archive/1/099.json")));
    assert_eq!(archive_path(100), Ok(String::from("archive/1/100.json")));
    assert_eq!(archive_path(101), Ok(String::from("archive/2/101.json")));
    assert_eq!(archive_path(200), Ok(String::from("archive/2/200.json")));
    assert_eq!(archive_path(750), Ok(String::from("archive/8/750.json")));
    assert_eq!(archive_path(1000), Ok(String::from("archive/10/1000.json")));
    assert_eq!(archive_path(1001), Ok(String::from("archive/11/1001.json")));
    assert_eq!(
        archive_path(u32::MAX),
        Ok(String::from("archive/42949673/4294967295.json"))
    );
}

#[test]
fn paths_agree_with_the_formatter() {
    for id in (1u32..2000).chain([65_535, 65_536, 1_000_000, 4_294_967_200]) {
        let folder = (id - 1) / 100 + 1;
        assert_eq!(archive_path(id), Ok(format!("archive/{}/{:03}.json", folder, id)));
    }
}

#[test]
fn there_is_no_record_for_the_id_zero() {
    assert_eq!(archive_path(0), Err(LoadError::NotFound));
}
