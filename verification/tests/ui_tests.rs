use flipout::board::Turn;
use flipout::dumb_screen::DumbScreen;
use flipout::player::{Action, CleverRobotPlayer, Player, RobotPlayer};
use flipout::position::Position;
use flipout::ui_board::{Color, UiBoard};

#[test]
fn fresh_game_state() {
    let board = UiBoard::new();
    assert_eq!(board.count_black(), 2);
    assert_eq!(board.count_white(), 2);
    assert!(board.is_black_turn());
    assert_eq!(board.whatnow(), Some(Turn::Black));
    assert_eq!(board.turn(), Some(Turn::Black));
    assert!(!board.is_game_over());
    assert_eq!(board.legal_moves().as_bits(), (1 << 44) | (1 << 37) | (1 << 26) | (1 << 19));
    assert_eq!(board.last_action(Turn::Black), None);
    assert_eq!(board.last_action(Turn::White), None);
}

#[test]
fn colors_of_the_start_cells() {
    let board = UiBoard::new();
    assert_eq!(board.color_at(Position::from_str("e4").unwrap()), Color::Black);
    assert_eq!(board.color_at(Position::from_str("d5").unwrap()), Color::Black);
    assert_eq!(board.color_at(Position::from_str("d4").unwrap()), Color::White);
    assert_eq!(board.color_at(Position::from_str("e5").unwrap()), Color::White);
    assert_eq!(board.color_at(Position::from_str("a1").unwrap()), Color::Empty);
}

#[test]
fn put_stone_validates_and_records() {
    let mut board = UiBoard::new();
    let d3 = Position::from_str("d3").unwrap();
    let a1 = Position::from_str("a1").unwrap();

    assert!(board.is_legal_move(d3));
    assert!(!board.is_legal_move(a1));
    assert_eq!(board.reversible_stones(d3).as_bits(), 1 << 36);

    assert_eq!(board.put_stone(a1).err(), Some("Invalid move"));
    assert_eq!(board.count_black(), 2);

    assert!(board.put_stone(d3).is_ok());
    assert_eq!(board.count_black(), 4);
    assert_eq!(board.count_white(), 1);
    assert_eq!(board.whatnow(), Some(Turn::White));
    assert_eq!(board.last_action(Turn::Black), Some(Action::Move(d3)));
    assert_eq!(board.last_action(Turn::White), None);
}

#[test]
fn pass_is_refused_while_moves_exist() {
    let mut board = UiBoard::new();
    assert_eq!(board.pass().err(), Some("Can't pass"));
    assert_eq!(board.whatnow(), Some(Turn::Black));
}

#[test]
fn random_game_runs_to_the_end() {
    let mut board = UiBoard::new();
    let mut robot = RobotPlayer::new();
    let mut rounds: u32 = 0;
    while let Some(_) = board.whatnow() {
        rounds += 1;
        assert!(rounds < 200, "the game should end");
        let stones = board.count_black() + board.count_white();
        match robot.action(&board) {
            Action::Move(pos) => {
                assert!(board.put_stone(pos).is_ok());
                // one stone enters per move, flips only change color
                assert_eq!(board.count_black() + board.count_white(), stones + 1);
            }
            Action::Pass => {
                assert!(board.pass().is_ok());
            }
            Action::GiveUp => panic!("robots do not give up"),
        }
        let raw = board.raw_board();
        assert_eq!(raw.black & raw.white, 0);
    }
    assert!(board.is_game_over());
    assert_eq!(board.turn(), None);

    // once the game is over, every action is refused
    let d3 = Position::from_str("d3").unwrap();
    assert_eq!(board.put_stone(d3).err(), Some("Game over"));
    assert_eq!(board.pass().err(), Some("Game over"));
}

#[test]
fn robot_plays_a_legal_move() {
    let mut robot = RobotPlayer::new();
    let board = UiBoard::new();
    match robot.action(&board) {
        Action::Move(pos) => assert!(board.is_legal_move(pos)),
        _ => panic!("four moves are open"),
    }
}

#[test]
fn clever_robot_is_deterministic_and_legal() {
    let robot = CleverRobotPlayer::new();
    let board = UiBoard::new();
    let first = robot.choose_action(&board);
    let second = robot.choose_action(&board);
    assert_eq!(first, second);
    match first {
        Action::Move(pos) => assert!(board.is_legal_move(pos)),
        _ => panic!("four moves are open"),
    }
}

#[test]
fn dumb_screen_keeps_its_flags() {
    let screen = DumbScreen::new(true, false);
    assert!(screen.dumb);
    assert!(!screen.reverse_video);
}
