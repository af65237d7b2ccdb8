use micromouse_sim::maze::Cell;
use micromouse_sim::mazefile::{Mazefile, MazefileError};

const SMALL: &str = "+---+---+\n| S   G |\n+   +---+\n|       |\n+---+---+\n";

#[test]
fn parses_walls_goals_and_start() {
    let m = Mazefile::<2, 2>::new(SMALL.as_bytes().to_vec()).parse().unwrap();
    let bits = |x, y| m.get_cell_state(Cell::new(x, y).unwrap()).bits();
    assert_eq!(bits(0, 1), 0b1001);
    assert_eq!(bits(1, 1), 0b0111);
    assert_eq!(bits(0, 0), 0b1100);
    assert_eq!(bits(1, 0), 0b0111);
    let s = m.get_start_cell();
    assert_eq!((s.x, s.y), (0, 1));
    assert!(m.is_goal_cell(Cell::new(1, 1).unwrap()));
    assert!(!m.is_goal_cell(Cell::new(0, 0).unwrap()));
}

#[test]
fn accepts_crlf_and_no_final_newline() {
    let text = SMALL.trim_end().replace('\n', "\r\n");
    let m = Mazefile::<2, 2>::new(text.into_bytes()).parse().unwrap();
    assert_eq!(m.get_cell_state(Cell::new(1, 0).unwrap()).bits(), 0b0111);
}

#[test]
fn short_input_is_malformed() {
    let r = Mazefile::<2, 2>::new(Vec::new()).parse();
    assert_eq!(r.err(), Some(MazefileError::Malformed));
    let r = Mazefile::<2, 2>::new(b"+---+---+\n| S   G |\n+   +---+\n".to_vec()).parse();
    assert_eq!(r.err(), Some(MazefileError::Malformed));
    let r = Mazefile::<2, 2>::new(b"+---+---+\n| S   G\n+   +---+\n|       |\n+---+---+".to_vec())
        .parse();
    assert_eq!(r.err(), Some(MazefileError::Malformed));
}

#[test]
fn five_goals_are_too_many() {
    let text = "+---+---+---+---+---+\n| G   G   G   G   G |\n+---+---+---+---+---+\n";
    let r = Mazefile::<1, 5>::new(text.as_bytes().to_vec()).parse();
    assert_eq!(r.err(), Some(MazefileError::TooManyGoals));
    let text = "+---+---+---+---+---+\n| G   G   G   G   S |\n+---+---+---+---+---+\n";
    let m = Mazefile::<1, 5>::new(text.as_bytes().to_vec()).parse().unwrap();
    for x in 0..4 {
        assert!(m.is_goal_cell(Cell::new(x, 0).unwrap()));
    }
    assert_eq!(m.get_start_cell().x, 4);
}
