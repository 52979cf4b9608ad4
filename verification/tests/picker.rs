use promotion_picker::board::{Color, Role, Square};
use promotion_picker::promotable::{
    role_at_rank, role_rank, same_square, Cell, LegalRoles, MouseDown, Promotable, Promoting,
    Redraw, Reset, UserMove,
};

const SECOND: u64 = 1_000_000_000;

fn sq(file: i8, rank: i8) -> Square {
    Square::from_coords(file, rank).unwrap()
}

fn officers() -> LegalRoles {
    LegalRoles { queen: true, rook: true, bishop: true, knight: true, king: false, pawn: false }
}

fn all_roles() -> LegalRoles {
    LegalRoles { queen: true, rook: true, bishop: true, knight: true, king: true, pawn: true }
}

fn e7e8_at(now: u64) -> Promotable {
    let mut picker = Promotable::new();
    picker.start_promoting_at(sq(4, 6), sq(4, 7), now);
    picker
}

#[test]
fn a_new_picker_is_closed() {
    let picker = Promotable::new();
    assert_eq!(picker.promoting(), None);
    assert!(!picker.is_promoting(sq(4, 6)));
    assert!(!picker.is_animating_at(0));
    assert!(!picker.is_animating());
    assert_eq!(picker.queue_animation(), None);
    assert_eq!(picker.draw_at(&officers(), 0), None);
    assert_eq!(picker.draw(&officers()), None);
}

#[test]
fn start_promoting_opens_the_picker_over_the_destination() {
    let picker = e7e8_at(17);
    assert_eq!(
        picker.promoting(),
        Some(Promoting { orig: sq(4, 6), dest: sq(4, 7), hover: Some(sq(4, 7)), time: 17 })
    );
    assert_eq!(picker.queue_animation(), Some(sq(4, 7)));
}

#[test]
fn only_the_origin_is_promoting() {
    let picker = e7e8_at(0);
    for file in 0..8i8 {
        for rank in 0..8i8 {
            assert_eq!(picker.is_promoting(sq(file, rank)), (file, rank) == (4, 6));
        }
    }
}

#[test]
fn a_second_promotion_replaces_the_first() {
    let mut picker = e7e8_at(0);
    picker.start_promoting_at(sq(0, 1), sq(0, 0), 5);
    assert!(picker.is_promoting(sq(0, 1)));
    assert!(!picker.is_promoting(sq(4, 6)));
    assert_eq!(
        picker.promoting(),
        Some(Promoting { orig: sq(0, 1), dest: sq(0, 0), hover: Some(sq(0, 0)), time: 5 })
    );
}

#[test]
fn the_side_follows_the_destination() {
    let white = Promoting { orig: sq(4, 6), dest: sq(4, 7), hover: None, time: 0 };
    let black = Promoting { orig: sq(4, 1), dest: sq(4, 0), hover: None, time: 0 };
    assert_eq!(white.orientation(), Color::White);
    assert_eq!(black.orientation(), Color::Black);
    let upper = Promoting { orig: sq(4, 4), dest: sq(4, 5), hover: None, time: 0 };
    let middle = Promoting { orig: sq(4, 3), dest: sq(4, 4), hover: None, time: 0 };
    assert_eq!(upper.orientation(), Color::White);
    assert_eq!(middle.orientation(), Color::Black);
}

#[test]
fn ranks_of_the_roles() {
    let roles =
        [Role::Queen, Role::Rook, Role::Bishop, Role::Knight, Role::King, Role::Pawn];
    for (offset, role) in roles.iter().enumerate() {
        assert_eq!(role.offset() as usize, offset);
        assert_eq!(Role::from_offset(offset as u8), Some(*role));
        assert_eq!(role_rank(Color::White, *role), 7 - offset as i8);
        assert_eq!(role_rank(Color::Black, *role), offset as i8);
        assert_eq!(role_at_rank(Color::White, 7 - offset as i8), Some(*role));
        assert_eq!(role_at_rank(Color::Black, offset as i8), Some(*role));
    }
    assert_eq!(Role::from_offset(6), None);
    assert_eq!(Role::from_offset(255), None);
    assert_eq!(role_at_rank(Color::White, 1), None);
    assert_eq!(role_at_rank(Color::White, 0), None);
    assert_eq!(role_at_rank(Color::White, 8), None);
    assert_eq!(role_at_rank(Color::White, i8::MIN), None);
    assert_eq!(role_at_rank(Color::Black, 6), None);
    assert_eq!(role_at_rank(Color::Black, 7), None);
    assert_eq!(role_at_rank(Color::Black, -1), None);
    assert_eq!(role_at_rank(Color::Black, i8::MAX), None);
}

#[test]
fn legal_roles_answer_for_each_role() {
    let legal = officers();
    assert!(legal.allows(Role::Queen));
    assert!(legal.allows(Role::Rook));
    assert!(legal.allows(Role::Bishop));
    assert!(legal.allows(Role::Knight));
    assert!(!legal.allows(Role::King));
    assert!(!legal.allows(Role::Pawn));
    let odd = LegalRoles {
        queen: false,
        rook: false,
        bishop: false,
        knight: false,
        king: true,
        pawn: true,
    };
    assert!(!odd.allows(Role::Queen));
    assert!(odd.allows(Role::King));
    assert!(odd.allows(Role::Pawn));
}

#[test]
fn same_square_compares_optional_squares() {
    assert!(same_square(None, None));
    assert!(same_square(Some(sq(1, 2)), Some(sq(1, 2))));
    assert!(!same_square(Some(sq(1, 2)), Some(sq(2, 1))));
    assert!(!same_square(Some(sq(1, 2)), None));
    assert!(!same_square(None, Some(sq(1, 2))));
}

#[test]
fn click_on_the_queen_announces_the_move() {
    let mut picker = e7e8_at(0);
    let outcome = picker.mouse_down_at(&officers(), Some(sq(4, 7)), 9);
    assert_eq!(
        outcome,
        MouseDown::Move(UserMove { orig: sq(4, 6), dest: sq(4, 7), role: Role::Queen })
    );
    assert!(outcome.handled());
    assert!(outcome.redraw_all());
    assert_eq!(picker.promoting(), None);
    for file in 0..8i8 {
        for rank in 0..8i8 {
            assert!(!picker.is_promoting(sq(file, rank)));
        }
    }
}

#[test]
fn click_on_each_legal_cell_chooses_its_role() {
    let cells = [
        (7, Role::Queen),
        (6, Role::Rook),
        (5, Role::Bishop),
        (4, Role::Knight),
        (3, Role::King),
        (2, Role::Pawn),
    ];
    for (rank, role) in cells {
        let mut picker = e7e8_at(0);
        let outcome = picker.mouse_down_at(&all_roles(), Some(sq(4, rank)), 1);
        assert_eq!(
            outcome,
            MouseDown::Move(UserMove { orig: sq(4, 6), dest: sq(4, 7), role })
        );
        assert!(picker.promoting().is_none());
    }
}

#[test]
fn black_cells_run_up_from_the_first_rank() {
    let cells = [
        (0, Role::Queen),
        (1, Role::Rook),
        (2, Role::Bishop),
        (3, Role::Knight),
        (4, Role::King),
        (5, Role::Pawn),
    ];
    for (rank, role) in cells {
        let mut picker = Promotable::new();
        picker.start_promoting_at(sq(2, 1), sq(3, 0), 0);
        let outcome = picker.mouse_down_at(&all_roles(), Some(sq(3, rank)), 1);
        assert_eq!(
            outcome,
            MouseDown::Move(UserMove { orig: sq(2, 1), dest: sq(3, 0), role })
        );
    }
    for rank in [6, 7] {
        let mut picker = Promotable::new();
        picker.start_promoting_at(sq(2, 1), sq(3, 0), 0);
        let outcome = picker.mouse_down_at(&all_roles(), Some(sq(3, rank)), 1);
        assert_eq!(
            outcome,
            MouseDown::Cancel(Reset { piece: sq(2, 1), to: sq(3, 0), time: 1 })
        );
    }
}

#[test]
fn click_on_the_knight_cell_chooses_the_knight() {
    let mut picker = e7e8_at(0);
    let outcome = picker.mouse_down_at(&officers(), Some(sq(4, 4)), 9);
    assert_eq!(
        outcome,
        MouseDown::Move(UserMove { orig: sq(4, 6), dest: sq(4, 7), role: Role::Knight })
    );
}

#[test]
fn click_below_the_legal_cells_cancels() {
    for rank in [3, 2, 1, 0] {
        let mut picker = e7e8_at(0);
        let outcome = picker.mouse_down_at(&officers(), Some(sq(4, rank)), 9);
        assert_eq!(
            outcome,
            MouseDown::Cancel(Reset { piece: sq(4, 6), to: sq(4, 7), time: 9 })
        );
        assert!(!outcome.handled());
        assert!(outcome.redraw_all());
        assert_eq!(picker.promoting(), None);
    }
}

#[test]
fn click_on_another_file_cancels() {
    let mut picker = e7e8_at(0);
    let outcome = picker.mouse_down_at(&officers(), Some(sq(3, 7)), 9);
    assert_eq!(outcome, MouseDown::Cancel(Reset { piece: sq(4, 6), to: sq(4, 7), time: 9 }));
    assert!(!outcome.handled());
    assert!(!picker.is_promoting(sq(4, 6)));
    for file in [0, 1, 2, 3, 5, 6, 7] {
        for rank in 0..8i8 {
            let mut picker = e7e8_at(0);
            let outcome = picker.mouse_down_at(&all_roles(), Some(sq(file, rank)), 3);
            assert_eq!(
                outcome,
                MouseDown::Cancel(Reset { piece: sq(4, 6), to: sq(4, 7), time: 3 })
            );
        }
    }
}

#[test]
fn click_on_a_role_that_is_not_legal_cancels() {
    let only_knight = LegalRoles {
        queen: false,
        rook: false,
        bishop: false,
        knight: true,
        king: false,
        pawn: false,
    };
    let mut picker = e7e8_at(0);
    let outcome = picker.mouse_down_at(&only_knight, Some(sq(4, 7)), 2);
    assert_eq!(outcome, MouseDown::Cancel(Reset { piece: sq(4, 6), to: sq(4, 7), time: 2 }));
    let mut picker = e7e8_at(0);
    let outcome = picker.mouse_down_at(&only_knight, Some(sq(4, 4)), 2);
    assert_eq!(
        outcome,
        MouseDown::Move(UserMove { orig: sq(4, 6), dest: sq(4, 7), role: Role::Knight })
    );
}

#[test]
fn click_off_the_board_cancels() {
    let mut picker = e7e8_at(0);
    let outcome = picker.mouse_down_at(&all_roles(), None, 4);
    assert_eq!(outcome, MouseDown::Cancel(Reset { piece: sq(4, 6), to: sq(4, 7), time: 4 }));
    assert_eq!(picker.promoting(), None);
}

#[test]
fn click_on_a_closed_picker_is_left_alone() {
    let mut picker = Promotable::new();
    let outcome = picker.mouse_down_at(&all_roles(), Some(sq(4, 7)), 4);
    assert_eq!(outcome, MouseDown::Idle);
    assert!(!outcome.handled());
    assert!(!outcome.redraw_all());
    assert_eq!(picker.promoting(), None);
    let outcome = picker.mouse_down(&all_roles(), Some(sq(4, 7)));
    assert_eq!(outcome, MouseDown::Idle);
}

#[test]
fn a_second_click_finds_the_picker_closed() {
    let mut picker = e7e8_at(0);
    let first = picker.mouse_down_at(&officers(), Some(sq(4, 7)), 1);
    let second = picker.mouse_down_at(&officers(), Some(sq(4, 7)), 2);
    assert!(first.handled());
    assert_eq!(second, MouseDown::Idle);
}

#[test]
fn hover_change_restarts_the_animation() {
    let mut picker = e7e8_at(0);
    let redraw = picker.mouse_move_at(Some(sq(4, 6)), 5 * SECOND);
    assert_eq!(redraw, Redraw { before: Some(sq(4, 7)), after: Some(sq(4, 6)) });
    assert_eq!(
        picker.promoting(),
        Some(Promoting {
            orig: sq(4, 6),
            dest: sq(4, 7),
            hover: Some(sq(4, 6)),
            time: 5 * SECOND,
        })
    );
    assert!(picker.is_animating_at(5 * SECOND));
    assert!(picker.is_animating_at(6 * SECOND - 1));
    assert!(!picker.is_animating_at(6 * SECOND));
    assert!(!picker.is_animating_at(6 * SECOND + 1));
    assert!(!picker.is_animating_at(u64::MAX));
}

#[test]
fn hover_over_the_same_square_keeps_the_time() {
    let mut picker = e7e8_at(7);
    let redraw = picker.mouse_move_at(Some(sq(4, 7)), 5 * SECOND);
    assert_eq!(redraw, Redraw { before: Some(sq(4, 7)), after: Some(sq(4, 7)) });
    assert_eq!(
        picker.promoting(),
        Some(Promoting { orig: sq(4, 6), dest: sq(4, 7), hover: Some(sq(4, 7)), time: 7 })
    );
    assert!(!picker.is_animating_at(5 * SECOND));
}

#[test]
fn pointer_off_the_board_stops_the_animation() {
    let mut picker = e7e8_at(0);
    let redraw = picker.mouse_move_at(None, 10);
    assert_eq!(redraw, Redraw { before: Some(sq(4, 7)), after: None });
    assert_eq!(picker.queue_animation(), None);
    assert!(!picker.is_animating_at(10));
    assert!(!picker.is_animating_at(11));
    let redraw = picker.mouse_move_at(None, 20);
    assert_eq!(redraw, Redraw { before: None, after: None });
    assert_eq!(picker.promoting().unwrap().time, 10);
    let redraw = picker.mouse_move_at(Some(sq(0, 0)), 30);
    assert_eq!(redraw, Redraw { before: None, after: Some(sq(0, 0)) });
    assert!(picker.is_animating_at(30));
}

#[test]
fn pointer_moves_over_a_closed_picker() {
    let mut picker = Promotable::new();
    let redraw = picker.mouse_move_at(Some(sq(4, 7)), 10);
    assert_eq!(redraw, Redraw { before: None, after: None });
    assert_eq!(picker.promoting(), None);
    let redraw = picker.mouse_move(Some(sq(4, 7)));
    assert_eq!(redraw, Redraw { before: None, after: None });
    assert_eq!(picker.promoting(), None);
}

#[test]
fn animation_lasts_one_second_from_the_start() {
    let picker = e7e8_at(3 * SECOND);
    assert!(picker.is_animating_at(3 * SECOND));
    assert!(picker.is_animating_at(3 * SECOND + 999_999_999));
    assert!(!picker.is_animating_at(4 * SECOND));
    assert!(!picker.is_animating_at(4 * SECOND + 1));
}

#[test]
fn a_clock_that_runs_back_still_animates() {
    let picker = e7e8_at(3 * SECOND);
    assert!(picker.is_animating_at(0));
    assert!(picker.is_animating_at(3 * SECOND - 1));
}

#[test]
fn elapsed_counts_whole_milliseconds() {
    let promoting =
        Promoting { orig: sq(4, 6), dest: sq(4, 7), hover: None, time: 5_000_000 };
    assert_eq!(promoting.elapsed(5_000_000), 0);
    assert_eq!(promoting.elapsed(5_999_999), 0);
    assert_eq!(promoting.elapsed(6_000_000), 1);
    assert_eq!(promoting.elapsed(1_005_000_000), 1000);
    assert_eq!(promoting.elapsed(4_000_001), 0);
    assert_eq!(promoting.elapsed(4_000_000), -1);
    assert_eq!(promoting.elapsed(0), -5);
    assert_eq!(promoting.elapsed(u64::MAX), 18_446_744_073_704);
    let late = Promoting { orig: sq(4, 6), dest: sq(4, 7), hover: None, time: u64::MAX };
    assert_eq!(late.elapsed(0), -18_446_744_073_709);
}

#[test]
fn draw_shows_the_legal_roles_in_order() {
    let mut picker = e7e8_at(0);
    picker.mouse_move_at(None, 0);
    let overlay = picker.draw_at(&officers(), 123).unwrap();
    assert_eq!(overlay.veil, 500);
    let still = |role: Role, rank: i8, light: bool| Cell {
        role,
        side: Color::White,
        file: 4,
        rank,
        light,
        hovered: false,
        radius: 500,
        red: 690,
        green: 690,
        blue: 690,
    };
    assert_eq!(
        overlay.cells,
        vec![
            still(Role::Queen, 7, true),
            still(Role::Rook, 6, false),
            still(Role::Bishop, 5, true),
            still(Role::Knight, 4, false),
        ]
    );
    assert_eq!(overlay.cells[0].ground(), 250);
    assert_eq!(overlay.cells[1].ground(), 180);
}

#[test]
fn draw_follows_the_oracle() {
    let picker = e7e8_at(0);
    let none = LegalRoles {
        queen: false,
        rook: false,
        bishop: false,
        knight: false,
        king: false,
        pawn: false,
    };
    assert_eq!(picker.draw_at(&none, 0).unwrap().cells, vec![]);
    let all = picker.draw_at(&all_roles(), 0).unwrap().cells;
    let roles: Vec<Role> = all.iter().map(|cell| cell.role).collect();
    assert_eq!(
        roles,
        vec![Role::Queen, Role::Rook, Role::Bishop, Role::Knight, Role::King, Role::Pawn]
    );
    let ranks: Vec<i8> = all.iter().map(|cell| cell.rank).collect();
    assert_eq!(ranks, vec![7, 6, 5, 4, 3, 2]);
    let odd = LegalRoles {
        queen: false,
        rook: true,
        bishop: false,
        knight: false,
        king: false,
        pawn: true,
    };
    let some = picker.draw_at(&odd, 0).unwrap().cells;
    let roles: Vec<Role> = some.iter().map(|cell| cell.role).collect();
    assert_eq!(roles, vec![Role::Rook, Role::Pawn]);
}

#[test]
fn draw_for_black_mirrors_the_ranks() {
    let mut picker = Promotable::new();
    picker.start_promoting_at(sq(3, 1), sq(3, 0), 0);
    picker.mouse_move_at(Some(sq(0, 0)), 0);
    let cells = picker.draw_at(&officers(), 0).unwrap().cells;
    let seen: Vec<(Role, Color, i8, i8, bool, bool)> = cells
        .iter()
        .map(|cell| (cell.role, cell.side, cell.file, cell.rank, cell.light, cell.hovered))
        .collect();
    assert_eq!(
        seen,
        vec![
            (Role::Queen, Color::Black, 3, 0, true, false),
            (Role::Rook, Color::Black, 3, 1, false, false),
            (Role::Bishop, Color::Black, 3, 2, true, false),
            (Role::Knight, Color::Black, 3, 3, false, false),
        ]
    );
}

#[test]
fn the_hovered_disc_grows_and_turns_gold() {
    let picker = e7e8_at(2 * SECOND);
    let at = |now: u64| picker.draw_at(&officers(), now).unwrap().cells[0];
    let start = at(2 * SECOND);
    assert!(start.hovered);
    assert_eq!((start.radius, start.red, start.green, start.blue), (500, 690, 690, 690));
    let quarter = at(2 * SECOND + 250_000_000);
    assert_eq!(quarter.red, 869);
    let half = at(2 * SECOND + 500_000_000);
    assert_eq!((half.radius, half.red, half.green, half.blue), (681, 961, 655, 87));
    let end = at(3 * SECOND);
    assert_eq!((end.radius, end.red, end.green, end.blue), (707, 1000, 650, 0));
    let after = at(60 * SECOND);
    assert_eq!(after, end);
    let others = picker.draw_at(&officers(), 2 * SECOND + 500_000_000).unwrap().cells;
    for cell in &others[1..] {
        assert!(!cell.hovered);
        assert_eq!((cell.radius, cell.red, cell.green, cell.blue), (500, 690, 690, 690));
    }
}

#[test]
fn the_piece_fits_into_its_disc() {
    let picker = e7e8_at(0);
    let at = |now: u64| picker.draw_at(&officers(), now).unwrap().cells;
    let start = at(0);
    assert_eq!(start[0].glyph_side(), 707);
    assert_eq!(start[1].glyph_side(), 707);
    let end = at(SECOND);
    assert_eq!(end[0].glyph_side(), 999);
    assert_eq!(end[1].glyph_side(), 707);
    let mut cell = start[0];
    cell.radius = 0;
    assert_eq!(cell.glyph_side(), 0);
    cell.radius = -500;
    assert_eq!(cell.glyph_side(), 707);
    cell.radius = i32::MAX;
    assert_eq!(cell.glyph_side(), 3_037_000_498);
    cell.radius = i32::MIN;
    assert_eq!(cell.glyph_side(), 3_037_000_499);
}

#[test]
fn hover_on_another_file_highlights_nothing() {
    let mut picker = e7e8_at(0);
    picker.mouse_move_at(Some(sq(3, 7)), 0);
    let cells = picker.draw_at(&officers(), SECOND).unwrap().cells;
    assert_eq!(cells.len(), 4);
    for cell in cells {
        assert!(!cell.hovered);
        assert_eq!(cell.radius, 500);
    }
}

#[test]
fn hover_moves_the_highlight() {
    let mut picker = e7e8_at(0);
    picker.mouse_move_at(Some(sq(4, 5)), SECOND);
    let cells = picker.draw_at(&officers(), 2 * SECOND).unwrap().cells;
    let hovered: Vec<bool> = cells.iter().map(|cell| cell.hovered).collect();
    assert_eq!(hovered, vec![false, false, true, false]);
    assert_eq!(cells[2].role, Role::Bishop);
    assert_eq!(cells[2].radius, 707);
}

#[test]
fn the_clock_drives_the_picker() {
    let mut picker = Promotable::new();
    picker.start_promoting(sq(4, 6), sq(4, 7));
    assert!(picker.is_promoting(sq(4, 6)));
    assert!(!picker.is_promoting(sq(4, 7)));
    assert!(picker.is_animating());
    let started = picker.promoting().unwrap();
    assert_eq!((started.orig, started.dest, started.hover), (sq(4, 6), sq(4, 7), Some(sq(4, 7))));
    let redraw = picker.mouse_move(Some(sq(4, 6)));
    assert_eq!(redraw, Redraw { before: Some(sq(4, 7)), after: Some(sq(4, 6)) });
    let moved = picker.promoting().unwrap();
    assert!(moved.time >= started.time);
    assert!(picker.is_animating());
    let overlay = picker.draw(&officers()).unwrap();
    assert_eq!(overlay.veil, 500);
    assert_eq!(overlay.cells.len(), 4);
    assert!(overlay.cells[1].hovered);
    let mut other = picker;
    let outcome = picker.mouse_down(&officers(), Some(sq(4, 7)));
    assert_eq!(
        outcome,
        MouseDown::Move(UserMove { orig: sq(4, 6), dest: sq(4, 7), role: Role::Queen })
    );
    assert!(!picker.is_promoting(sq(4, 6)));
    assert!(!picker.is_animating());
    match other.mouse_down(&officers(), Some(sq(3, 7))) {
        MouseDown::Cancel(reset) => {
            assert_eq!((reset.piece, reset.to), (sq(4, 6), sq(4, 7)));
            assert!(reset.time >= moved.time);
        }
        outcome => panic!("{:?}", outcome),
    }
}
