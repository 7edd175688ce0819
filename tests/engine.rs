use chess::{flatten, Color, Game, Input, Line, MoveType, Movement, Piece, PieceType, Point};

fn pts(v: &[Point]) -> Vec<(i32, i32)> {
    v.iter().map(|p| p.tup()).collect()
}

fn sorted(mut v: Vec<(i32, i32)>) -> Vec<(i32, i32)> {
    v.sort();
    v
}

fn empty_game() -> Game {
    let mut g = Game::new();
    for y in 1..=8 {
        for x in 1..=8 {
            g.set_piece(&Point(x, y), None);
        }
    }
    g
}

fn piece(piece_type: PieceType, color: Color) -> Option<Piece> {
    Some(Piece { piece_type, color })
}

fn dests(g: &Game, x: i32, y: i32) -> Vec<(i32, i32)> {
    sorted(pts(&g.valid_moves(&Point(x, y)).expect("a piece stands there")))
}

fn occupancy(g: &Game) -> Vec<Option<(PieceType, bool)>> {
    let mut out = vec![];
    for y in 1..=8 {
        for x in 1..=8 {
            out.push(g.get_tile(&Point(x, y)).piece.map(|p| {
                let kind = match p.piece_type {
                    PieceType::Pawn(_) => PieceType::Pawn(false),
                    PieceType::Rook(_) => PieceType::Rook(false),
                    PieceType::King(_) => PieceType::King(false),
                    k => k,
                };
                (kind, matches!(p.color, Color::White))
            }));
        }
    }
    out
}

#[test]
fn point_arithmetic() {
    assert_eq!(Point(2, 3).add(&Point(-5, 1)).tup(), (-3, 4));
    assert_eq!(Point(2, -3).mul(&Point(-1, 1)).tup(), (-2, -3));
    assert_eq!(Point(2, 7).rev().tup(), (7, 2));
    assert!(Point(1, 2).eq(&Point(1, 2)));
    assert!(!Point(1, 2).eq(&Point(2, 1)));
    assert_eq!(Point(0, 12).clamp(&Point(1, 1), &Point(8, 8)).tup(), (1, 8));
}

#[test]
fn bounds() {
    assert!(!Point(1, 1).out_bounds());
    assert!(!Point(8, 8).out_bounds());
    assert!(Point(0, 4).out_bounds());
    assert!(Point(4, 9).out_bounds());
    assert!(Point(-3, -3).out_bounds());
}

#[test]
fn line_paths() {
    assert_eq!(pts(&Line(Point(0, 3)).path()), vec![(0, 1), (0, 2), (0, 3)]);
    assert_eq!(pts(&Line(Point(-3, 3)).path()), vec![(-1, 1), (-2, 2), (-3, 3)]);
    assert_eq!(pts(&Line(Point(-2, 0)).path()), vec![(-1, 0), (-2, 0)]);
    assert_eq!(Line(Point(0, 8)).path().len(), 8);
    assert_eq!(Line(Point(0, 0)).path().len(), 0);
}

#[test]
fn templates() {
    let jump = Movement::new((1, 2), MoveType::Jump);
    assert_eq!(pts(&jump.points), vec![(1, 2)]);
    assert_eq!(jump.move_type, MoveType::Jump);
    let slide = Movement::new((2, -2), MoveType::Default);
    assert_eq!(pts(&slide.points), vec![(1, -1), (2, -2)]);
}

#[test]
fn mirror_quadrants() {
    let m = Movement::new((1, 2), MoveType::Jump).mirror_4();
    assert_eq!(m.len(), 4);
    assert_eq!(pts(&m[0].points), vec![(1, 2)]);
    assert_eq!(pts(&m[1].points), vec![(-1, -2)]);
    assert_eq!(pts(&m[2].points), vec![(2, -1)]);
    assert_eq!(pts(&m[3].points), vec![(-2, 1)]);
    let r = Movement::new((0, 2), MoveType::Default).mirror_4();
    assert_eq!(pts(&r[2].points), vec![(1, 0), (2, 0)]);
    assert_eq!(pts(&r[3].points), vec![(-1, 0), (-2, 0)]);
    assert!(r.iter().all(|t| t.move_type == MoveType::Default));
}

#[test]
fn flatten_keeps_order() {
    assert_eq!(flatten(vec![vec![1, 2], vec![], vec![3]]), vec![1, 2, 3]);
    assert_eq!(flatten::<u8>(vec![]), Vec::<u8>::new());
}

#[test]
fn colors() {
    assert!(Color::White.opposite().eq(&Color::Black));
    assert!(Color::Black.opposite().eq(&Color::White));
    assert!(!Color::White.eq(&Color::Black));
    assert_eq!(Color::White.render(), "white");
    assert_eq!(Color::Black.render(), "black");
}

#[test]
fn move_catalog_sizes() {
    let count = |t: PieceType| Piece { piece_type: t, color: Color::White }.moves().len();
    assert_eq!(count(PieceType::Pawn(false)), 3);
    assert_eq!(count(PieceType::Knight), 8);
    assert_eq!(count(PieceType::King(false)), 8);
    assert_eq!(count(PieceType::Bishop), 4);
    assert_eq!(count(PieceType::Rook(false)), 4);
    assert_eq!(count(PieceType::Queen), 8);
}

#[test]
fn pawn_templates_face_their_color() {
    let w = Piece { piece_type: PieceType::Pawn(false), color: Color::White }.moves();
    assert_eq!(pts(&w[2].points), vec![(0, -1), (0, -2)]);
    assert_eq!(w[2].move_type, MoveType::Move);
    assert_eq!(pts(&w[0].points), vec![(1, -1)]);
    let b = Piece { piece_type: PieceType::Pawn(true), color: Color::Black }.moves();
    assert_eq!(pts(&b[2].points), vec![(0, 1)]);
    assert_eq!(pts(&b[1].points), vec![(-1, 1)]);
    assert_eq!(b[0].move_type, MoveType::Attack);
}

#[test]
fn starting_position() {
    let g = Game::new();
    let t = g.get_tile(&Point(5, 8));
    assert!(matches!(t.piece, Some(Piece { piece_type: PieceType::King(false), color: Color::White })));
    let t = g.get_tile(&Point(4, 1));
    assert!(matches!(t.piece, Some(Piece { piece_type: PieceType::Queen, color: Color::Black })));
    assert!(matches!(g.get_tile(&Point(3, 2)).piece, Some(Piece { piece_type: PieceType::Pawn(false), .. })));
    assert!(g.get_tile(&Point(3, 4)).piece.is_none());
    assert!(matches!(g.get_tile(&Point(1, 1)).color, Color::White));
    assert!(matches!(g.get_tile(&Point(2, 1)).color, Color::Black));
    assert_eq!(g.get_tile(&Point(6, 3)).position.tup(), (6, 3));
    assert_eq!(g.cursor().tup(), (4, 4));
    assert!(g.selected().is_none());
    assert!(matches!(g.turn(), Color::White));
}

#[test]
fn empty_square_has_no_destinations() {
    let g = Game::new();
    assert!(g.valid_moves(&Point(4, 4)).is_none());
    assert!(!g.can_move(&Point(4, 4), &Point(4, 5)));
}

#[test]
fn rook_on_empty_board_has_fourteen() {
    let mut g = empty_game();
    g.set_piece(&Point(1, 1), piece(PieceType::Rook(false), Color::White));
    let mut want: Vec<(i32, i32)> = (2..=8).map(|y| (1, y)).collect();
    want.extend((2..=8).map(|x| (x, 1)));
    assert_eq!(dests(&g, 1, 1), sorted(want));
}

#[test]
fn rook_captures_and_stops() {
    let mut g = empty_game();
    g.set_piece(&Point(1, 1), piece(PieceType::Rook(false), Color::White));
    g.set_piece(&Point(2, 1), piece(PieceType::Knight, Color::White));
    g.set_piece(&Point(1, 4), piece(PieceType::Pawn(false), Color::Black));
    assert_eq!(dests(&g, 1, 1), vec![(1, 2), (1, 3), (1, 4)]);
    assert!(g.can_move(&Point(1, 1), &Point(1, 4)));
    assert!(!g.can_move(&Point(1, 1), &Point(1, 5)));
}

#[test]
fn rook_blocked_by_friend() {
    let mut g = empty_game();
    g.set_piece(&Point(1, 1), piece(PieceType::Rook(false), Color::White));
    g.set_piece(&Point(2, 1), piece(PieceType::Knight, Color::White));
    g.set_piece(&Point(1, 4), piece(PieceType::Pawn(false), Color::White));
    assert_eq!(dests(&g, 1, 1), vec![(1, 2), (1, 3)]);
}

#[test]
fn pawn_double_step_then_single() {
    let mut g = empty_game();
    g.set_piece(&Point(4, 7), piece(PieceType::Pawn(false), Color::White));
    assert_eq!(dests(&g, 4, 7), vec![(4, 5), (4, 6)]);
    g.move_piece(&Point(4, 7), &Point(4, 6));
    assert!(matches!(g.get_tile(&Point(4, 6)).piece, Some(Piece { piece_type: PieceType::Pawn(true), .. })));
    assert_eq!(dests(&g, 4, 6), vec![(4, 5)]);
}

#[test]
fn pawn_attacks_only_enemies_and_is_blocked_ahead() {
    let mut g = empty_game();
    g.set_piece(&Point(4, 7), piece(PieceType::Pawn(false), Color::White));
    g.set_piece(&Point(4, 6), piece(PieceType::Knight, Color::Black));
    g.set_piece(&Point(5, 6), piece(PieceType::Bishop, Color::Black));
    g.set_piece(&Point(3, 6), piece(PieceType::Bishop, Color::White));
    assert_eq!(dests(&g, 4, 7), vec![(5, 6)]);
}

#[test]
fn pawn_cannot_jump_over_a_piece() {
    let mut g = empty_game();
    g.set_piece(&Point(4, 2), piece(PieceType::Pawn(false), Color::Black));
    g.set_piece(&Point(4, 3), piece(PieceType::Pawn(false), Color::White));
    assert_eq!(dests(&g, 4, 2), Vec::<(i32, i32)>::new());
}

#[test]
fn knight_has_eight_in_the_middle() {
    let mut g = empty_game();
    g.set_piece(&Point(4, 4), piece(PieceType::Knight, Color::White));
    let want = vec![(3, 2), (5, 2), (2, 3), (6, 3), (2, 5), (6, 5), (3, 6), (5, 6)];
    assert_eq!(dests(&g, 4, 4), sorted(want));
}

#[test]
fn knight_in_the_corner_stays_on_board() {
    let mut g = empty_game();
    g.set_piece(&Point(1, 1), piece(PieceType::Knight, Color::Black));
    assert_eq!(dests(&g, 1, 1), vec![(2, 3), (3, 2)]);
}

#[test]
fn king_and_queen() {
    let mut g = empty_game();
    g.set_piece(&Point(1, 1), piece(PieceType::King(false), Color::White));
    assert_eq!(dests(&g, 1, 1), vec![(1, 2), (2, 1), (2, 2)]);
    g.set_piece(&Point(4, 4), piece(PieceType::Queen, Color::Black));
    assert_eq!(dests(&g, 4, 4).len(), 27);
}

#[test]
fn every_destination_is_on_the_board() {
    let g = Game::new();
    for y in 1..=8 {
        for x in 1..=8 {
            if let Some(v) = g.valid_moves(&Point(x, y)) {
                assert!(v.iter().all(|p| !p.out_bounds()));
            }
        }
    }
    assert_eq!(dests(&g, 2, 8), vec![(1, 6), (3, 6)]);
    assert_eq!(dests(&g, 1, 8), Vec::<(i32, i32)>::new());
}

#[test]
fn query_twice_gives_the_same() {
    let mut g = Game::new();
    g.update(Input::Down);
    let a = g.valid_moves(&Point(2, 8)).map(|v| pts(&v));
    let b = g.valid_moves(&Point(2, 8)).map(|v| pts(&v));
    assert_eq!(a, b);
}

#[test]
fn cursor_moves_and_clamps() {
    let mut g = Game::new();
    for _ in 0..6 {
        g.update(Input::Up);
    }
    assert_eq!(g.cursor().tup(), (4, 1));
    g.update(Input::Left);
    assert_eq!(g.cursor().tup(), (3, 1));
    assert!(matches!(g.get_tile(&Point(3, 1)).selected, chess::SelectionType::Cursor));
    assert!(matches!(g.get_tile(&Point(4, 1)).selected, chess::SelectionType::NoSelection));
    g.handle_input(Input::Right);
    g.handle_input(Input::Down);
    assert_eq!(g.cursor().tup(), (4, 2));
}

fn go_to(g: &mut Game, x: i32, y: i32) {
    while g.cursor().0 < x {
        g.update(Input::Right);
    }
    while g.cursor().0 > x {
        g.update(Input::Left);
    }
    while g.cursor().1 < y {
        g.update(Input::Down);
    }
    while g.cursor().1 > y {
        g.update(Input::Up);
    }
}

#[test]
fn committed_move_passes_the_turn() {
    let mut g = Game::new();
    go_to(&mut g, 5, 7);
    g.update(Input::Select);
    assert_eq!(g.selected().map(|p| p.tup()), Some((5, 7)));
    go_to(&mut g, 5, 5);
    g.update(Input::Select);
    assert!(g.selected().is_none());
    assert!(matches!(g.turn(), Color::Black));
    assert!(g.get_tile(&Point(5, 7)).piece.is_none());
    assert!(matches!(g.get_tile(&Point(5, 5)).piece, Some(Piece { piece_type: PieceType::Pawn(true), color: Color::White })));
}

#[test]
fn illegal_move_is_discarded() {
    let mut g = Game::new();
    go_to(&mut g, 5, 7);
    g.update(Input::Select);
    go_to(&mut g, 5, 4);
    g.update(Input::Select);
    assert!(g.selected().is_none());
    assert!(matches!(g.turn(), Color::White));
    assert!(g.get_tile(&Point(5, 7)).piece.is_some());
    assert!(g.get_tile(&Point(5, 4)).piece.is_none());
}

#[test]
fn moving_the_other_colors_piece_is_discarded() {
    let mut g = Game::new();
    go_to(&mut g, 5, 2);
    g.update(Input::Select);
    go_to(&mut g, 5, 4);
    g.update(Input::Select);
    assert!(matches!(g.turn(), Color::White));
    assert!(g.get_tile(&Point(5, 2)).piece.is_some());
}

#[test]
fn selecting_an_empty_square_then_anything_is_discarded() {
    let mut g = Game::new();
    g.update(Input::Select);
    assert_eq!(g.selected().map(|p| p.tup()), Some((4, 4)));
    g.update(Input::Down);
    g.update(Input::Select);
    assert!(g.selected().is_none());
    assert!(matches!(g.turn(), Color::White));
}

#[test]
fn capture_replaces_the_target() {
    let mut g = empty_game();
    g.set_piece(&Point(1, 1), piece(PieceType::Rook(false), Color::White));
    g.set_piece(&Point(1, 4), piece(PieceType::Queen, Color::Black));
    g.move_piece(&Point(1, 1), &Point(1, 4));
    assert!(matches!(g.get_tile(&Point(1, 4)).piece, Some(Piece { piece_type: PieceType::Rook(true), color: Color::White })));
    assert!(g.get_tile(&Point(1, 1)).piece.is_none());
}

#[test]
fn move_and_back_restores_the_board() {
    let mut g = Game::new();
    let before = occupancy(&g);
    g.move_piece(&Point(2, 8), &Point(3, 6));
    assert_ne!(occupancy(&g), before);
    g.move_piece(&Point(3, 6), &Point(2, 8));
    assert_eq!(occupancy(&g), before);
    g.move_piece(&Point(4, 7), &Point(4, 5));
    g.move_piece(&Point(4, 5), &Point(4, 7));
    assert_eq!(occupancy(&g), before);
    assert!(matches!(g.get_tile(&Point(4, 7)).piece, Some(Piece { piece_type: PieceType::Pawn(true), .. })));
}

#[test]
fn moved_flag() {
    let p = Piece { piece_type: PieceType::King(false), color: Color::Black }.with_moved_flag();
    assert_eq!(p.piece_type, PieceType::King(true));
    let q = Piece { piece_type: PieceType::Bishop, color: Color::Black }.with_moved_flag();
    assert_eq!(q.piece_type, PieceType::Bishop);
}
