use vstd::prelude::*;

use crate::geometry::{clamp_int, in_bounds, on_board, Point};
use crate::pieces::{catalog, opposite_color, Color, MoveType, Movement, MovementView, Piece, PieceType};

verus! {

/// An abstract command from the player.
#[derive(Debug, Clone, Copy)]
pub enum Input {
    Up,
    Down,
    Left,
    Right,
    Select,
}

/// The transient marker that a square carries.
#[derive(Debug, Clone, Copy, PartialEq, Eq, Structural)]
pub enum SelectionType {
    Cursor,
    NoSelection,
}

/// One square of the board.
#[derive(Debug, Clone, Copy)]
pub struct Tile {
    pub position: Point,
    pub piece: Option<Piece>,
    pub color: Color,
    pub selected: SelectionType,
}

/// The zero-based place of square `(x, y)` in the row-major board.
pub open spec fn index_of(x: int, y: int) -> int {
    x + (y - 1) * 8 - 1
}

pub open spec fn index_at(p: Point) -> int {
    index_of(p.0 as int, p.1 as int)
}

/// Exactly one tile per square, each at its row-major place.
pub open spec fn board_wf(b: Seq<Tile>) -> bool {
    &&& b.len() == 64
    &&& forall|x: int, y: int|
        in_bounds(x, y) ==> (#[trigger] b[index_of(x, y)]).position == Point(x as i32, y as i32)
}

pub open spec fn occupant(b: Seq<Tile>, x: int, y: int) -> Option<Piece> {
    b[index_of(x, y)].piece
}

pub open spec fn with_piece(t: Tile, piece: Option<Piece>) -> Tile {
    Tile { position: t.position, piece, color: t.color, selected: t.selected }
}

pub open spec fn with_marker(t: Tile, selected: SelectionType) -> Tile {
    Tile { position: t.position, piece: t.piece, color: t.color, selected }
}

/// The destinations along one template from square `from`, starting at its
/// `i`-th offset, for a piece of color `color`.
pub open spec fn ray_from(b: Seq<Tile>, from: Point, color: Color, m: MovementView, i: int) -> Seq<
    Point,
>
    decreases m.points.len() - i,
{
    if i < 0 || i >= m.points.len() {
        Seq::empty()
    } else {
        let x = from.0 + m.points[i].0;
        let y = from.1 + m.points[i].1;
        if !in_bounds(x, y) {
            Seq::empty()
        } else {
            match occupant(b, x, y) {
                None => if m.move_type == MoveType::Attack {
                    ray_from(b, from, color, m, i + 1)
                } else {
                    seq![Point(x as i32, y as i32)] + ray_from(b, from, color, m, i + 1)
                },
                Some(q) => if m.move_type == MoveType::Move || q.color == color {
                    Seq::empty()
                } else {
                    seq![Point(x as i32, y as i32)]
                },
            }
        }
    }
}

/// The destinations along templates `j..` of `ms`, template after template.
pub open spec fn rays_from(b: Seq<Tile>, from: Point, color: Color, ms: Seq<MovementView>, j: int) -> Seq<
    Point,
>
    decreases ms.len() - j,
{
    if j < 0 || j >= ms.len() {
        Seq::empty()
    } else {
        ray_from(b, from, color, ms[j], 0) + rays_from(b, from, color, ms, j + 1)
    }
}

/// The squares that the piece on `from` may reach; `None` where `from` is
/// empty.
pub open spec fn legal_destinations(b: Seq<Tile>, from: Point) -> Option<Seq<Point>> {
    match occupant(b, from.0 as int, from.1 as int) {
        None => None,
        Some(p) => Some(rays_from(b, from, p.color, catalog(p), 0)),
    }
}

pub open spec fn can_reach(b: Seq<Tile>, from: Point, to: Point) -> bool {
    match legal_destinations(b, from) {
        Some(d) => d.contains(to),
        None => false,
    }
}

/// The piece as it stands after it has moved.
pub open spec fn moved_piece(p: Piece) -> Piece {
    match p.piece_type {
        PieceType::Pawn(_) => Piece { piece_type: PieceType::Pawn(true), color: p.color },
        PieceType::Rook(_) => Piece { piece_type: PieceType::Rook(true), color: p.color },
        PieceType::King(_) => Piece { piece_type: PieceType::King(true), color: p.color },
        _ => p,
    }
}

/// The board after the piece on `from` is carried to `to`, replacing what
/// stood there, and `from` is emptied.
pub open spec fn apply_move(b: Seq<Tile>, from: Point, to: Point) -> Seq<Tile> {
    let piece = b[index_at(from)].piece.unwrap();
    let b1 = b.update(index_at(to), with_piece(b[index_at(to)], Some(moved_piece(piece))));
    b1.update(index_at(from), with_piece(b1[index_at(from)], None))
}

/// The piece that starts the game on square `(x, y)`.
pub open spec fn initial_piece(x: int, y: int) -> Option<Piece> {
    let back = if y == 1 {
        Color::Black
    } else {
        Color::White
    };
    if y == 2 {
        Some(Piece { piece_type: PieceType::Pawn(false), color: Color::Black })
    } else if y == 7 {
        Some(Piece { piece_type: PieceType::Pawn(false), color: Color::White })
    } else if y != 1 && y != 8 {
        None
    } else if x == 1 || x == 8 {
        Some(Piece { piece_type: PieceType::Rook(false), color: back })
    } else if x == 2 || x == 7 {
        Some(Piece { piece_type: PieceType::Knight, color: back })
    } else if x == 3 || x == 6 {
        Some(Piece { piece_type: PieceType::Bishop, color: back })
    } else if x == 4 {
        Some(Piece { piece_type: PieceType::Queen, color: back })
    } else if x == 5 {
        Some(Piece { piece_type: PieceType::King(false), color: back })
    } else {
        None
    }
}

pub open spec fn square_color(x: int, y: int) -> Color {
    if x % 2 == y % 2 {
        Color::White
    } else {
        Color::Black
    }
}

pub open spec fn initial_tile(x: int, y: int) -> Tile {
    Tile {
        position: Point(x as i32, y as i32),
        piece: initial_piece(x, y),
        color: square_color(x, y),
        selected: SelectionType::NoSelection,
    }
}

/// The state of a game: the board, the cursor, the square picked by a
/// first selection, and whose turn it is.
pub struct Game {
    board: Vec<Tile>,
    cursor: Point,
    selected: Option<Point>,
    turn: Color,
}

pub struct GameView {
    pub board: Seq<Tile>,
    pub cursor: Point,
    pub selected: Option<Point>,
    pub turn: Color,
}

impl View for Game {
    type V = GameView;

    closed spec fn view(&self) -> GameView {
        GameView { board: self.board@, cursor: self.cursor, selected: self.selected, turn: self.turn }
    }
}

pub open spec fn game_wf(g: GameView) -> bool {
    &&& board_wf(g.board)
    &&& on_board(g.cursor)
    &&& (g.selected matches Some(s) ==> on_board(s))
}

/// Whether a second selection on the cursor commits the move from `from`:
/// the cursor is a legal destination, and the piece there is the mover's.
pub open spec fn commits(g: GameView, from: Point) -> bool {
    &&& can_reach(g.board, from, g.cursor)
    &&& occupant(g.board, from.0 as int, from.1 as int) matches Some(p)
    &&& p.color == g.turn
}

pub open spec fn moved_cursor(g: GameView, dx: int, dy: int) -> GameView {
    GameView {
        cursor: Point(
            clamp_int(g.cursor.0 + dx, 1, 8) as i32,
            clamp_int(g.cursor.1 + dy, 1, 8) as i32,
        ),
        ..g
    }
}

/// The state after one command.
pub open spec fn step(g: GameView, input: Input) -> GameView {
    match input {
        Input::Up => moved_cursor(g, 0, -1),
        Input::Down => moved_cursor(g, 0, 1),
        Input::Left => moved_cursor(g, -1, 0),
        Input::Right => moved_cursor(g, 1, 0),
        Input::Select => match g.selected {
            None => GameView { selected: Some(g.cursor), ..g },
            Some(from) => if commits(g, from) {
                GameView {
                    board: apply_move(g.board, from, g.cursor),
                    selected: None,
                    turn: opposite_color(g.turn),
                    ..g
                }
            } else {
                GameView { selected: None, ..g }
            },
        },
    }
}

/// The board with the cursor marker on the cursor's square alone.
pub open spec fn mark_cursor(b: Seq<Tile>, cursor: Point) -> Seq<Tile> {
    b.map_values(
        |t: Tile|
            with_marker(
                t,
                if t.position == cursor {
                    SelectionType::Cursor
                } else {
                    SelectionType::NoSelection
                },
            ),
    )
}

pub open spec fn refreshed(g: GameView) -> GameView {
    GameView { board: mark_cursor(g.board, g.cursor), ..g }
}

proof fn lemma_index_unique(x1: int, y1: int, x2: int, y2: int)
    requires
        in_bounds(x1, y1),
        in_bounds(x2, y2),
        index_of(x1, y1) == index_of(x2, y2),
    ensures
        x1 == x2 && y1 == y2,
{
}

/// The piece that starts the game on square `(x, y)`.
fn starting_piece(x: i32, y: i32) -> (r: Option<Piece>)
    ensures
        r == initial_piece(x as int, y as int),
{
    let back = if y == 1 {
        Color::Black
    } else {
        Color::White
    };
    match (x, y) {
        (_, 2) => Some(Piece { piece_type: PieceType::Pawn(false), color: Color::Black }),
        (_, 7) => Some(Piece { piece_type: PieceType::Pawn(false), color: Color::White }),
        (1 | 8, 1 | 8) => Some(Piece { piece_type: PieceType::Rook(false), color: back }),
        (2 | 7, 1 | 8) => Some(Piece { piece_type: PieceType::Knight, color: back }),
        (3 | 6, 1 | 8) => Some(Piece { piece_type: PieceType::Bishop, color: back }),
        (4, 1 | 8) => Some(Piece { piece_type: PieceType::Queen, color: back }),
        (5, 1 | 8) => Some(Piece { piece_type: PieceType::King(false), color: back }),
        _ => None,
    }
}

impl Game {
    pub open spec fn wf(&self) -> bool {
        game_wf(self@)
    }

    /// The starting position, row by row from `y = 1`.
    pub fn new_board() -> (r: Vec<Tile>)
        ensures
            r.len() == 64,
            forall|x: int, y: int| in_bounds(x, y) ==> #[trigger] r@[index_of(x, y)] == initial_tile(x, y),
    {
        let mut board: Vec<Tile> = Vec::new();
        let mut y: i32 = 1;
        while y <= 8
            invariant
                1 <= y <= 9,
                board.len() == (y - 1) * 8,
                forall|a: int, b: int|
                    in_bounds(a, b) && index_of(a, b) < board.len() ==> #[trigger] board@[index_of(a, b)]
                        == initial_tile(a, b),
            decreases 9 - y,
        {
            let mut x: i32 = 1;
            while x <= 8
                invariant
                    1 <= y <= 8,
                    1 <= x <= 9,
                    board.len() == (y - 1) * 8 + x - 1,
                    forall|a: int, b: int|
                        in_bounds(a, b) && index_of(a, b) < board.len() ==> #[trigger] board@[index_of(
                            a,
                            b,
                        )] == initial_tile(a, b),
                decreases 9 - x,
            {
                let color = if x % 2 == y % 2 {
                    Color::White
                } else {
                    Color::Black
                };
                let tile = Tile {
                    position: Point(x, y),
                    piece: starting_piece(x, y),
                    color,
                    selected: SelectionType::NoSelection,
                };
                assert(tile == initial_tile(x as int, y as int));
                let ghost before = board@;
                board.push(tile);
                assert forall|a: int, b: int|
                    in_bounds(a, b) && index_of(a, b) < board.len() implies #[trigger] board@[index_of(
                        a,
                        b,
                    )] == initial_tile(a, b) by {
                    if index_of(a, b) == before.len() {
                        lemma_index_unique(a, b, x as int, y as int);
                    }
                }
                x = x + 1;
            }
            y = y + 1;
        }
        board
    }

    /// A game at the starting position: White to move, the cursor on (4, 4).
    pub fn new() -> (r: Self)
        ensures
            r.wf(),
            r@.cursor == Point(4, 4),
            r@.selected == None::<Point>,
            r@.turn == Color::White,
            forall|x: int, y: int| in_bounds(x, y) ==> #[trigger] r@.board[index_of(x, y)] == initial_tile(x, y),
    {
        Game { board: Game::new_board(), cursor: Point(4, 4), selected: None, turn: Color::White }
    }

    pub fn get_tile(&self, p: &Point) -> (r: &Tile)
        requires
            board_wf(self@.board),
            on_board(*p),
        ensures
            *r == self@.board[index_at(*p)],
    {
        &self.board[(p.0 + (p.1 - 1) * 8 - 1) as usize]
    }

    pub fn cursor(&self) -> (r: Point)
        ensures
            r == self@.cursor,
    {
        self.cursor
    }

    pub fn selected(&self) -> (r: Option<Point>)
        ensures
            r == self@.selected,
    {
        self.selected
    }

    pub fn turn(&self) -> (r: Color)
        ensures
            r == self@.turn,
    {
        self.turn
    }
}

proof fn lemma_ray_on_board(b: Seq<Tile>, from: Point, color: Color, m: MovementView, i: int)
    ensures
        forall|k: int|
            0 <= k < ray_from(b, from, color, m, i).len() ==> on_board(
                #[trigger] ray_from(b, from, color, m, i)[k],
            ),
    decreases m.points.len() - i,
{
    if 0 <= i < m.points.len() {
        lemma_ray_on_board(b, from, color, m, i + 1);
        let x = from.0 + m.points[i].0;
        let y = from.1 + m.points[i].1;
        let head = seq![Point(x as i32, y as i32)];
        let rest = ray_from(b, from, color, m, i + 1);
        if in_bounds(x, y) {
            assert(on_board(Point(x as i32, y as i32)));
            assert forall|k: int| 0 <= k < (head + rest).len() implies on_board(
                #[trigger] (head + rest)[k],
            ) by {
                if k >= 1 {
                    assert((head + rest)[k] == rest[k - 1]);
                }
            }
        }
    }
}

proof fn lemma_rays_on_board(b: Seq<Tile>, from: Point, color: Color, ms: Seq<MovementView>, j: int)
    ensures
        forall|k: int|
            0 <= k < rays_from(b, from, color, ms, j).len() ==> on_board(
                #[trigger] rays_from(b, from, color, ms, j)[k],
            ),
    decreases ms.len() - j,
{
    if 0 <= j < ms.len() {
        lemma_ray_on_board(b, from, color, ms[j], 0);
        lemma_rays_on_board(b, from, color, ms, j + 1);
        let r = ray_from(b, from, color, ms[j], 0);
        let rest = rays_from(b, from, color, ms, j + 1);
        assert forall|k: int| 0 <= k < (r + rest).len() implies on_board(#[trigger] (r + rest)[k]) by {
            if k >= r.len() {
                assert((r + rest)[k] == rest[k - r.len()]);
            }
        }
    }
}

/// Every square that `legal_destinations` returns lies on the board.
pub proof fn lemma_destinations_on_board(b: Seq<Tile>, from: Point)
    ensures
        match legal_destinations(b, from) {
            Some(d) => forall|k: int| 0 <= k < d.len() ==> on_board(#[trigger] d[k]),
            None => true,
        },
{
    if let Some(p) = occupant(b, from.0 as int, from.1 as int) {
        lemma_rays_on_board(b, from, p.color, catalog(p), 0);
    }
}

impl Piece {
    /// The same piece with its has-moved flag set, where its kind has one.
    pub fn with_moved_flag(&self) -> (r: Piece)
        ensures
            r == moved_piece(*self),
    {
        match self.piece_type {
            PieceType::Pawn(_) => Piece { piece_type: PieceType::Pawn(true), color: self.color },
            PieceType::Rook(_) => Piece { piece_type: PieceType::Rook(true), color: self.color },
            PieceType::King(_) => Piece { piece_type: PieceType::King(true), color: self.color },
            _ => *self,
        }
    }
}

impl Game {
    /// The destinations along one template, walked from the nearest offset
    /// until an edge, a blocking piece or a capture ends it.
    fn walk(&self, from: &Point, color: Color, m: &Movement) -> (r: Vec<Point>)
        requires
            board_wf(self@.board),
            on_board(*from),
        ensures
            r@ == ray_from(self@.board, *from, color, m@, 0),
    {
        let ghost b = self@.board;
        let ghost whole = ray_from(b, *from, color, m@, 0);
        let n = m.points.len();
        let mut result: Vec<Point> = Vec::new();
        let mut i: usize = 0;
        while i < n
            invariant
                0 <= i <= n,
                n == m.points.len(),
                b == self@.board,
                board_wf(b),
                on_board(*from),
                result@ + ray_from(b, *from, color, m@, i as int) == whole,
            decreases n - i,
        {
            let p = m.points[i];
            if p.0 < 1 - from.0 || p.0 > 8 - from.0 || p.1 < 1 - from.1 || p.1 > 8 - from.1 {
                assert(result@ + ray_from(b, *from, color, m@, n as int) =~= whole);
                i = n;
            } else {
                let c = Point(from.0 + p.0, from.1 + p.1);
                let tile = self.get_tile(&c);
                match tile.piece {
                    None => {
                        let ghost before = result@;
                        if m.move_type != MoveType::Attack {
                            result.push(c);
                        }
                        assert(result@ + ray_from(b, *from, color, m@, i + 1) =~= whole) by {
                            assert(before + ray_from(b, *from, color, m@, i as int) == whole);
                        }
                        i = i + 1;
                    },
                    Some(q) => {
                        let ghost before = result@;
                        if m.move_type != MoveType::Move && !q.color.eq(&color) {
                            result.push(c);
                        }
                        assert(result@ + ray_from(b, *from, color, m@, n as int) =~= whole) by {
                            assert(before + ray_from(b, *from, color, m@, i as int) == whole);
                        }
                        i = n;
                    },
                }
            }
        }
        assert(result@ =~= whole);
        result
    }

    /// The squares that the piece on `from` may reach, or `None` where
    /// `from` is empty.
    pub fn valid_moves(&self, from: &Point) -> (r: Option<Vec<Point>>)
        requires
            self.wf(),
            on_board(*from),
        ensures
            match r {
                Some(v) => {
                    &&& legal_destinations(self@.board, *from) == Some(v@)
                    &&& forall|k: int| 0 <= k < v.len() ==> on_board(#[trigger] v@[k])
                },
                None => legal_destinations(self@.board, *from) == None::<Seq<Point>>,
            },
    {
        let tile = self.get_tile(from);
        match tile.piece {
            None => None,
            Some(piece) => {
                let ghost b = self@.board;
                let ghost ms = catalog(piece);
                let ghost whole = rays_from(b, *from, piece.color, ms, 0);
                let moves = piece.moves();
                let mut result: Vec<Point> = Vec::new();
                let mut j: usize = 0;
                while j < moves.len()
                    invariant
                        0 <= j <= moves.len(),
                        moves.len() == ms.len(),
                        forall|i: int| 0 <= i < moves.len() ==> #[trigger] moves[i]@ == ms[i],
                        b == self@.board,
                        board_wf(b),
                        on_board(*from),
                        result@ + rays_from(b, *from, piece.color, ms, j as int) == whole,
                    decreases moves.len() - j,
                {
                    let ghost before = result@;
                    let mut part = self.walk(from, piece.color, &moves[j]);
                    result.append(&mut part);
                    assert(result@ + rays_from(b, *from, piece.color, ms, j + 1) =~= whole) by {
                        assert(before + rays_from(b, *from, piece.color, ms, j as int) == whole);
                    }
                    j = j + 1;
                }
                assert(result@ =~= whole);
                proof {
                    lemma_rays_on_board(b, *from, piece.color, ms, 0);
                }
                Some(result)
            },
        }
    }

    /// Whether `to` is among the squares that the piece on `from` may reach.
    pub fn can_move(&self, from: &Point, to: &Point) -> (r: bool)
        requires
            self.wf(),
            on_board(*from),
        ensures
            r == can_reach(self@.board, *from, *to),
    {
        match self.valid_moves(from) {
            Some(moves) => {
                let mut found = false;
                let mut i: usize = 0;
                while i < moves.len()
                    invariant
                        0 <= i <= moves.len(),
                        found == exists|k: int| 0 <= k < i && moves@[k] == *to,
                    decreases moves.len() - i,
                {
                    if moves[i].eq(to) {
                        found = true;
                    }
                    i = i + 1;
                }
                found
            },
            None => false,
        }
    }

    /// Puts `piece` on square `p`, or empties it.
    pub fn set_piece(&mut self, p: &Point, piece: Option<Piece>)
        requires
            old(self).wf(),
            on_board(*p),
        ensures
            final(self).wf(),
            final(self)@ == (GameView {
                board: old(self)@.board.update(
                    index_at(*p),
                    with_piece(old(self)@.board[index_at(*p)], piece),
                ),
                ..old(self)@
            }),
    {
        let i = (p.0 + (p.1 - 1) * 8 - 1) as usize;
        let t = self.board[i];
        self.board.set(i, Tile { position: t.position, piece, color: t.color, selected: t.selected });
    }

    /// Carries the piece on `from` to `to`, replacing whatever stood there,
    /// and empties `from`. Legality is the caller's to check.
    pub fn move_piece(&mut self, from: &Point, to: &Point)
        requires
            old(self).wf(),
            on_board(*from),
            on_board(*to),
            occupant(old(self)@.board, from.0 as int, from.1 as int) is Some,
        ensures
            final(self).wf(),
            final(self)@ == (GameView { board: apply_move(old(self)@.board, *from, *to), ..old(self)@ }),
    {
        let piece = self.get_tile(from).piece.unwrap().with_moved_flag();
        self.set_piece(to, Some(piece));
        self.set_piece(from, None);
    }

    /// Applies one command: cursor moves stay on the board; a first
    /// selection picks the cursor's square; a second one commits the move
    /// where it is legal and the piece is the mover's, and clears the
    /// selection either way.
    pub fn handle_input(&mut self, input: Input)
        requires
            old(self).wf(),
        ensures
            final(self).wf(),
            final(self)@ == step(old(self)@, input),
    {
        let low = Point(1, 1);
        let high = Point(8, 8);
        match input {
            Input::Up => self.cursor = self.cursor.add(&Point(0, -1)).clamp(&low, &high),
            Input::Down => self.cursor = self.cursor.add(&Point(0, 1)).clamp(&low, &high),
            Input::Left => self.cursor = self.cursor.add(&Point(-1, 0)).clamp(&low, &high),
            Input::Right => self.cursor = self.cursor.add(&Point(1, 0)).clamp(&low, &high),
            Input::Select => match self.selected {
                None => {
                    self.selected = Some(self.cursor);
                },
                Some(from) => {
                    let to = self.cursor;
                    let can_move = self.can_move(&from, &to);
                    let valid_turn = match self.get_tile(&from).piece {
                        Some(x) => x.color.eq(&self.turn),
                        None => false,
                    };
                    if can_move && valid_turn {
                        self.move_piece(&from, &to);
                        self.turn = self.turn.opposite();
                    }
                    self.selected = None;
                },
            },
        }
    }

    /// Applies one command, then moves the cursor marker to the cursor's
    /// square.
    pub fn update(&mut self, input: Input)
        requires
            old(self).wf(),
        ensures
            final(self).wf(),
            final(self)@ == refreshed(step(old(self)@, input)),
    {
        self.handle_input(input);
        let ghost g = self@;
        let ghost b = self@.board;
        let mut i: usize = 0;
        while i < self.board.len()
            invariant
                0 <= i <= 64,
                self.board.len() == 64,
                b.len() == 64,
                game_wf(g),
                b == g.board,
                self.cursor == g.cursor,
                self.selected == g.selected,
                self.turn == g.turn,
                forall|k: int| 0 <= k < i ==> #[trigger] self.board@[k] == mark_cursor(b, self.cursor)[k],
                forall|k: int| i <= k < 64 ==> #[trigger] self.board@[k] == b[k],
            decreases 64 - i,
        {
            let t = self.board[i];
            let marker = if t.position.eq(&self.cursor) {
                SelectionType::Cursor
            } else {
                SelectionType::NoSelection
            };
            self.board.set(
                i,
                Tile { position: t.position, piece: t.piece, color: t.color, selected: marker },
            );
            i = i + 1;
        }
        assert(self.board@ =~= mark_cursor(b, self.cursor));
        assert(board_wf(self.board@));
    }
}

proof fn lemma_slide_prefix(b: Seq<Tile>, from: Point, color: Color, m: MovementView, i: int)
    requires
        m.move_type == MoveType::Default,
        0 <= i <= m.points.len(),
    ensures
        ray_from(b, from, color, m, i).len() <= m.points.len() - i,
        forall|k: int|
            0 <= k < ray_from(b, from, color, m, i).len() ==> {
                let d = #[trigger] ray_from(b, from, color, m, i)[k];
                &&& d.0 == from.0 + m.points[i + k].0
                &&& d.1 == from.1 + m.points[i + k].1
            },
        forall|k: int|
            0 <= k < ray_from(b, from, color, m, i).len() - 1 ==> {
                let d = #[trigger] ray_from(b, from, color, m, i)[k];
                occupant(b, d.0 as int, d.1 as int) is None
            },
    decreases m.points.len() - i,
{
    if i < m.points.len() {
        lemma_slide_prefix(b, from, color, m, i + 1);
        let x = from.0 + m.points[i].0;
        let y = from.1 + m.points[i].1;
        let head = seq![Point(x as i32, y as i32)];
        let rest = ray_from(b, from, color, m, i + 1);
        if in_bounds(x, y) && occupant(b, x, y) is None {
            assert(ray_from(b, from, color, m, i) == head + rest);
            assert forall|k: int| 1 <= k < (head + rest).len() implies #[trigger] (head + rest)[k]
                == rest[k - 1] by {}
        }
    }
}

/// A slide never passes over an empty square: along a `Default` template
/// the destinations are the template's first squares, nearest first, and
/// every one of them but the last is empty.
pub proof fn lemma_slide_has_no_gaps(b: Seq<Tile>, from: Point, color: Color, m: MovementView)
    requires
        m.move_type == MoveType::Default,
    ensures
        ray_from(b, from, color, m, 0).len() <= m.points.len(),
        forall|k: int|
            0 <= k < ray_from(b, from, color, m, 0).len() ==> {
                let d = #[trigger] ray_from(b, from, color, m, 0)[k];
                &&& d.0 == from.0 + m.points[k].0
                &&& d.1 == from.1 + m.points[k].1
            },
        forall|k: int|
            0 <= k < ray_from(b, from, color, m, 0).len() - 1 ==> {
                let d = #[trigger] ray_from(b, from, color, m, 0)[k];
                occupant(b, d.0 as int, d.1 as int) is None
            },
{
    lemma_slide_prefix(b, from, color, m, 0);
}

/// The boards hold the same pieces on every square.
pub open spec fn same_pieces(b1: Seq<Tile>, b2: Seq<Tile>) -> bool {
    forall|x: int, y: int| in_bounds(x, y) ==> #[trigger] occupant(b1, x, y) == occupant(b2, x, y)
}

proof fn lemma_ray_same_pieces(b1: Seq<Tile>, b2: Seq<Tile>, from: Point, color: Color, m: MovementView, i: int)
    requires
        same_pieces(b1, b2),
    ensures
        ray_from(b1, from, color, m, i) == ray_from(b2, from, color, m, i),
    decreases m.points.len() - i,
{
    if 0 <= i < m.points.len() {
        lemma_ray_same_pieces(b1, b2, from, color, m, i + 1);
        let x = from.0 + m.points[i].0;
        let y = from.1 + m.points[i].1;
        if in_bounds(x, y) {
            assert(occupant(b1, x, y) == occupant(b2, x, y));
        }
    }
}

proof fn lemma_rays_same_pieces(
    b1: Seq<Tile>,
    b2: Seq<Tile>,
    from: Point,
    color: Color,
    ms: Seq<MovementView>,
    j: int,
)
    requires
        same_pieces(b1, b2),
    ensures
        rays_from(b1, from, color, ms, j) == rays_from(b2, from, color, ms, j),
    decreases ms.len() - j,
{
    if 0 <= j < ms.len() {
        lemma_ray_same_pieces(b1, b2, from, color, ms[j], 0);
        lemma_rays_same_pieces(b1, b2, from, color, ms, j + 1);
    }
}

/// The legal destinations depend on nothing but the pieces on the board:
/// asked twice of one position, or of two boards that differ only in their
/// markers, the query gives the same answer.
pub proof fn lemma_destinations_depend_on_pieces(b1: Seq<Tile>, b2: Seq<Tile>, from: Point)
    requires
        same_pieces(b1, b2),
        on_board(from),
    ensures
        legal_destinations(b1, from) == legal_destinations(b2, from),
{
    assert(occupant(b1, from.0 as int, from.1 as int) == occupant(b2, from.0 as int, from.1 as int));
    if let Some(p) = occupant(b1, from.0 as int, from.1 as int) {
        lemma_rays_same_pieces(b1, b2, from, p.color, catalog(p), 0);
    }
}

/// A committed move hands the turn to the other color; any other command,
/// a discarded second selection included, leaves the turn as it was.
pub proof fn lemma_turn_alternates(g: GameView, input: Input)
    requires
        game_wf(g),
    ensures
        match (input, g.selected) {
            (Input::Select, Some(from)) => if commits(g, from) {
                step(g, input).turn == opposite_color(g.turn)
            } else {
                step(g, input).turn == g.turn
            },
            _ => step(g, input).turn == g.turn,
        },
{
}

/// The piece with its has-moved flag cleared.
pub open spec fn unflagged(p: Piece) -> Piece {
    match p.piece_type {
        PieceType::Pawn(_) => Piece { piece_type: PieceType::Pawn(false), color: p.color },
        PieceType::Rook(_) => Piece { piece_type: PieceType::Rook(false), color: p.color },
        PieceType::King(_) => Piece { piece_type: PieceType::King(false), color: p.color },
        _ => p,
    }
}

/// The tile with the has-moved flag of its piece cleared.
pub open spec fn unflagged_tile(t: Tile) -> Tile {
    with_piece(
        t,
        match t.piece {
            Some(p) => Some(unflagged(p)),
            None => None,
        },
    )
}

/// Moving a piece onto an empty square and back restores every square,
/// but for the has-moved flag, which stays set.
pub proof fn lemma_move_round_trip(b: Seq<Tile>, from: Point, to: Point)
    requires
        board_wf(b),
        on_board(from),
        on_board(to),
        from != to,
        occupant(b, from.0 as int, from.1 as int) is Some,
        occupant(b, to.0 as int, to.1 as int) is None,
    ensures
        apply_move(apply_move(b, from, to), to, from).len() == b.len(),
        forall|i: int|
            0 <= i < b.len() ==> unflagged_tile(
                #[trigger] apply_move(apply_move(b, from, to), to, from)[i],
            ) == unflagged_tile(b[i]),
{
    if index_at(from) == index_at(to) {
        lemma_index_unique(from.0 as int, from.1 as int, to.0 as int, to.1 as int);
    }
    let once = apply_move(b, from, to);
    let twice = apply_move(once, to, from);
    let p = b[index_at(from)].piece.unwrap();
    assert(once[index_at(to)].piece == Some(moved_piece(p)));
    assert(unflagged(moved_piece(moved_piece(p))) == unflagged(p));
}

} // verus!
