use vstd::prelude::*;

use crate::geometry::{is_line, line_path, sign, step_count, Line, Point};

verus! {

/// Concatenates the inner vectors in order.
pub fn flatten<T>(nested: Vec<Vec<T>>) -> (r: Vec<T>)
    ensures
        r@ == nested@.map_values(|v: Vec<T>| v@).flatten(),
{
    let ghost whole = nested@.map_values(|v: Vec<T>| v@).flatten();
    let mut rest = nested;
    let mut result: Vec<T> = Vec::new();
    while rest.len() > 0
        invariant
            result@ + rest@.map_values(|v: Vec<T>| v@).flatten() == whole,
        decreases rest.len(),
    {
        let ghost views = rest@.map_values(|v: Vec<T>| v@);
        let mut first = rest.remove(0);
        assert(rest@.map_values(|v: Vec<T>| v@) =~= views.drop_first());
        assert(views.flatten() == views.first() + views.drop_first().flatten());
        result.append(&mut first);
        assert(result@ + rest@.map_values(|v: Vec<T>| v@).flatten() =~= whole);
    }
    assert(rest@.map_values(|v: Vec<T>| v@) =~= Seq::<Seq<T>>::empty());
    assert(result@ =~= whole);
    result
}

#[derive(Debug, Clone, Copy)]
pub enum Color {
    White,
    Black,
}

pub open spec fn opposite_color(c: Color) -> Color {
    match c {
        Color::White => Color::Black,
        Color::Black => Color::White,
    }
}

impl Color {
    pub fn opposite(&self) -> (r: Self)
        ensures
            r == opposite_color(*self),
    {
        if let Color::White = self {
            Color::Black
        } else {
            Color::White
        }
    }

    pub fn eq(&self, other_color: &Self) -> (r: bool)
        ensures
            r == (*self == *other_color),
    {
        match (self, other_color) {
            (Color::White, Color::White) | (Color::Black, Color::Black) => true,
            _ => false,
        }
    }

    /// The color's name in lower case.
    pub fn render(&self) -> (r: String)
        ensures
            r@ == (match *self {
                Color::White => "white"@,
                Color::Black => "black"@,
            }),
    {
        match self {
            Color::White => "white".to_owned(),
            Color::Black => "black".to_owned(),
        }
    }
}

/// How a template's squares interact with what stands on them.
#[derive(Debug, Clone, Copy, PartialEq, Eq, Structural)]
pub enum MoveType {
    /// Onto an empty square, or onto an enemy piece as a capture.
    Default,
    /// A single displacement that nothing in between can block.
    Jump,
    /// Only onto an enemy piece.
    Attack,
    /// Only onto an empty square.
    Move,
}

/// Each kind of piece; the flag tells whether the piece has moved.
#[derive(Debug, Clone, Copy, PartialEq, Eq, Structural)]
pub enum PieceType {
    Pawn(bool),
    Knight,
    Bishop,
    Rook(bool),
    Queen,
    King(bool),
}

#[derive(Debug, Clone, Copy)]
pub struct Piece {
    pub piece_type: PieceType,
    pub color: Color,
}

/// One direction in which a piece may travel: the offsets from its square,
/// nearest first, and how they interact with occupied squares.
#[derive(Debug)]
pub struct Movement {
    pub points: Vec<Point>,
    pub move_type: MoveType,
}

pub struct MovementView {
    pub points: Seq<Point>,
    pub move_type: MoveType,
}

impl View for Movement {
    type V = MovementView;

    open spec fn view(&self) -> MovementView {
        MovementView { points: self.points@, move_type: self.move_type }
    }
}

/// The template that `Movement::new` builds.
pub open spec fn template(x: i32, y: i32, move_type: MoveType) -> MovementView {
    if move_type == MoveType::Jump {
        MovementView { points: seq![Point(x, y)], move_type }
    } else {
        MovementView { points: line_path(Point(x, y)), move_type }
    }
}

/// Point reflection through the origin.
pub open spec fn point_reflect(p: Point) -> Point {
    Point((-p.0) as i32, (-p.1) as i32)
}

/// A quarter turn: `(x, y)` to `(y, -x)`, which is `(-x, y)` reflected
/// across the main diagonal.
pub open spec fn quarter_turn(p: Point) -> Point {
    Point(p.1, (-p.0) as i32)
}

/// The opposite quarter turn: `(x, y)` to `(-y, x)`, which is `(x, -y)`
/// reflected across the main diagonal.
pub open spec fn quarter_turn_back(p: Point) -> Point {
    Point((-p.1) as i32, p.0)
}

/// The `k`-th of the four symmetric images of an offset.
pub open spec fn mirror_point(p: Point, k: int) -> Point {
    if k == 0 {
        p
    } else if k == 1 {
        point_reflect(p)
    } else if k == 2 {
        quarter_turn(p)
    } else {
        quarter_turn_back(p)
    }
}

pub open spec fn mirror_view(m: MovementView, k: int) -> MovementView {
    MovementView { points: m.points.map_values(|p: Point| mirror_point(p, k)), move_type: m.move_type }
}

/// The four symmetric variants of a template, in the order that `mirror_4`
/// returns them.
pub open spec fn mirror_views(m: MovementView) -> Seq<MovementView> {
    seq![mirror_view(m, 0), mirror_view(m, 1), mirror_view(m, 2), mirror_view(m, 3)]
}

/// No coordinate is `i32::MIN`, so every coordinate can be negated.
pub open spec fn negatable(points: Seq<Point>) -> bool {
    forall|i: int| 0 <= i < points.len() ==> points[i].0 != i32::MIN && points[i].1 != i32::MIN
}

impl Movement {
    pub fn new(offset: (i32, i32), move_type: MoveType) -> (r: Self)
        requires
            move_type == MoveType::Jump || is_line(Point(offset.0, offset.1)),
        ensures
            r@ == template(offset.0, offset.1, move_type),
    {
        let (x, y) = offset;
        match move_type {
            MoveType::Jump => {
                let points = vec![Point(x, y)];
                assert(points@ =~= seq![Point(x, y)]);
                Movement { points, move_type }
            },
            _ => Movement { points: Line(Point(x, y)).path(), move_type },
        }
    }

    /// The four symmetric variants: the template itself, its point
    /// reflection, and its two quarter turns.
    pub fn mirror_4(&self) -> (r: Vec<Self>)
        requires
            negatable(self.points@),
        ensures
            r.len() == 4,
            forall|k: int| 0 <= k < 4 ==> #[trigger] r[k]@ == mirror_view(self@, k),
    {
        let mut result: Vec<Self> = Vec::new();
        let mut i: usize = 0;
        while i < 4
            invariant
                0 <= i <= 4,
                result.len() == i,
                negatable(self.points@),
                forall|k: int| 0 <= k < i ==> #[trigger] result[k]@ == mirror_view(self@, k),
            decreases 4 - i,
        {
            let scaler = if i == 0 {
                Point(1, 1)
            } else if i == 1 {
                Point(-1, -1)
            } else if i == 2 {
                Point(-1, 1)
            } else {
                Point(1, -1)
            };
            let reverse = i >= 2;
            let ghost target = mirror_view(self@, i as int).points;
            let mut points: Vec<Point> = Vec::new();
            let mut j: usize = 0;
            while j < self.points.len()
                invariant
                    0 <= j <= self.points.len(),
                    0 <= i < 4,
                    negatable(self.points@),
                    reverse == (i >= 2),
                    i == 0 ==> scaler.0 == 1 && scaler.1 == 1,
                    i == 1 ==> scaler.0 == -1 && scaler.1 == -1,
                    i == 2 ==> scaler.0 == -1 && scaler.1 == 1,
                    i == 3 ==> scaler.0 == 1 && scaler.1 == -1,
                    target == mirror_view(self@, i as int).points,
                    points@ == target.subrange(0, j as int),
                decreases self.points.len() - j,
            {
                let p = self.points[j];
                let scaled = p.mul(&scaler);
                let q = if reverse {
                    scaled.rev()
                } else {
                    scaled
                };
                assert(q == target[j as int]);
                points.push(q);
                assert(points@ =~= target.subrange(0, j + 1));
                j = j + 1;
            }
            assert(points@ =~= target);
            result.push(Movement { points, move_type: self.move_type });
            i = i + 1;
        }
        result
    }
}

/// The direction in which pawns of the color advance along `y`.
pub open spec fn forward(c: Color) -> i32 {
    match c {
        Color::White => -1i32,
        Color::Black => 1,
    }
}

/// Every template of a piece, in the order that `Piece::moves` lists them.
pub open spec fn catalog(piece: Piece) -> Seq<MovementView> {
    let d = forward(piece.color);
    match piece.piece_type {
        PieceType::Pawn(moved) => seq![
            template(1, d, MoveType::Attack),
            template(-1i32, d, MoveType::Attack),
            template(0, if moved { d } else { (2 * d) as i32 }, MoveType::Move),
        ],
        PieceType::Knight => mirror_views(template(1, 2, MoveType::Jump)) + mirror_views(
            template(-1i32, 2, MoveType::Jump),
        ),
        PieceType::King(_) => mirror_views(template(1, 1, MoveType::Default)) + mirror_views(
            template(0, 1, MoveType::Default),
        ),
        PieceType::Bishop => mirror_views(template(8, 8, MoveType::Default)),
        PieceType::Rook(_) => mirror_views(template(0, 8, MoveType::Default)),
        PieceType::Queen => mirror_views(template(8, 8, MoveType::Default)) + mirror_views(
            template(0, 8, MoveType::Default),
        ),
    }
}

proof fn lemma_line_path_negatable(p: Point)
    requires
        is_line(p),
    ensures
        negatable(line_path(p)),
{
    let s = line_path(p);
    assert forall|i: int| 0 <= i < s.len() implies s[i].0 != i32::MIN && s[i].1 != i32::MIN by {
        let n = step_count(p);
        assert(n <= i32::MAX);
        assert(-n <= (i + 1) * sign(p.0 as int) <= n) by (nonlinear_arith)
            requires
                0 <= i < n,
                -1 <= sign(p.0 as int) <= 1,
        ;
        assert(-n <= (i + 1) * sign(p.1 as int) <= n) by (nonlinear_arith)
            requires
                0 <= i < n,
                -1 <= sign(p.1 as int) <= 1,
        ;
    }
}

/// The four symmetric variants of the template that `offset` and
/// `move_type` give.
fn mirrored(offset: (i32, i32), move_type: MoveType) -> (r: Vec<Movement>)
    requires
        offset.0 != i32::MIN && offset.1 != i32::MIN,
        move_type == MoveType::Jump || is_line(Point(offset.0, offset.1)),
    ensures
        r.len() == 4,
        forall|k: int| 0 <= k < 4 ==> #[trigger] r[k]@ == mirror_views(template(offset.0, offset.1, move_type))[k],
{
    let m = Movement::new(offset, move_type);
    proof {
        if move_type != MoveType::Jump {
            lemma_line_path_negatable(Point(offset.0, offset.1));
        }
    }
    m.mirror_4()
}

/// Two lists of templates, one after the other.
fn join(a: Vec<Movement>, b: Vec<Movement>) -> (r: Vec<Movement>)
    ensures
        r@ == a@ + b@,
{
    let ghost (va, vb) = (a@, b@);
    let nested = vec![a, b];
    let ghost views = nested@.map_values(|v: Vec<Movement>| v@);
    assert(views =~= seq![va, vb]);
    assert(views.drop_first() =~= seq![vb]);
    assert(views.drop_first().drop_first() =~= Seq::<Seq<Movement>>::empty());
    proof {
        seq![vb].lemma_flatten_one_element();
    }
    flatten(nested)
}

/// A single list of templates, through the same concatenation.
fn single(a: Vec<Movement>) -> (r: Vec<Movement>)
    ensures
        r@ == a@,
{
    let ghost va = a@;
    let nested = vec![a];
    let ghost views = nested@.map_values(|v: Vec<Movement>| v@);
    assert(views =~= seq![va]);
    assert(views.drop_first() =~= Seq::<Seq<Movement>>::empty());
    proof {
        views.lemma_flatten_one_element();
    }
    flatten(nested)
}

impl Piece {
    /// Every template along which the piece may travel.
    pub fn moves(&self) -> (r: Vec<Movement>)
        ensures
            r.len() == catalog(*self).len(),
            forall|i: int| 0 <= i < r.len() ==> #[trigger] r[i]@ == catalog(*self)[i],
    {
        let color_scaler = if let Color::White = self.color {
            Point(1, 1)
        } else {
            Point(1, -1)
        };
        let ghost cat = catalog(*self);
        match self.piece_type {
            PieceType::Pawn(moved) => {
                let steps: i32 = if moved {
                    -1
                } else {
                    -2
                };
                proof {
                    let s = color_scaler.1 as int;
                    assert(-1 * s == -s && 1 * s == s);
                    assert(-2 <= steps * s <= 2) by (nonlinear_arith)
                        requires
                            s == 1 || s == -1,
                            steps == -1 || steps == -2,
                    ;
                }
                let a = Movement::new(Point(1, -1).mul(&color_scaler).tup(), MoveType::Attack);
                let b = Movement::new(Point(-1, -1).mul(&color_scaler).tup(), MoveType::Attack);
                let c = Movement::new(Point(0, steps).mul(&color_scaler).tup(), MoveType::Move);
                let r = vec![a, b, c];
                assert(r[0]@ == cat[0] && r[1]@ == cat[1] && r[2]@ == cat[2]);
                r
            },
            PieceType::Knight => {
                let r = join(mirrored((1, 2), MoveType::Jump), mirrored((-1, 2), MoveType::Jump));
                assert(forall|i: int| 0 <= i < 8 ==> #[trigger] r[i]@ == cat[i]);
                r
            },
            PieceType::King(_) => {
                let r = join(
                    mirrored((1, 1), MoveType::Default),
                    mirrored((0, 1), MoveType::Default),
                );
                assert(forall|i: int| 0 <= i < 8 ==> #[trigger] r[i]@ == cat[i]);
                r
            },
            PieceType::Bishop => single(mirrored((8, 8), MoveType::Default)),
            PieceType::Rook(_) => single(mirrored((0, 8), MoveType::Default)),
            PieceType::Queen => {
                let r = join(
                    mirrored((8, 8), MoveType::Default),
                    mirrored((0, 8), MoveType::Default),
                );
                assert(forall|i: int| 0 <= i < 8 ==> #[trigger] r[i]@ == cat[i]);
                r
            },
        }
    }
}

} // verus!
