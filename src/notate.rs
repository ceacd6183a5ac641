use vstd::prelude::*;
use vstd::string::*;

use crate::board::{Board, BoardView, place_model, scratch_attach, validation};
use crate::colour::Colour;
use crate::error::LitsError;
use crate::game::{Game, GameView};
use crate::player::Player;
use crate::point::{Point, cell_of, on_board};
use crate::tetromino::{Tetromino, TetrominoView, colour_fits, first_fit, fits, lemma_wf_points, placement, views};
use crate::transform::canonical_transforms;
use crate::transform::{min_x, min_y, normalized};

verus! {

/// A canonical text notation: `notate` writes it, and `parse` also reads
/// accepted variants of it.
pub trait Notate: Sized + View {
    /// The values that have a notation.
    spec fn notatable(v: Self::V) -> bool;

    /// The canonical notation of a value.
    spec fn notation(v: Self::V) -> Seq<char>;

    /// What parsing the text yields.
    spec fn parse_spec(s: Seq<char>, r: Result<Self::V, LitsError>) -> bool;

    /// Returns the canonical notation of this value.
    fn notate(&self) -> (r: String)
        requires
            Self::notatable(self@),
        ensures
            r@ == Self::notation(self@),
    ;

    /// Reads a value from its notation.
    fn parse(s: &str) -> (r: Result<Self, LitsError>)
        ensures
            Self::parse_spec(
                s@,
                match r {
                    Ok(v) => Ok(v@),
                    Err(e) => Err(e),
                },
            ),
    ;
}

/// The sixteen hexadecimal digits.
pub open spec fn hex_digits() -> Seq<char> {
    seq!['0', '1', '2', '3', '4', '5', '6', '7', '8', '9', 'a', 'b', 'c', 'd', 'e', 'f']
}

/// The one-character text holding hexadecimal digit `v`.
fn hex_str(v: usize) -> (r: &'static str)
    requires
        v < 16,
    ensures
        r@ == seq![hex_digits()[v as int]],
{
    let digits = "0123456789abcdef";
    proof {
        reveal_strlit("0123456789abcdef");
    }
    let r = digits.substring_char(v, v + 1);
    assert(r@ =~= seq![hex_digits()[v as int]]);
    r
}

/// The value of a decimal digit character.
pub open spec fn digit_value(c: char) -> Option<int> {
    if '0' <= c && c <= '9' {
        Some(c as int - '0' as int)
    } else {
        None
    }
}

/// Reads the decimal digit at position `i`.
fn digit_at(s: &str, i: usize) -> (r: Option<i32>)
    requires
        i < s@.len(),
    ensures
        match digit_value(s@[i as int]) {
            Some(v) => r == Some(v as i32),
            None => r is None,
        },
{
    let c = s.get_char(i);
    if '0' <= c && c <= '9' {
        Some((c as u32 - '0' as u32) as i32)
    } else {
        None
    }
}

impl View for Colour {
    type V = Colour;

    open spec fn view(&self) -> Colour {
        *self
    }
}

impl View for Player {
    type V = Player;

    open spec fn view(&self) -> Player {
        *self
    }
}

impl View for Point {
    type V = Point;

    open spec fn view(&self) -> Point {
        *self
    }
}

/// The colour a notation character stands for.
pub open spec fn colour_of_char(c: char) -> Option<Colour> {
    if c == 'L' || c == 'l' || c == 'R' || c == 'r' {
        Some(Colour::L)
    } else if c == 'I' || c == 'i' || c == 'Y' || c == 'y' {
        Some(Colour::I)
    } else if c == 'T' || c == 't' || c == 'G' || c == 'g' {
        Some(Colour::T)
    } else if c == 'S' || c == 's' || c == 'B' || c == 'b' {
        Some(Colour::S)
    } else if c == '_' || c == '-' || c == '.' || c == ',' {
        Some(Colour::Empty)
    } else {
        None
    }
}

/// The canonical character of a colour.
pub open spec fn colour_char(c: Colour) -> char {
    match c {
        Colour::L => 'L',
        Colour::I => 'I',
        Colour::T => 'T',
        Colour::S => 'S',
        Colour::Empty => '-',
    }
}

fn colour_from_char(c: char) -> (r: Option<Colour>)
    ensures
        r == colour_of_char(c),
{
    if c == 'L' || c == 'l' || c == 'R' || c == 'r' {
        Some(Colour::L)
    } else if c == 'I' || c == 'i' || c == 'Y' || c == 'y' {
        Some(Colour::I)
    } else if c == 'T' || c == 't' || c == 'G' || c == 'g' {
        Some(Colour::T)
    } else if c == 'S' || c == 's' || c == 'B' || c == 'b' {
        Some(Colour::S)
    } else if c == '_' || c == '-' || c == '.' || c == ',' {
        Some(Colour::Empty)
    } else {
        None
    }
}

/// The one-character text of a colour.
fn colour_str(c: Colour) -> (r: &'static str)
    ensures
        r@ == seq![colour_char(c)],
{
    let chars = "LITS-";
    proof {
        reveal_strlit("LITS-");
    }
    let i: usize = match c {
        Colour::L => 0,
        Colour::I => 1,
        Colour::T => 2,
        Colour::S => 3,
        Colour::Empty => 4,
    };
    let r = chars.substring_char(i, i + 1);
    assert(r@ =~= seq![colour_char(c)]);
    r
}

impl Notate for Colour {
    open spec fn notatable(v: Colour) -> bool {
        true
    }

    open spec fn notation(v: Colour) -> Seq<char> {
        seq![colour_char(v)]
    }

    open spec fn parse_spec(s: Seq<char>, r: Result<Colour, LitsError>) -> bool {
        r == if s.len() == 1 && colour_of_char(s[0]) is Some {
            Ok(colour_of_char(s[0])->0)
        } else {
            Err(LitsError::Parse)
        }
    }

    fn notate(&self) -> (r: String) {
        String::from_str(colour_str(*self))
    }

    fn parse(s: &str) -> (r: Result<Colour, LitsError>) {
        if s.unicode_len() != 1 {
            return Err(LitsError::Parse);
        }
        match colour_from_char(s.get_char(0)) {
            Some(c) => Ok(c),
            None => Err(LitsError::Parse),
        }
    }
}

/// The player a notation character stands for.
pub open spec fn player_of_char(c: char) -> Option<Player> {
    if c == 'X' || c == 'x' {
        Some(Player::X)
    } else if c == 'O' || c == 'o' {
        Some(Player::O)
    } else if c == '_' || c == '-' || c == '.' || c == ',' {
        Some(Player::Neither)
    } else {
        None
    }
}

/// The canonical character of a player.
pub open spec fn player_char(p: Player) -> char {
    match p {
        Player::X => 'X',
        Player::O => 'O',
        Player::Neither => '_',
    }
}

fn player_from_char(c: char) -> (r: Option<Player>)
    ensures
        r == player_of_char(c),
{
    if c == 'X' || c == 'x' {
        Some(Player::X)
    } else if c == 'O' || c == 'o' {
        Some(Player::O)
    } else if c == '_' || c == '-' || c == '.' || c == ',' {
        Some(Player::Neither)
    } else {
        None
    }
}

/// The one-character text of a player.
fn player_str(p: Player) -> (r: &'static str)
    ensures
        r@ == seq![player_char(p)],
{
    let chars = "XO_";
    proof {
        reveal_strlit("XO_");
    }
    let i: usize = match p {
        Player::X => 0,
        Player::O => 1,
        Player::Neither => 2,
    };
    let r = chars.substring_char(i, i + 1);
    assert(r@ =~= seq![player_char(p)]);
    r
}

impl Notate for Player {
    open spec fn notatable(v: Player) -> bool {
        true
    }

    open spec fn notation(v: Player) -> Seq<char> {
        seq![player_char(v)]
    }

    open spec fn parse_spec(s: Seq<char>, r: Result<Player, LitsError>) -> bool {
        r == if s.len() == 1 && player_of_char(s[0]) is Some {
            Ok(player_of_char(s[0])->0)
        } else {
            Err(LitsError::Parse)
        }
    }

    fn notate(&self) -> (r: String) {
        String::from_str(player_str(*self))
    }

    fn parse(s: &str) -> (r: Result<Player, LitsError>) {
        if s.unicode_len() != 1 {
            return Err(LitsError::Parse);
        }
        match player_from_char(s.get_char(0)) {
            Some(p) => Ok(p),
            None => Err(LitsError::Parse),
        }
    }
}

/// The two-digit notation `xy` of an on-board point.
pub open spec fn point_notation(p: Point) -> Seq<char> {
    seq![hex_digits()[p.x as int], hex_digits()[p.y as int]]
}

/// The point that two digit characters stand for.
pub open spec fn point_of_chars(a: char, b: char) -> Option<Point> {
    if digit_value(a) is Some && digit_value(b) is Some {
        Some(Point { x: (digit_value(a)->0) as i32, y: (digit_value(b)->0) as i32 })
    } else {
        None
    }
}

/// Reads the point written as two digits at position `i`.
fn point_at(s: &str, i: usize) -> (r: Option<Point>)
    requires
        i < 200,
        i + 1 < s@.len(),
    ensures
        r == point_of_chars(s@[i as int], s@[i + 1]),
{
    match (digit_at(s, i), digit_at(s, i + 1)) {
        (Some(x), Some(y)) => Some(Point::new(x, y)),
        _ => None,
    }
}

/// Appends the two-digit notation of an on-board point.
fn push_point(out: &mut String, p: &Point)
    requires
        p.on(),
    ensures
        final(out)@ == old(out)@ + point_notation(*p),
{
    out.append(hex_str(p.x as usize));
    out.append(hex_str(p.y as usize));
    assert(out@ =~= old(out)@ + point_notation(*p));
}

impl Notate for Point {
    open spec fn notatable(v: Point) -> bool {
        v.on()
    }

    open spec fn notation(v: Point) -> Seq<char> {
        point_notation(v)
    }

    open spec fn parse_spec(s: Seq<char>, r: Result<Point, LitsError>) -> bool {
        r == if s.len() == 2 && point_of_chars(s[0], s[1]) is Some {
            Ok(point_of_chars(s[0], s[1])->0)
        } else {
            Err(LitsError::Parse)
        }
    }

    fn notate(&self) -> (r: String) {
        let mut out = String::new();
        push_point(&mut out, self);
        assert(out@ =~= point_notation(*self));
        out
    }

    fn parse(s: &str) -> (r: Result<Point, LitsError>) {
        if s.unicode_len() != 2 {
            return Err(LitsError::Parse);
        }
        match point_at(s, 0) {
            Some(p) => Ok(p),
            None => Err(LitsError::Parse),
        }
    }
}

/// The tile code of an owner and a covering colour: five codes per owner
/// (`Neither`, X, O), each with `Empty` first and then L, I, T, S.
pub open spec fn tile_code(p: Player, c: Colour) -> int {
    5 * (match p {
        Player::Neither => 0int,
        Player::X => 1,
        Player::O => 2,
    }) + if c.is_piece() {
        c.index() + 1
    } else {
        0
    }
}

/// The owner and colour a tile character stands for.
pub open spec fn tile_of_char(ch: char) -> Option<(Player, Colour)> {
    if ch == '0' {
        Some((Player::Neither, Colour::Empty))
    } else if ch == '1' {
        Some((Player::Neither, Colour::L))
    } else if ch == '2' {
        Some((Player::Neither, Colour::I))
    } else if ch == '3' {
        Some((Player::Neither, Colour::T))
    } else if ch == '4' {
        Some((Player::Neither, Colour::S))
    } else if ch == '5' {
        Some((Player::X, Colour::Empty))
    } else if ch == '6' {
        Some((Player::X, Colour::L))
    } else if ch == '7' {
        Some((Player::X, Colour::I))
    } else if ch == '8' {
        Some((Player::X, Colour::T))
    } else if ch == '9' {
        Some((Player::X, Colour::S))
    } else if ch == 'a' {
        Some((Player::O, Colour::Empty))
    } else if ch == 'b' {
        Some((Player::O, Colour::L))
    } else if ch == 'c' {
        Some((Player::O, Colour::I))
    } else if ch == 'd' {
        Some((Player::O, Colour::T))
    } else if ch == 'e' {
        Some((Player::O, Colour::S))
    } else {
        None
    }
}

/// The tile characters are exactly the hexadecimal digits of the tile codes:
/// reading the digit of a code gives back its owner and colour, and every
/// character that reads as a tile is the digit of that tile's code.
pub proof fn lemma_tile_code_inverse(p: Player, c: Colour, ch: char)
    ensures
        tile_of_char(hex_digits()[tile_code(p, c)]) == Some((p, c)),
        tile_of_char(ch) == Some((p, c)) ==> ch == hex_digits()[tile_code(p, c)],
{
}

fn tile_from_char(ch: char) -> (r: Option<(Player, Colour)>)
    ensures
        r == tile_of_char(ch),
{
    if ch == '0' {
        Some((Player::Neither, Colour::Empty))
    } else if ch == '1' {
        Some((Player::Neither, Colour::L))
    } else if ch == '2' {
        Some((Player::Neither, Colour::I))
    } else if ch == '3' {
        Some((Player::Neither, Colour::T))
    } else if ch == '4' {
        Some((Player::Neither, Colour::S))
    } else if ch == '5' {
        Some((Player::X, Colour::Empty))
    } else if ch == '6' {
        Some((Player::X, Colour::L))
    } else if ch == '7' {
        Some((Player::X, Colour::I))
    } else if ch == '8' {
        Some((Player::X, Colour::T))
    } else if ch == '9' {
        Some((Player::X, Colour::S))
    } else if ch == 'a' {
        Some((Player::O, Colour::Empty))
    } else if ch == 'b' {
        Some((Player::O, Colour::L))
    } else if ch == 'c' {
        Some((Player::O, Colour::I))
    } else if ch == 'd' {
        Some((Player::O, Colour::T))
    } else if ch == 'e' {
        Some((Player::O, Colour::S))
    } else {
        None
    }
}

/// The text of a board notation is well formed: 100 tile characters, a
/// comma, four pool counts of at most five in L, I, T, S order, a comma, and
/// the side to move.
pub open spec fn board_text_ok(s: Seq<char>) -> bool {
    &&& s.len() == 107
    &&& forall|k: int| 0 <= k < 100 ==> (#[trigger] tile_of_char(s[k])) is Some
    &&& s[100] == ','
    &&& forall|i: int|
        101 <= i < 105 ==> (#[trigger] digit_value(s[i])) is Some && digit_value(s[i])->0 <= 5
    &&& s[105] == ','
    &&& (player_of_char(s[106]) == Some(Player::X) || player_of_char(s[106]) == Some(Player::O))
}

/// The board a well-formed board notation stands for.
pub open spec fn board_of_text(s: Seq<char>) -> BoardView {
    let pieces = Seq::new(100, |k: int| (tile_of_char(s[k])->0).1);
    BoardView {
        score: Seq::new(100, |k: int| (tile_of_char(s[k])->0).0),
        pieces,
        remaining: Seq::new(4, |i: int| (digit_value(s[101 + i])->0) as usize),
        attach: scratch_attach(pieces),
        to_move: player_of_char(s[106])->0,
    }
}

/// The canonical notation of a board.
pub open spec fn board_notation(b: BoardView) -> Seq<char> {
    Seq::new(100, |k: int| hex_digits()[tile_code(b.score[k], b.pieces[k])]) + seq![',']
        + Seq::new(4, |i: int| hex_digits()[b.remaining[i] as int]) + seq![','] + seq![player_char(b.to_move)]
}

impl Board {
    /// Returns the hexadecimal notation of the tile.
    pub fn notate_tile(&self, i: i32, j: i32) -> (r: String)
        requires
            self@.wf(),
            on_board(i as int, j as int),
        ensures
            r@ == seq![hex_digits()[tile_code(self@.score[cell_of(i as int, j as int)], self@.pieces[cell_of(i as int, j as int)])]],
    {
        let value = 5 * self.player_at(i, j).as_index_null() + self.colour_at(i, j).as_index_null();
        String::from_str(hex_str(value))
    }

    /// Parses the owner and colour of a tile from its hexadecimal notation.
    pub fn parse_tile(s: &str) -> (r: Result<(Player, Colour), LitsError>)
        ensures
            r == if s@.len() == 1 && tile_of_char(s@[0]) is Some {
                Ok(tile_of_char(s@[0])->0)
            } else {
                Err(LitsError::Parse)
            },
    {
        if s.unicode_len() != 1 {
            return Err(LitsError::Parse);
        }
        match tile_from_char(s.get_char(0)) {
            Some(t) => Ok(t),
            None => Err(LitsError::Parse),
        }
    }
}

impl Notate for Board {
    open spec fn notatable(v: BoardView) -> bool {
        v.wf()
    }

    open spec fn notation(v: BoardView) -> Seq<char> {
        board_notation(v)
    }

    open spec fn parse_spec(s: Seq<char>, r: Result<BoardView, LitsError>) -> bool {
        r == if board_text_ok(s) {
            Ok(board_of_text(s))
        } else {
            Err(LitsError::Parse)
        }
    }

    fn notate(&self) -> (r: String) {
        let ghost b = self@;
        let mut out = String::new();
        let mut k: usize = 0;
        while k < 100
            invariant
                k <= 100,
                b == self@,
                b.wf(),
                out@ == Seq::new(k as nat, |j: int| hex_digits()[tile_code(b.score[j], b.pieces[j])]),
            decreases 100 - k,
        {
            let i = (k / 10) as i32;
            let j = (k % 10) as i32;
            let t = self.notate_tile(i, j);
            out.append(t.as_str());
            k = k + 1;
            proof {
                assert(out@ =~= Seq::new(k as nat, |j: int| hex_digits()[tile_code(b.score[j], b.pieces[j])]));
            }
        }
        out.append(",");
        proof {
            reveal_strlit(",");
        }
        let ghost head = out@;
        let colours = [Colour::L, Colour::I, Colour::T, Colour::S];
        let mut c: usize = 0;
        while c < 4
            invariant
                c <= 4,
                b == self@,
                b.wf(),
                colours@ == seq![Colour::L, Colour::I, Colour::T, Colour::S],
                out@ == head + Seq::new(c as nat, |i: int| hex_digits()[b.remaining[i] as int]),
            decreases 4 - c,
        {
            let n = self.remaining_of(&colours[c]);
            out.append(hex_str(n));
            c = c + 1;
            proof {
                assert(out@ =~= head + Seq::new(c as nat, |i: int| hex_digits()[b.remaining[i] as int]));
            }
        }
        out.append(",");
        out.append(player_str(self.to_move()));
        assert(out@ =~= board_notation(b));
        out
    }

    fn parse(s: &str) -> (r: Result<Board, LitsError>) {
        if s.unicode_len() != 107 {
            return Err(LitsError::Parse);
        }
        let mut score: Vec<Player> = Vec::new();
        let mut pieces: Vec<Colour> = Vec::new();
        let mut k: usize = 0;
        while k < 100
            invariant
                k <= 100,
                s@.len() == 107,
                forall|j: int| 0 <= j < k ==> (#[trigger] tile_of_char(s@[j])) is Some,
                score@ == Seq::new(k as nat, |j: int| (tile_of_char(s@[j])->0).0),
                pieces@ == Seq::new(k as nat, |j: int| (tile_of_char(s@[j])->0).1),
            decreases 100 - k,
        {
            match tile_from_char(s.get_char(k)) {
                Some((p, c)) => {
                    score.push(p);
                    pieces.push(c);
                },
                None => {
                    return Err(LitsError::Parse);
                },
            }
            k = k + 1;
            proof {
                assert(score@ =~= Seq::new(k as nat, |j: int| (tile_of_char(s@[j])->0).0));
                assert(pieces@ =~= Seq::new(k as nat, |j: int| (tile_of_char(s@[j])->0).1));
            }
        }
        if s.get_char(100) != ',' {
            return Err(LitsError::Parse);
        }
        let mut remaining: Vec<usize> = Vec::new();
        let mut i: usize = 0;
        while i < 4
            invariant
                i <= 4,
                s@.len() == 107,
                forall|j: int| 101 <= j < 101 + i ==> (#[trigger] digit_value(s@[j])) is Some && digit_value(s@[j])->0 <= 5,
                remaining@ == Seq::new(i as nat, |j: int| (digit_value(s@[101 + j])->0) as usize),
            decreases 4 - i,
        {
            match digit_at(s, 101 + i) {
                Some(v) => {
                    if v > 5 {
                        return Err(LitsError::Parse);
                    }
                    remaining.push(v as usize);
                },
                None => {
                    return Err(LitsError::Parse);
                },
            }
            i = i + 1;
            proof {
                assert(remaining@ =~= Seq::new(i as nat, |j: int| (digit_value(s@[101 + j])->0) as usize));
            }
        }
        if s.get_char(105) != ',' {
            return Err(LitsError::Parse);
        }
        let to_move = match player_from_char(s.get_char(106)) {
            Some(Player::X) => Player::X,
            Some(Player::O) => Player::O,
            _ => {
                return Err(LitsError::Parse);
            },
        };
        proof {
            assert(board_text_ok(s@));
            assert(remaining@ =~= board_of_text(s@).remaining);
        }
        let r = Board::from_cells(score, pieces, remaining, to_move);
        assert(r@ == board_of_text(s@));
        Ok(r)
    }
}

/// The text of a tetromino notation is well formed: `C[xy,xy,xy,xy]` with
/// `C` one of L, I, T, S and four two-digit points.
pub open spec fn tetromino_text_ok(s: Seq<char>) -> bool {
    &&& s.len() == 14
    &&& (s[0] == 'L' || s[0] == 'I' || s[0] == 'T' || s[0] == 'S')
    &&& s[1] == '['
    &&& s[4] == ','
    &&& s[7] == ','
    &&& s[10] == ','
    &&& s[13] == ']'
    &&& point_of_chars(s[2], s[3]) is Some
    &&& point_of_chars(s[5], s[6]) is Some
    &&& point_of_chars(s[8], s[9]) is Some
    &&& point_of_chars(s[11], s[12]) is Some
}

/// The four points of a well-formed tetromino notation.
pub open spec fn tetromino_text_points(s: Seq<char>) -> Seq<Point> {
    seq![
        point_of_chars(s[2], s[3])->0,
        point_of_chars(s[5], s[6])->0,
        point_of_chars(s[8], s[9])->0,
        point_of_chars(s[11], s[12])->0,
    ]
}

/// The canonical notation of a tetromino: its colour and its absolute points.
pub open spec fn tetromino_notation(t: TetrominoView) -> Seq<char> {
    let p = t.real_points();
    seq![colour_char(t.colour), '['] + point_notation(p[0]) + seq![','] + point_notation(p[1]) + seq![',']
        + point_notation(p[2]) + seq![','] + point_notation(p[3]) + seq![']']
}

impl Notate for Tetromino {
    open spec fn notatable(v: TetrominoView) -> bool {
        v.wf() && forall|i: int| 0 <= i < v.real_points().len() ==> (#[trigger] v.real_points()[i]).on()
    }

    open spec fn notation(v: TetrominoView) -> Seq<char> {
        tetromino_notation(v)
    }

    open spec fn parse_spec(s: Seq<char>, r: Result<TetrominoView, LitsError>) -> bool {
        if !tetromino_text_ok(s) {
            r == Err::<TetrominoView, LitsError>(LitsError::Parse)
        } else {
            let c = colour_of_char(s[0])->0;
            let pts = tetromino_text_points(s);
            match r {
                Ok(v) => v.wf() && first_fit(c, Point { x: min_x(pts) as i32, y: min_y(pts) as i32 }, normalized(pts), v),
                Err(e) => e == LitsError::InvalidShape && !colour_fits(c, normalized(pts)),
            }
        }
    }

    fn notate(&self) -> (r: String) {
        proof {
            lemma_wf_points(self@);
        }
        let pts = self.points_real();
        let mut out = String::from_str(colour_str(self.colour()));
        out.append("[");
        push_point(&mut out, &pts[0]);
        out.append(",");
        push_point(&mut out, &pts[1]);
        out.append(",");
        push_point(&mut out, &pts[2]);
        out.append(",");
        push_point(&mut out, &pts[3]);
        out.append("]");
        proof {
            reveal_strlit("[");
            reveal_strlit(",");
            reveal_strlit("]");
            assert(out@ =~= tetromino_notation(self@));
        }
        out
    }

    fn parse(s: &str) -> (r: Result<Tetromino, LitsError>) {
        if s.unicode_len() != 14 {
            return Err(LitsError::Parse);
        }
        let c = s.get_char(0);
        if !(c == 'L' || c == 'I' || c == 'T' || c == 'S') {
            return Err(LitsError::Parse);
        }
        if s.get_char(1) != '[' || s.get_char(4) != ',' || s.get_char(7) != ',' || s.get_char(10) != ','
            || s.get_char(13) != ']' {
            return Err(LitsError::Parse);
        }
        let first_point = point_at(s, 2);
        let second_point = point_at(s, 5);
        let third_point = point_at(s, 8);
        let fourth_point = point_at(s, 11);
        match (first_point, second_point, third_point, fourth_point) {
            (Some(a), Some(b), Some(d), Some(e)) => {
                let colour = match colour_from_char(c) {
                    Some(col) => col,
                    None => {
                        return Err(LitsError::Parse);
                    },
                };
                let points = vec![a, b, d, e];
                proof {
                    assert(tetromino_text_ok(s@));
                    assert(points@ =~= tetromino_text_points(s@));
                }
                Tetromino::from_points_with_colour(&colour, &points)
            },
            _ => Err(LitsError::Parse),
        }
    }
}

/// The end of the line that starts at `from`: the next newline, or the end.
pub open spec fn line_end(s: Seq<char>, from: int) -> int
    decreases s.len() - from,
{
    if from >= s.len() {
        s.len() as int
    } else if s[from] == '\n' {
        from
    } else {
        line_end(s, from + 1)
    }
}

/// Finds the end of the line that starts at `from`.
fn find_line_end(s: &str, from: usize, n: usize) -> (r: usize)
    requires
        n == s@.len(),
        from <= n,
    ensures
        r == line_end(s@, from as int),
        from <= r <= n,
{
    let mut i = from;
    while i < n && s.get_char(i) != '\n'
        invariant
            from <= i <= n,
            n == s@.len(),
            line_end(s@, from as int) == line_end(s@, i as int),
        decreases n - i,
    {
        i = i + 1;
    }
    i
}

/// The moves written one per line, each after a newline.
pub open spec fn moves_text(ms: Seq<TetrominoView>) -> Seq<char>
    decreases ms.len(),
{
    if ms.len() == 0 {
        Seq::empty()
    } else {
        moves_text(ms.drop_last()) + seq!['\n'] + tetromino_notation(ms.last())
    }
}

proof fn lemma_moves_text_step(ms: Seq<TetrominoView>, k: int)
    requires
        0 <= k < ms.len(),
    ensures
        moves_text(ms.take(k + 1)) == moves_text(ms.take(k)) + seq!['\n'] + tetromino_notation(ms[k]),
{
    assert(ms.take(k + 1).drop_last() =~= ms.take(k));
}

/// The moves of a game in playing order: the history, then the moves taken
/// back, next to replay first.
pub open spec fn game_moves(g: GameView) -> Seq<TetrominoView> {
    g.hist + g.redo.reverse()
}

/// What a tetromino notation stands for: the tetromino of the colour at the
/// corner of the points' bounding box under the first canonical transform
/// whose shape the points hold.
pub open spec fn tetromino_of_text(s: Seq<char>) -> Result<TetrominoView, LitsError> {
    if !tetromino_text_ok(s) {
        Err(LitsError::Parse)
    } else {
        let c = colour_of_char(s[0])->0;
        let pts = tetromino_text_points(s);
        let a = Point { x: min_x(pts) as i32, y: min_y(pts) as i32 };
        if colour_fits(c, normalized(pts)) {
            Ok(choose|v: TetrominoView| v.wf() && first_fit(c, a, normalized(pts), v))
        } else {
            Err(LitsError::InvalidShape)
        }
    }
}

/// `first_fit` names one tetromino.
proof fn lemma_first_fit_unique(c: Colour, a: Point, pts: Seq<Point>, v: TetrominoView, w: TetrominoView)
    requires
        first_fit(c, a, pts, v),
        first_fit(c, a, pts, w),
    ensures
        v == w,
{
    let ct = canonical_transforms(c);
    let j = choose|j: int|
        0 <= j < ct.len() && fits(c, pts, #[trigger] ct[j]) && (forall|k: int| 0 <= k < j ==> !fits(c, pts, #[trigger] ct[k]))
            && v == placement(c, a, ct[j]);
    let i = choose|i: int|
        0 <= i < ct.len() && fits(c, pts, #[trigger] ct[i]) && (forall|k: int| 0 <= k < i ==> !fits(c, pts, #[trigger] ct[k]))
            && w == placement(c, a, ct[i]);
    if i < j {
        assert(!fits(c, pts, ct[i]));
    } else if j < i {
        assert(!fits(c, pts, ct[j]));
    }
}

/// Tetromino parsing yields `tetromino_of_text`.
proof fn lemma_parse_tetromino(s: Seq<char>, r: Result<TetrominoView, LitsError>)
    requires
        Tetromino::parse_spec(s, r),
    ensures
        r == tetromino_of_text(s),
{
    if tetromino_text_ok(s) {
        let c = colour_of_char(s[0])->0;
        let pts = tetromino_text_points(s);
        let a = Point { x: min_x(pts) as i32, y: min_y(pts) as i32 };
        if let Ok(v) = r {
            let w = choose|w: TetrominoView| w.wf() && first_fit(c, a, normalized(pts), w);
            lemma_first_fit_unique(c, a, normalized(pts), v, w);
        }
    }
}

/// The game reached by reading the move lines from position `from` (a
/// newline, or the end) on, each played on the board before it.
pub open spec fn replay_text(b: BoardView, hist: Seq<TetrominoView>, s: Seq<char>, from: int) -> Result<
    (BoardView, Seq<TetrominoView>),
    LitsError,
>
    decreases s.len() - from,
{
    if from < 0 || from >= s.len() {
        Ok((b, hist))
    } else {
        let end = line_end(s, from + 1);
        if end <= from || end > s.len() {
            Ok((b, hist))
        } else {
            match tetromino_of_text(s.subrange(from + 1, end)) {
                Err(e) => Err(e),
                Ok(t) => match validation(b, t) {
                    Err(e) => Err(e),
                    Ok(_) => replay_text(place_model(b, t), hist.push(t), s, end),
                },
            }
        }
    }
}

/// What a game notation stands for: the setup on the first line, then each
/// following line a move played in order.
pub open spec fn game_of_text(s: Seq<char>) -> Result<GameView, LitsError> {
    let first = s.take(line_end(s, 0));
    if !board_text_ok(first) {
        Err(LitsError::Parse)
    } else {
        let base = board_of_text(first);
        match replay_text(base, Seq::empty(), s, line_end(s, 0)) {
            Err(e) => Err(e),
            Ok((curr, hist)) => Ok(GameView { curr, base, hist, redo: Seq::empty() }),
        }
    }
}

impl Notate for Game {
    open spec fn notatable(v: GameView) -> bool {
        &&& v.wf()
        &&& forall|i: int| 0 <= i < game_moves(v).len() ==> Tetromino::notatable(#[trigger] game_moves(v)[i])
    }

    open spec fn notation(v: GameView) -> Seq<char> {
        board_notation(v.base) + moves_text(game_moves(v))
    }

    open spec fn parse_spec(s: Seq<char>, r: Result<GameView, LitsError>) -> bool {
        r == game_of_text(s)
    }

    fn notate(&self) -> (r: String) {
        let ghost g = self@;
        let ghost ms = game_moves(g);
        let mut out = self.get_board_base().notate();
        let hist = self.get_history();
        let redo = self.get_future();
        proof {
            reveal_strlit("\n");
            assert(ms.take(0) =~= Seq::<TetrominoView>::empty());
        }
        let mut k: usize = 0;
        while k < hist.len()
            invariant
                g == self@,
                ms == game_moves(g),
                views(hist@) == g.hist,
                k <= hist@.len(),
                ms.len() == g.hist.len() + g.redo.len(),
                forall|i: int| 0 <= i < ms.len() ==> Tetromino::notatable(#[trigger] ms[i]),
                out@ == board_notation(g.base) + moves_text(ms.take(k as int)),
            decreases hist@.len() - k,
        {
            let t = &hist[k];
            proof {
                assert(t@ == ms[k as int]);
                lemma_moves_text_step(ms, k as int);
            }
            let ghost prev = out@;
            out.append("\n");
            let text = t.notate();
            out.append(text.as_str());
            k = k + 1;
            proof {
                reveal_strlit("\n");
                assert(out@ =~= prev + seq!['\n'] + tetromino_notation(ms[k - 1]));
            }
        }
        let f = redo.len();
        let mut j: usize = 0;
        while j < f
            invariant
                g == self@,
                ms == game_moves(g),
                views(redo@) == g.redo,
                f == g.redo.len(),
                j <= f,
                ms.len() == g.hist.len() + g.redo.len(),
                forall|i: int| 0 <= i < ms.len() ==> Tetromino::notatable(#[trigger] ms[i]),
                out@ == board_notation(g.base) + moves_text(ms.take(g.hist.len() + j)),
            decreases f - j,
        {
            let t = &redo[f - 1 - j];
            let ghost idx = g.hist.len() + j;
            proof {
                assert(t@ == ms[idx]);
                lemma_moves_text_step(ms, idx);
            }
            let ghost prev = out@;
            out.append("\n");
            let text = t.notate();
            out.append(text.as_str());
            j = j + 1;
            proof {
                reveal_strlit("\n");
                assert(out@ =~= prev + seq!['\n'] + tetromino_notation(ms[idx]));
            }
        }
        assert(ms.take(ms.len() as int) =~= ms);
        out
    }

    fn parse(s: &str) -> (r: Result<Game, LitsError>) {
        let n = s.unicode_len();
        let e0 = find_line_end(s, 0, n);
        let first = s.substring_char(0, e0);
        assert(first@ =~= s@.take(line_end(s@, 0)));
        let board = match Board::parse(first) {
            Ok(b) => b,
            Err(e) => {
                return Err(e);
            },
        };
        let mut game = Game::from_setup(board);
        let ghost base = game@.base;
        proof {
            assert(game@.hist =~= Seq::<TetrominoView>::empty());
            assert(game@.redo =~= Seq::<TetrominoView>::empty());
        }
        let mut from = e0;
        while from < n
            invariant
                e0 == line_end(s@, 0),
                n == s@.len(),
                e0 <= from <= n,
                board_text_ok(s@.take(line_end(s@, 0))),
                base == board_of_text(s@.take(line_end(s@, 0))),
                game@.wf(),
                game@.base == base,
                game@.redo == Seq::<TetrominoView>::empty(),
                replay_text(base, Seq::empty(), s@, e0 as int) == replay_text(game@.curr, game@.hist, s@, from as int),
            decreases n - from,
        {
            let start = from + 1;
            let end = find_line_end(s, start, n);
            let line = s.substring_char(start, end);
            let t = match Tetromino::parse(line) {
                Ok(t) => {
                    proof {
                        lemma_parse_tetromino(line@, Ok(t@));
                    }
                    t
                },
                Err(e) => {
                    proof {
                        lemma_parse_tetromino(line@, Err(e));
                    }
                    return Err(e);
                },
            };
            match game.apply(&t) {
                Ok(()) => {},
                Err(e) => {
                    return Err(e);
                },
            }
            from = end;
        }
        Ok(game)
    }
}

} // verus!
