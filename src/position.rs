use vstd::prelude::*;
use crate::piece::{PieceKind, Side, Placed, opponent};

verus! {

/// A move as source square, destination square and promotion piece.
/// Squares are numbered `rank * 8 + file`, with a1 = 0 and h8 = 63.
#[derive(Clone, Copy, Debug, PartialEq, Eq, Structural)]
pub struct MoveSpec {
    pub from: u8,
    pub to: u8,
    pub promotion: Option<PieceKind>,
}

/// Occupancy of the 64 squares and the side to move.
#[derive(Clone, Debug)]
pub struct Position {
    pub cells: Vec<Option<Placed>>,
    pub to_move: Side,
}

/// The piece on file `f` of a back rank at the start of a game.
pub open spec fn back_rank_kind(f: int) -> PieceKind {
    if f == 0 || f == 7 {
        PieceKind::Rook
    } else if f == 1 || f == 6 {
        PieceKind::Knight
    } else if f == 2 || f == 5 {
        PieceKind::Bishop
    } else if f == 3 {
        PieceKind::Queen
    } else {
        PieceKind::King
    }
}

/// What square `i` holds at the start of a game.
pub open spec fn initial_cell(i: int) -> Option<Placed> {
    let rank = i / 8;
    let file = i % 8;
    if rank == 0 {
        Some(Placed { kind: back_rank_kind(file), side: Side::White })
    } else if rank == 1 {
        Some(Placed { kind: PieceKind::Pawn, side: Side::White })
    } else if rank == 6 {
        Some(Placed { kind: PieceKind::Pawn, side: Side::Black })
    } else if rank == 7 {
        Some(Placed { kind: back_rank_kind(file), side: Side::Black })
    } else {
        None
    }
}

pub open spec fn initial_cells() -> Seq<Option<Placed>> {
    Seq::new(64, |i: int| initial_cell(i))
}

/// The mover may play `m` on `cells`: both squares lie on the board, they
/// differ, and the source holds a piece of the side to move.
pub open spec fn can_apply(cells: Seq<Option<Placed>>, to_move: Side, m: MoveSpec) -> bool {
    &&& cells.len() == 64
    &&& m.from < 64
    &&& m.to < 64
    &&& m.from != m.to
    &&& cells[m.from as int] is Some
    &&& cells[m.from as int].unwrap().side == to_move
}

/// The king moves from the e-file two files along its rank: the rook goes with it.
pub open spec fn is_castling(cells: Seq<Option<Placed>>, m: MoveSpec) -> bool {
    &&& cells[m.from as int].unwrap().kind == PieceKind::King
    &&& m.from % 8 == 4
    &&& m.from / 8 == m.to / 8
    &&& (m.to == m.from + 2 || m.from == m.to + 2)
}

/// Where the castling rook starts: the corner on the king's side of travel.
pub open spec fn castle_rook_from(m: MoveSpec) -> int {
    if m.to > m.from { (m.from / 8) * 8 + 7 } else { (m.from / 8) * 8 }
}

/// Where the castling rook lands: the square the king passed over.
pub open spec fn castle_rook_to(m: MoveSpec) -> int {
    if m.to > m.from { m.from + 1 } else { m.from - 1 }
}

/// A pawn moves diagonally onto an empty square: it takes en passant.
pub open spec fn is_en_passant(cells: Seq<Option<Placed>>, m: MoveSpec) -> bool {
    &&& cells[m.from as int].unwrap().kind == PieceKind::Pawn
    &&& (m.to / 8 == m.from / 8 + 1 || m.from / 8 == m.to / 8 + 1)
    &&& m.from % 8 != m.to % 8
    &&& cells[m.to as int] is None
}

/// The square of the pawn taken en passant: the mover's rank, the target's file.
pub open spec fn en_passant_victim(m: MoveSpec) -> int {
    (m.from / 8) * 8 + m.to % 8
}

/// The move takes a piece: the destination is occupied, or it takes en passant.
pub open spec fn is_capture(cells: Seq<Option<Placed>>, m: MoveSpec) -> bool {
    cells[m.to as int] is Some || is_en_passant(cells, m)
}

/// The piece that stands on the destination after the move.
pub open spec fn arriving(cells: Seq<Option<Placed>>, m: MoveSpec) -> Placed {
    let mover = cells[m.from as int].unwrap();
    match m.promotion {
        Some(k) => Placed { kind: k, side: mover.side },
        None => mover,
    }
}

/// The squares after `m` is played on `cells`.
pub open spec fn applied_cells(cells: Seq<Option<Placed>>, m: MoveSpec) -> Seq<Option<Placed>> {
    let mover = cells[m.from as int].unwrap();
    Seq::new(
        64,
        |i: int|
            if i == m.to {
                Some(arriving(cells, m))
            } else if i == m.from {
                None
            } else if is_castling(cells, m) && i == castle_rook_from(m) {
                None
            } else if is_castling(cells, m) && i == castle_rook_to(m) {
                Some(Placed { kind: PieceKind::Rook, side: mover.side })
            } else if is_en_passant(cells, m) && i == en_passant_victim(m) {
                None
            } else {
                cells[i]
            },
    )
}

/// The piece that a FEN letter names: upper case White, lower case Black.
pub open spec fn piece_of_letter(c: char) -> Option<Placed> {
    let white = if c == 'P' { Some(PieceKind::Pawn) } else if c == 'R' { Some(PieceKind::Rook) }
        else if c == 'N' { Some(PieceKind::Knight) } else if c == 'B' { Some(PieceKind::Bishop) }
        else if c == 'Q' { Some(PieceKind::Queen) } else if c == 'K' { Some(PieceKind::King) } else { None };
    let black = if c == 'p' { Some(PieceKind::Pawn) } else if c == 'r' { Some(PieceKind::Rook) }
        else if c == 'n' { Some(PieceKind::Knight) } else if c == 'b' { Some(PieceKind::Bishop) }
        else if c == 'q' { Some(PieceKind::Queen) } else if c == 'k' { Some(PieceKind::King) } else { None };
    match white {
        Some(k) => Some(Placed { kind: k, side: Side::White }),
        None => match black {
            Some(k) => Some(Placed { kind: k, side: Side::Black }),
            None => None,
        },
    }
}

/// Reading state of a FEN's placement field: the squares so far, the rank and
/// file of the next square, and whether the text is still well formed.
pub struct PlacementRead {
    pub cells: Seq<Option<Placed>>,
    pub rank: int,
    pub file: int,
    pub ok: bool,
}

/// The placement field of `fen` read up to its first space or its end: ranks
/// from the eighth down, separated by `/`, a digit skipping that many files,
/// a letter placing a piece. More than eight ranks or files, or any other
/// character, make it malformed.
pub open spec fn read_placement(fen: Seq<char>) -> PlacementRead
    decreases fen.len(),
{
    if fen.len() == 0 {
        PlacementRead { cells: Seq::new(64, |i: int| None::<Placed>), rank: 7, file: 0, ok: true }
    } else {
        let st = read_placement(fen.drop_last());
        let c = fen.last();
        if !st.ok || c == ' ' || fen.drop_last().contains(' ') {
            st
        } else if c == '/' && st.rank > 0 {
            PlacementRead { rank: st.rank - 1, file: 0, ..st }
        } else if '1' <= c && c <= '8' && st.file + (c as int - '0' as int) <= 8 {
            PlacementRead { file: st.file + (c as int - '0' as int), ..st }
        } else if piece_of_letter(c) is Some && 0 <= st.rank < 8 && 0 <= st.file < 8 {
            PlacementRead {
                cells: st.cells.update(st.rank * 8 + st.file, piece_of_letter(c)),
                file: st.file + 1,
                ..st
            }
        } else {
            PlacementRead { ok: false, ..st }
        }
    }
}

proof fn lemma_malformed_stays(fen: Seq<char>, i: int)
    requires
        0 <= i <= fen.len(),
        !read_placement(fen.take(i)).ok,
    ensures
        !read_placement(fen).ok,
    decreases fen.len() - i,
{
    if i < fen.len() {
        assert(fen.take(i + 1).drop_last() =~= fen.take(i));
        lemma_malformed_stays(fen, i + 1);
    } else {
        assert(fen.take(i) =~= fen);
    }
}

/// The squares that a FEN's placement field describes, if it is well formed.
pub open spec fn fen_cells(fen: Seq<char>) -> Option<Seq<Option<Placed>>> {
    if read_placement(fen).ok { Some(read_placement(fen).cells) } else { None }
}

fn piece_of_letter_exec(c: char) -> (r: Option<Placed>)
    ensures
        r == piece_of_letter(c),
{
    let white = if c == 'P' { Some(PieceKind::Pawn) } else if c == 'R' { Some(PieceKind::Rook) }
        else if c == 'N' { Some(PieceKind::Knight) } else if c == 'B' { Some(PieceKind::Bishop) }
        else if c == 'Q' { Some(PieceKind::Queen) } else if c == 'K' { Some(PieceKind::King) } else { None };
    let black = if c == 'p' { Some(PieceKind::Pawn) } else if c == 'r' { Some(PieceKind::Rook) }
        else if c == 'n' { Some(PieceKind::Knight) } else if c == 'b' { Some(PieceKind::Bishop) }
        else if c == 'q' { Some(PieceKind::Queen) } else if c == 'k' { Some(PieceKind::King) } else { None };
    match white {
        Some(k) => Some(Placed { kind: k, side: Side::White }),
        None => match black {
            Some(k) => Some(Placed { kind: k, side: Side::Black }),
            None => None,
        },
    }
}

/// The squares of a FEN, as `fen_cells` reads them.
pub fn read_fen_cells(fen: &str) -> (r: Option<Vec<Option<Placed>>>)
    ensures
        match fen_cells(fen@) {
            Some(c) => r matches Some(v) && v@ == c,
            None => r is None,
        },
{
    let n = fen.unicode_len();
    let mut cells: Vec<Option<Placed>> = Vec::new();
    let mut k: usize = 0;
    while k < 64
        invariant
            k <= 64,
            cells@.len() == k,
            forall|j: int| 0 <= j < k ==> cells@[j] is None,
        decreases 64 - k,
    {
        cells.push(None);
        k = k + 1;
    }
    assert(cells@ =~= read_placement(fen@.take(0)).cells);
    let mut rank: i64 = 7;
    let mut file: i64 = 0;
    let mut i: usize = 0;
    let mut seen_space = false;
    while i < n
        invariant
            n == fen@.len(),
            i <= n,
            cells@.len() == 64,
            read_placement(fen@.take(i as int)).ok,
            cells@ == read_placement(fen@.take(i as int)).cells,
            rank as int == read_placement(fen@.take(i as int)).rank,
            file as int == read_placement(fen@.take(i as int)).file,
            seen_space == fen@.take(i as int).contains(' '),
            0 <= rank <= 7,
            0 <= file <= 8,
        decreases n - i,
    {
        let c = fen.get_char(i);
        let ghost pre = fen@.take(i as int);
        assert(fen@.take(i + 1).drop_last() =~= pre);
        assert(fen@.take(i + 1).last() == c);
        if seen_space || c == ' ' {
            seen_space = true;
            assert(fen@.take(i + 1).contains(' ')) by {
                if c == ' ' {
                    assert(fen@.take(i + 1)[i as int] == ' ');
                } else {
                    let j = choose|j: int| 0 <= j < pre.len() && pre[j] == ' ';
                    assert(fen@.take(i + 1)[j] == ' ');
                }
            }
        } else {
            assert(!fen@.take(i + 1).contains(' ')) by {
                let ghost next = fen@.take(i + 1);
                assert forall|j: int| 0 <= j < i + 1 implies #[trigger] next[j] != ' ' by {
                    if j < i {
                        assert(next[j] == pre[j]);
                    }
                }
            }
            if c == '/' && rank > 0 {
                rank = rank - 1;
                file = 0;
            } else if '1' <= c && c <= '8' && file + (c as i64 - '0' as i64) <= 8 {
                file = file + (c as i64 - '0' as i64);
            } else {
                let p = piece_of_letter_exec(c);
                if p.is_some() && 0 <= rank && rank < 8 && 0 <= file && file < 8 {
                    cells.set((rank * 8 + file) as usize, p);
                    file = file + 1;
                } else {
                    proof { lemma_malformed_stays(fen@, i + 1); }
                    return None;
                }
            }
        }
        i = i + 1;
    }
    assert(fen@.take(n as int) =~= fen@);
    Some(cells)
}

/// Whether two lists of squares are equal.
pub fn same_cells(a: &Vec<Option<Placed>>, b: &Vec<Option<Placed>>) -> (r: bool)
    ensures
        r == (a@ == b@),
{
    if a.len() != b.len() {
        return false;
    }
    let mut i: usize = 0;
    while i < a.len()
        invariant
            a@.len() == b@.len(),
            i <= a@.len(),
            forall|j: int| 0 <= j < i ==> a@[j] == b@[j],
        decreases a@.len() - i,
    {
        if a[i] != b[i] {
            return false;
        }
        i = i + 1;
    }
    assert(a@ =~= b@);
    true
}

fn initial_cell_exec(i: usize) -> (r: Option<Placed>)
    requires
        i < 64,
    ensures
        r == initial_cell(i as int),
{
    let rank = i / 8;
    let file = i % 8;
    let back = if file == 0 || file == 7 {
        PieceKind::Rook
    } else if file == 1 || file == 6 {
        PieceKind::Knight
    } else if file == 2 || file == 5 {
        PieceKind::Bishop
    } else if file == 3 {
        PieceKind::Queen
    } else {
        PieceKind::King
    };
    if rank == 0 {
        Some(Placed { kind: back, side: Side::White })
    } else if rank == 1 {
        Some(Placed { kind: PieceKind::Pawn, side: Side::White })
    } else if rank == 6 {
        Some(Placed { kind: PieceKind::Pawn, side: Side::Black })
    } else if rank == 7 {
        Some(Placed { kind: back, side: Side::Black })
    } else {
        None
    }
}

impl Position {
    pub open spec fn wf(&self) -> bool {
        self.cells@.len() == 64
    }

    /// The standard starting position, White to move.
    pub fn initial() -> (p: Position)
        ensures
            p.wf(),
            p.cells@ == initial_cells(),
            p.to_move == Side::White,
    {
        let mut cells: Vec<Option<Placed>> = Vec::new();
        let mut i: usize = 0;
        while i < 64
            invariant
                i <= 64,
                cells@.len() == i,
                forall|j: int| 0 <= j < i ==> cells@[j] == initial_cell(j),
            decreases 64 - i,
        {
            cells.push(initial_cell_exec(i));
            i = i + 1;
        }
        assert(cells@ =~= initial_cells());
        Position { cells, to_move: Side::White }
    }

    /// What stands on square `sq`.
    pub fn piece_at(&self, sq: usize) -> (r: Option<Placed>)
        requires
            self.wf(),
            sq < 64,
        ensures
            r == self.cells@[sq as int],
    {
        self.cells[sq]
    }

    /// Whether `m` can be played here: see `can_apply`.
    pub fn accepts(&self, m: MoveSpec) -> (r: bool)
        requires
            self.wf(),
        ensures
            r == can_apply(self.cells@, self.to_move, m),
    {
        if m.from >= 64 || m.to >= 64 || m.from == m.to {
            return false;
        }
        match self.cells[m.from as usize] {
            Some(p) => p.side == self.to_move,
            None => false,
        }
    }

    /// The kind of the moving piece, whether the move captures, and whether it castles.
    pub fn move_facts(&self, m: MoveSpec) -> (r: (PieceKind, bool, bool))
        requires
            can_apply(self.cells@, self.to_move, m),
        ensures
            r.0 == self.cells@[m.from as int].unwrap().kind,
            r.1 == is_capture(self.cells@, m),
            r.2 == is_castling(self.cells@, m),
    {
        let from = m.from as usize;
        let to = m.to as usize;
        let mover = self.cells[from].unwrap();
        let target = self.cells[to];
        let castling = mover.kind == PieceKind::King && from % 8 == 4 && from / 8 == to / 8
            && (to == from + 2 || from == to + 2);
        let en_passant = mover.kind == PieceKind::Pawn && (to / 8 == from / 8 + 1 || from / 8 == to / 8 + 1)
            && from % 8 != to % 8 && target.is_none();
        (mover.kind, target.is_some() || en_passant, castling)
    }

    /// The position after `m`: the mover leaves its square and arrives (promoted,
    /// if so asked) on the destination, the castling rook follows the king, a pawn
    /// taken en passant leaves the board, and the other side is to move.
    pub fn apply(&self, m: MoveSpec) -> (r: Position)
        requires
            can_apply(self.cells@, self.to_move, m),
        ensures
            r.wf(),
            r.cells@ == applied_cells(self.cells@, m),
            r.to_move == opponent(self.to_move),
    {
        let ghost old_cells = self.cells@;
        let mut cells = self.cells.clone();
        assert(cells@ =~= old_cells);
        let from = m.from as usize;
        let to = m.to as usize;
        let mover = self.cells[from].unwrap();
        let target = self.cells[to];
        let arrived = match m.promotion {
            Some(k) => Placed { kind: k, side: mover.side },
            None => mover,
        };
        let rank_base = (from / 8) * 8;
        if mover.kind == PieceKind::King && from % 8 == 4 && from / 8 == to / 8 && (to == from + 2 || from == to + 2) {
            let (rook_from, rook_to) = if to > from { (rank_base + 7, from + 1) } else { (rank_base, from - 1) };
            cells.set(rook_from, None);
            cells.set(rook_to, Some(Placed { kind: PieceKind::Rook, side: mover.side }));
        } else if mover.kind == PieceKind::Pawn && (to / 8 == from / 8 + 1 || from / 8 == to / 8 + 1)
            && from % 8 != to % 8 && target.is_none() {
            cells.set(rank_base + to % 8, None);
        }
        cells.set(from, None);
        cells.set(to, Some(arrived));
        assert(cells@ =~= applied_cells(old_cells, m));
        Position { cells, to_move: self.to_move.other() }
    }
}

} // verus!
