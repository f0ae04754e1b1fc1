use vstd::prelude::*;
use crate::piece::{PieceKind, Side, Placed, layer_of, sign_of};
use crate::position::{
    Position, MoveSpec, initial_cells, can_apply, applied_cells, arriving,
    is_castling, castle_rook_from, castle_rook_to, is_en_passant, en_passant_victim,
};

verus! {

/// What one square contributes to layer `l`: the sign of its piece's side where
/// the piece's kind owns that layer, 0 otherwise.
pub open spec fn cell_value(c: Option<Placed>, l: int) -> int {
    match c {
        Some(p) => if layer_of(p.kind) == l { sign_of(p.side) } else { 0 },
        None => 0,
    }
}

/// The grid cell at layer `l`, rank `r`, file `f` (rank 0 is White's back rank,
/// file 0 is the a-file).
pub open spec fn grid_value(cells: Seq<Option<Placed>>, l: int, r: int, f: int) -> int {
    cell_value(cells[r * 8 + f], l)
}

/// `g` is a 6 x 8 x 8 grid whose cells are those of `cells`.
pub open spec fn encodes(g: Seq<Seq<Seq<i8>>>, cells: Seq<Option<Placed>>) -> bool {
    &&& g.len() == 6
    &&& forall|l: int| 0 <= l < 6 ==> #[trigger] g[l].len() == 8
    &&& forall|l: int, r: int| 0 <= l < 6 && 0 <= r < 8 ==> #[trigger] g[l][r].len() == 8
    &&& forall|l: int, r: int, f: int|
        0 <= l < 6 && 0 <= r < 8 && 0 <= f < 8 ==> #[trigger] g[l][r][f] as int == grid_value(cells, l, r, f)
}

pub open spec fn grid_view(g: &Vec<Vec<Vec<i8>>>) -> Seq<Seq<Seq<i8>>> {
    g@.map_values(|layer: Vec<Vec<i8>>| layer@.map_values(|row: Vec<i8>| row@))
}

/// The value a piece of `side` leaves in its layer: +1 for White, -1 for Black.
pub fn get_piece_value(side: Side) -> (r: i8)
    ensures
        r as int == sign_of(side),
{
    match side {
        Side::White => 1,
        Side::Black => -1,
    }
}

/// The rank and file of square `sq` (a1 = 0, b1 = 1, ..., h8 = 63).
pub fn square_to_rank_file(sq: usize) -> (r: (usize, usize))
    requires
        sq < 64,
    ensures
        r.0 == sq / 8,
        r.1 == sq % 8,
        r.0 < 8 && r.1 < 8,
        r.0 * 8 + r.1 == sq,
{
    (sq / 8, sq % 8)
}

fn cell_value_exec(c: Option<Placed>, l: usize) -> (r: i8)
    ensures
        r as int == cell_value(c, l as int),
{
    match c {
        Some(p) => if p.kind.layer() == l { get_piece_value(p.side) } else { 0 },
        None => 0,
    }
}

/// One entry per square (a1 first): 1 where a piece stands, 0 where none does.
pub fn board_to_vector(pos: &Position) -> (r: Vec<u8>)
    requires
        pos.wf(),
    ensures
        r@.len() == 64,
        forall|i: int| 0 <= i < 64 ==> #[trigger] r@[i] == if pos.cells@[i] is Some { 1u8 } else { 0u8 },
{
    let mut out: Vec<u8> = Vec::new();
    let mut i: usize = 0;
    while i < 64
        invariant
            pos.wf(),
            i <= 64,
            out@.len() == i,
            forall|j: int| 0 <= j < i ==> #[trigger] out@[j] == if pos.cells@[j] is Some { 1u8 } else { 0u8 },
        decreases 64 - i,
    {
        out.push(if pos.cells[i].is_some() { 1 } else { 0 });
        i = i + 1;
    }
    out
}

/// The 6 x 8 x 8 grid of `pos`: layers Pawn, Rook, Knight, Bishop, Queen, King;
/// +1 for a White piece, -1 for a Black one, 0 for an empty or other square.
pub fn generate_board_tensor(pos: &Position) -> (g: Vec<Vec<Vec<i8>>>)
    requires
        pos.wf(),
    ensures
        encodes(grid_view(&g), pos.cells@),
{
    let mut g: Vec<Vec<Vec<i8>>> = Vec::new();
    let mut l: usize = 0;
    while l < 6
        invariant
            pos.wf(),
            l <= 6,
            g@.len() == l,
            forall|a: int| 0 <= a < l ==> #[trigger] g@[a]@.len() == 8,
            forall|a: int, r: int| 0 <= a < l && 0 <= r < 8 ==> #[trigger] g@[a]@[r]@.len() == 8,
            forall|a: int, r: int, f: int| 0 <= a < l && 0 <= r < 8 && 0 <= f < 8
                ==> #[trigger] g@[a]@[r]@[f] as int == grid_value(pos.cells@, a, r, f),
        decreases 6 - l,
    {
        let mut layer: Vec<Vec<i8>> = Vec::new();
        let mut r: usize = 0;
        while r < 8
            invariant
                pos.wf(),
                l < 6,
                r <= 8,
                layer@.len() == r,
                forall|b: int| 0 <= b < r ==> #[trigger] layer@[b]@.len() == 8,
                forall|b: int, f: int| 0 <= b < r && 0 <= f < 8
                    ==> #[trigger] layer@[b]@[f] as int == grid_value(pos.cells@, l as int, b, f),
            decreases 8 - r,
        {
            let mut row: Vec<i8> = Vec::new();
            let mut f: usize = 0;
            while f < 8
                invariant
                    pos.wf(),
                    l < 6,
                    r < 8,
                    f <= 8,
                    row@.len() == f,
                    forall|c: int| 0 <= c < f
                        ==> #[trigger] row@[c] as int == grid_value(pos.cells@, l as int, r as int, c),
                decreases 8 - f,
            {
                let (rank, file) = square_to_rank_file(r * 8 + f);
                row.push(cell_value_exec(pos.cells[rank * 8 + file], l));
                f = f + 1;
            }
            layer.push(row);
            r = r + 1;
        }
        g.push(layer);
        l = l + 1;
    }
    g
}

/// Playing a move changes the grid on these squares only: the mover's origin
/// and destination, the castling rook's two squares, and the square of a pawn
/// taken en passant.
pub open spec fn touched(cells: Seq<Option<Placed>>, m: MoveSpec, sq: int) -> bool {
    ||| sq == m.from
    ||| sq == m.to
    ||| (is_castling(cells, m) && (sq == castle_rook_from(m) || sq == castle_rook_to(m)))
    ||| (is_en_passant(cells, m) && sq == en_passant_victim(m))
}

/// Encoding after a legal move differs from encoding before only where the move
/// acts: the origin is cleared in every layer; the destination holds the mover's
/// sign in the layer of the arriving piece (the promoted kind on a promotion)
/// and 0 in the others; on castling the rook's origin is cleared and its
/// destination holds the mover's sign in the rook layer; on an en passant
/// capture the taken pawn's square is cleared; every other cell is unchanged.
pub proof fn lemma_move_delta(cells: Seq<Option<Placed>>, to_move: Side, m: MoveSpec)
    requires
        can_apply(cells, to_move, m),
    ensures
        forall|l: int, r: int, f: int|
            0 <= l < 6 && 0 <= r < 8 && 0 <= f < 8 && !touched(cells, m, r * 8 + f)
                ==> #[trigger] grid_value(applied_cells(cells, m), l, r, f) == grid_value(cells, l, r, f),
        forall|l: int| 0 <= l < 6 ==> #[trigger] cell_value(applied_cells(cells, m)[m.from as int], l) == 0,
        forall|l: int| 0 <= l < 6 ==> #[trigger] cell_value(applied_cells(cells, m)[m.to as int], l)
            == if l == layer_of(arriving(cells, m).kind) { sign_of(to_move) } else { 0 },
        is_castling(cells, m) ==> forall|l: int| 0 <= l < 6
            ==> #[trigger] cell_value(applied_cells(cells, m)[castle_rook_from(m)], l) == 0,
        is_castling(cells, m) ==> forall|l: int| 0 <= l < 6
            ==> #[trigger] cell_value(applied_cells(cells, m)[castle_rook_to(m)], l)
                == if l == layer_of(PieceKind::Rook) { sign_of(to_move) } else { 0 },
        is_en_passant(cells, m) ==> forall|l: int| 0 <= l < 6
            ==> #[trigger] cell_value(applied_cells(cells, m)[en_passant_victim(m)], l) == 0,
{
    let after = applied_cells(cells, m);
    assert forall|l: int, r: int, f: int|
        0 <= l < 6 && 0 <= r < 8 && 0 <= f < 8 && !touched(cells, m, r * 8 + f)
            implies #[trigger] grid_value(after, l, r, f) == grid_value(cells, l, r, f) by {
        assert(0 <= r * 8 + f < 64) by (nonlinear_arith)
            requires 0 <= r < 8, 0 <= f < 8;
    }
    if is_castling(cells, m) {
        assert(castle_rook_to(m) != m.to);
        assert(castle_rook_from(m) != m.to);
        assert(castle_rook_from(m) != m.from);
        assert(castle_rook_to(m) != m.from);
        assert(0 <= castle_rook_from(m) < 64);
        assert(0 <= castle_rook_to(m) < 64);
    }
    if is_en_passant(cells, m) {
        assert(0 <= en_passant_victim(m) < 64);
        assert(en_passant_victim(m) != m.to);
    }
}

/// The grid of the starting position, cell by cell: White's pieces on ranks 0
/// and 1, Black's on ranks 6 and 7, the back ranks in the order Rook, Knight,
/// Bishop, Queen, King, Bishop, Knight, Rook, and 0 elsewhere.
pub open spec fn starting_grid_value(l: int, r: int, f: int) -> int {
    if r == 1 {
        if l == 0 { 1 } else { 0 }
    } else if r == 6 {
        if l == 0 { -1 } else { 0 }
    } else if r == 0 || r == 7 {
        let k = if f == 0 || f == 7 { 1int } else if f == 1 || f == 6 { 2 } else if f == 2 || f == 5 { 3 } else if f == 3 { 4 } else { 5 };
        if l == k { if r == 0 { 1 } else { -1 } } else { 0 }
    } else {
        0
    }
}

/// Encoding the starting position gives the literal starting grid; in
/// particular the rook layer holds +1 at a1 and h1, -1 at a8 and h8, and 0
/// elsewhere. Two encodings of the same position are equal.
pub proof fn lemma_initial_grid(g1: Seq<Seq<Seq<i8>>>, g2: Seq<Seq<Seq<i8>>>)
    requires
        encodes(g1, initial_cells()),
        encodes(g2, initial_cells()),
    ensures
        forall|l: int, r: int, f: int| 0 <= l < 6 && 0 <= r < 8 && 0 <= f < 8
            ==> #[trigger] g1[l][r][f] as int == starting_grid_value(l, r, f),
        forall|r: int, f: int| 0 <= r < 8 && 0 <= f < 8 ==> #[trigger] g1[1][r][f]
            == if (r == 0 || r == 7) && (f == 0 || f == 7) { if r == 0 { 1i8 } else { -1i8 } } else { 0i8 },
        g1 == g2,
{
    assert forall|l: int, r: int, f: int| 0 <= l < 6 && 0 <= r < 8 && 0 <= f < 8
        implies #[trigger] g1[l][r][f] as int == starting_grid_value(l, r, f) by {
        assert(0 <= r * 8 + f < 64) by (nonlinear_arith)
            requires 0 <= r < 8, 0 <= f < 8;
        assert((r * 8 + f) / 8 == r && (r * 8 + f) % 8 == f) by (nonlinear_arith)
            requires 0 <= r < 8, 0 <= f < 8;
        assert(g1[l][r][f] as int == grid_value(initial_cells(), l, r, f));
    }
    assert forall|r: int, f: int| 0 <= r < 8 && 0 <= f < 8 implies #[trigger] g1[1][r][f]
        == if (r == 0 || r == 7) && (f == 0 || f == 7) { if r == 0 { 1i8 } else { -1i8 } } else { 0i8 } by {
        assert(g1[1][r][f] as int == starting_grid_value(1, r, f));
    }
    assert forall|l: int| 0 <= l < 6 implies g1[l] == g2[l] by {
        assert forall|r: int| 0 <= r < 8 implies g1[l][r] == g2[l][r] by {
            assert(g1[l][r] =~= g2[l][r]);
        }
        assert(g1[l] =~= g2[l]);
    }
    assert(g1 =~= g2);
}

} // verus!
