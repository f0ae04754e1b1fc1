use vstd::prelude::*;

verus! {

/// FEN of the standard starting position.
pub const START_FEN: &'static str = "rnbqkbnr/pppppppp/8/8/8/8/PPPPPPPP/RNBQKBNR w KQkq - 0 1";

/// The move that `chess::ChessMove::from_san` finds for `token` on the board
/// that `chess::Board::from_str` reads from `fen`, as source and destination
/// `Square::to_index` and promotion `Piece::to_index`; `None` where either fails.
pub uninterp spec fn san_move_of(fen: Seq<char>, token: Seq<char>) -> Option<(u8, u8, Option<usize>)>;

/// FEN text (`Display` of `chess::Board`) of the board after that move.
pub uninterp spec fn fen_after(fen: Seq<char>, token: Seq<char>) -> Seq<char>;

/// `fen` is the starting FEN, or a FEN that the rules engine wrote after a
/// move it found. Every such board has both kings, which `Board::from_str`
/// needs to not panic (it computes pins before it checks the board).
pub open spec fn engine_fen(fen: Seq<char>) -> bool {
    fen == START_FEN@ || exists|f: Seq<char>, t: Seq<char>|
        #[trigger] fen_after(f, t) == fen && san_move_of(f, t) is Some
}

/// Relies on `chess::Board::from_str`, `chess::ChessMove::from_san` and
/// `chess::Board::make_move_new` with the `Display` of `chess::Board`: reads
/// the board of `fen`, finds the legal move that `token` names, and plays it.
/// They stand together because only a move that `from_san` found on this very
/// board is known to be legal there, and `make_move_new` panics on others.
/// The result depends on `fen` and `token` alone.
#[verifier::external_body]
pub(crate) fn resolve_on_fen(fen: &str, token: &str) -> (r: Option<(u8, u8, Option<usize>, String)>)
    requires
        engine_fen(fen@),
    ensures
        match r {
            Some(x) => san_move_of(fen@, token@) == Some((x.0, x.1, x.2)) && x.3@ == fen_after(fen@, token@),
            None => san_move_of(fen@, token@) is None,
        },
{
    let board = match <chess::Board as std::str::FromStr>::from_str(fen) {
        Ok(b) => b,
        Err(_) => return None,
    };
    match chess::ChessMove::from_san(&board, token) {
        Ok(m) => Some((
            m.get_source().to_index() as u8,
            m.get_dest().to_index() as u8,
            m.get_promotion().as_ref().map(chess::Piece::to_index),
            board.make_move_new(m).to_string(),
        )),
        Err(_) => None,
    }
}

} // verus!
