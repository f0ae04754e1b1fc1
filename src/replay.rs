use vstd::prelude::*;
use vstd::string::*;
use crate::piece::{PieceKind, Side, Placed, opponent};
use crate::position::{Position, MoveSpec, can_apply, applied_cells, initial_cells, is_capture, is_castling, fen_cells, read_fen_cells, same_cells};
use crate::outcome::{GameOutcome, is_result_marker};
use crate::oracle::{START_FEN, resolve_on_fen, san_move_of, fen_after, engine_fen};
use crate::tags::first_from;

verus! {

/// One successfully played ply.
#[derive(Clone, Debug)]
pub struct MoveRecord {
    /// 1 for the first ply that was played, then counting up.
    pub index: usize,
    /// The side that made the move.
    pub side: Side,
    /// The token as it stood in the movetext.
    pub san: String,
    /// The move that the token resolved to.
    pub mv: MoveSpec,
    /// The kind of the piece that moved.
    pub piece: PieceKind,
    /// The move took a piece.
    pub capture: bool,
    /// The move castled.
    pub castling: bool,
    /// FEN of the position after the move.
    pub fen: String,
}

/// Replays one game's movetext, one token at a time.
pub struct Replay {
    /// FEN of the rules engine's board, on which tokens are resolved.
    pub fen: String,
    /// The position after the plies played so far.
    pub position: Position,
    /// One record per ply played.
    pub records: Vec<MoveRecord>,
    /// How many move tokens could not be resolved.
    pub unresolved: usize,
    /// A result marker has been seen: later tokens are ignored.
    pub finished: bool,
}

/// The side that moves at ply `i` (counting from 0).
pub open spec fn side_at(i: int) -> Side {
    if i % 2 == 0 { Side::White } else { Side::Black }
}

/// Tokens that are passed over: move numbers such as `12.` or `12...` (they
/// hold a '.') and numeric annotations such as `$1` (they start with '$').
pub open spec fn is_move_number_or_annotation(token: Seq<char>) -> bool {
    (exists|i: int| 0 <= i < token.len() && token[i] == '.') || (token.len() > 0 && token[0] == '$')
}

/// The `chess` crate numbers piece kinds Pawn, Knight, Bishop, Rook, Queen, King.
pub open spec fn kind_of_chess_index(i: int) -> PieceKind {
    if i == 0 {
        PieceKind::Pawn
    } else if i == 1 {
        PieceKind::Knight
    } else if i == 2 {
        PieceKind::Bishop
    } else if i == 3 {
        PieceKind::Rook
    } else if i == 4 {
        PieceKind::Queen
    } else {
        PieceKind::King
    }
}

fn kind_from_chess_index(i: usize) -> (r: PieceKind)
    ensures
        r == kind_of_chess_index(i as int),
{
    if i == 0 {
        PieceKind::Pawn
    } else if i == 1 {
        PieceKind::Knight
    } else if i == 2 {
        PieceKind::Bishop
    } else if i == 3 {
        PieceKind::Rook
    } else if i == 4 {
        PieceKind::Queen
    } else {
        PieceKind::King
    }
}

fn skips_token(token: &str) -> (r: bool)
    ensures
        r == is_move_number_or_annotation(token@),
{
    let n = token.unicode_len();
    if n > 0 && token.get_char(0) == '$' {
        return true;
    }
    let mut i: usize = 0;
    while i < n
        invariant
            n == token@.len(),
            i <= n,
            forall|j: int| 0 <= j < i ==> token@[j] != '.',
        decreases n - i,
    {
        if token.get_char(i) == '.' {
            return true;
        }
        i = i + 1;
    }
    false
}

/// Check, mate and judgement marks that may trail a move token.
pub open spec fn is_trailing_mark(c: char) -> bool {
    c == '+' || c == '#' || c == '!' || c == '?'
}

/// `s` without its trailing marks.
pub open spec fn without_marks(s: Seq<char>) -> Seq<char>
    decreases s.len(),
{
    if s.len() > 0 && is_trailing_mark(s.last()) {
        without_marks(s.drop_last())
    } else {
        s
    }
}

/// The form of a move token that the rules engine matches: trailing marks
/// removed, and the first `=` (which introduces a promotion piece) removed.
pub open spec fn matchable(token: Seq<char>) -> Seq<char> {
    let t = without_marks(token);
    let p = first_from(t, '=', 0);
    if p < t.len() { t.take(p) + t.skip(p + 1) } else { t }
}

/// The form of `token` that the rules engine matches, as `matchable` says.
pub fn matchable_form(token: &str) -> (r: String)
    ensures
        r@ == matchable(token@),
{
    let n = token.unicode_len();
    let mut end = n;
    assert(token@.take(n as int) =~= token@);
    while end > 0
        invariant
            n == token@.len(),
            end <= n,
            without_marks(token@.take(end as int)) == without_marks(token@),
        ensures
            end <= n,
            without_marks(token@.take(end as int)) == without_marks(token@),
            end == 0 || !is_trailing_mark(token@.take(end as int).last()),
        decreases end,
    {
        let c = token.get_char(end - 1);
        if !(c == '+' || c == '#' || c == '!' || c == '?') {
            assert(token@.take(end as int).last() == c);
            break;
        }
        assert(token@.take(end as int).drop_last() =~= token@.take(end - 1));
        end = end - 1;
    }
    assert(without_marks(token@.take(end as int)) == token@.take(end as int));
    let t = token.substring_char(0, end);
    assert(t@ == without_marks(token@));
    let mut p: usize = 0;
    while p < end
        invariant
            t@.len() == end,
            t@ == without_marks(token@),
            p <= end,
            forall|j: int| 0 <= j < p ==> t@[j] != '=',
            first_from(t@, '=', 0) == first_from(t@, '=', p as int),
        decreases end - p,
    {
        if t.get_char(p) == '=' {
            let mut r = String::from_str(t.substring_char(0, p));
            r.append(t.substring_char(p + 1, end));
            assert(r@ =~= t@.take(p as int) + t@.skip(p + 1));
            assert(first_from(t@, '=', 0) == p);
            return r;
        }
        p = p + 1;
    }
    String::from_str(t)
}

/// A matchable token that writes a pawn capture (`exd6`): only such a token is
/// tried once more as an en passant capture.
pub open spec fn is_pawn_capture(f: Seq<char>) -> bool {
    f.len() >= 2 && 'a' <= f[0] && f[0] <= 'h' && f[1] == 'x'
}

/// The move that the engine's answer names.
pub open spec fn as_move(x: (u8, u8, Option<usize>)) -> MoveSpec {
    MoveSpec {
        from: x.0,
        to: x.1,
        promotion: match x.2 {
            Some(p) => Some(kind_of_chess_index(p as int)),
            None => None,
        },
    }
}

/// What the rules engine makes of `form` on `fen`: the move and the FEN after it.
pub open spec fn engine_try(fen: Seq<char>, form: Seq<char>) -> Option<(MoveSpec, Seq<char>)> {
    match san_move_of(fen, form) {
        Some(x) => Some((as_move(x), fen_after(fen, form))),
        None => None,
    }
}

/// The engine's answer to a move token on `fen`: its `matchable` form, and
/// where that finds nothing and it writes a pawn capture, the same form marked
/// as an en passant capture.
pub open spec fn engine_answer(fen: Seq<char>, token: Seq<char>) -> Option<(MoveSpec, Seq<char>)> {
    let f = matchable(token);
    if engine_try(fen, f) is Some {
        engine_try(fen, f)
    } else if is_pawn_capture(f) {
        engine_try(fen, f + " e.p."@)
    } else {
        None
    }
}

/// What the replay decides with: the squares, the side to move, the engine's
/// FEN, each ply's token, move and FEN after it, the count of unresolved
/// tokens, and whether a result marker ended the movetext.
pub struct ReplayView {
    pub cells: Seq<Option<Placed>>,
    pub to_move: Side,
    pub fen: Seq<char>,
    pub plays: Seq<(Seq<char>, MoveSpec, Seq<char>)>,
    pub unresolved: int,
    pub finished: bool,
}

/// The replay at the start of a game.
pub open spec fn start_view() -> ReplayView {
    ReplayView {
        cells: initial_cells(),
        to_move: Side::White,
        fen: START_FEN@,
        plays: seq![],
        unresolved: 0,
        finished: false,
    }
}

/// The position accepts `m`, and the engine's FEN after it holds exactly the
/// squares that playing `m` gives.
pub open spec fn confirmed(v: ReplayView, m: MoveSpec, fen: Seq<char>) -> bool {
    can_apply(v.cells, v.to_move, m) && fen_cells(fen) == Some(applied_cells(v.cells, m))
}

/// One move token settled with the engine's answer, if any: a move that is
/// `confirmed` is played and recorded with the FEN after it, anything else
/// counts as unresolved.
pub open spec fn step(v: ReplayView, token: Seq<char>, outcome: Option<(MoveSpec, Seq<char>)>) -> ReplayView {
    match outcome {
        Some((m, fen)) => if confirmed(v, m, fen) {
            ReplayView {
                cells: applied_cells(v.cells, m),
                to_move: opponent(v.to_move),
                fen: fen,
                plays: v.plays.push((token, m, fen)),
                ..v
            }
        } else {
            ReplayView { unresolved: v.unresolved + 1, ..v }
        },
        None => ReplayView { unresolved: v.unresolved + 1, ..v },
    }
}

/// The engine answers `token` with a move that is `confirmed`.
pub open spec fn resolves(v: ReplayView, token: Seq<char>) -> bool {
    engine_answer(v.fen, token) matches Some((m, f)) && confirmed(v, m, f)
}

/// One token of movetext: nothing after a result marker; a result marker
/// ends the movetext; move numbers and annotations are passed over; a move
/// token is settled with the engine's answer on the current FEN.
pub open spec fn feed_step(v: ReplayView, token: Seq<char>) -> ReplayView {
    if v.finished {
        v
    } else if GameOutcome::is_result_marker_spec(token) {
        ReplayView { finished: true, ..v }
    } else if is_move_number_or_annotation(token) {
        v
    } else {
        step(v, token, engine_answer(v.fen, token))
    }
}

/// The tokens fed in order.
pub open spec fn run_tokens(v: ReplayView, tokens: Seq<Seq<char>>) -> ReplayView
    decreases tokens.len(),
{
    if tokens.len() == 0 {
        v
    } else {
        feed_step(run_tokens(v, tokens.drop_last()), tokens.last())
    }
}

/// `v` with one more unresolved token.
pub open spec fn one_more_unresolved(v: ReplayView) -> ReplayView {
    ReplayView { unresolved: v.unresolved + 1, ..v }
}

proof fn lemma_count_is_inert(v: ReplayView, tokens: Seq<Seq<char>>)
    ensures
        run_tokens(one_more_unresolved(v), tokens) == one_more_unresolved(run_tokens(v, tokens)),
    decreases tokens.len(),
{
    if tokens.len() > 0 {
        lemma_count_is_inert(v, tokens.drop_last());
    }
}

/// A move token that the engine cannot resolve, amid other tokens, leaves the
/// plies, the position and the engine's FEN exactly as if the token were
/// absent, and adds one to the count of unresolved tokens.
pub proof fn lemma_unresolved_is_omitted(
    v: ReplayView,
    before: Seq<Seq<char>>,
    bad: Seq<char>,
    after: Seq<Seq<char>>,
)
    requires
        !run_tokens(v, before).finished,
        !GameOutcome::is_result_marker_spec(bad),
        !is_move_number_or_annotation(bad),
        !resolves(run_tokens(v, before), bad),
    ensures
        run_tokens(v, before + seq![bad] + after) == one_more_unresolved(run_tokens(v, before + after)),
    decreases after.len(),
{
    if after.len() == 0 {
        assert((before + seq![bad] + after).drop_last() =~= before);
        assert(before + after =~= before);
    } else {
        lemma_unresolved_is_omitted(v, before, bad, after.drop_last());
        assert((before + seq![bad] + after).drop_last() =~= before + seq![bad] + after.drop_last());
        assert((before + after).drop_last() =~= before + after.drop_last());
        let w = run_tokens(v, before + after.drop_last());
        assert(feed_step(one_more_unresolved(w), after.last()) == one_more_unresolved(feed_step(w, after.last())));
    }
}

impl MoveRecord {
    /// This is the record of ply `index`, made by `side` with token `san`,
    /// playing `mv` on the squares `before`.
    pub open spec fn describes(
        &self,
        index: int,
        side: Side,
        san: Seq<char>,
        mv: MoveSpec,
        before: Seq<Option<Placed>>,
    ) -> bool {
        &&& self.index == index
        &&& self.side == side
        &&& self.san@ == san
        &&& self.mv == mv
        &&& self.piece == before[mv.from as int].unwrap().kind
        &&& self.capture == is_capture(before, mv)
        &&& self.castling == is_castling(before, mv)
    }
}

fn is_pawn_capture_exec(f: &str) -> (r: bool)
    ensures
        r == is_pawn_capture(f@),
{
    if f.unicode_len() < 2 {
        return false;
    }
    let c = f.get_char(0);
    'a' <= c && c <= 'h' && f.get_char(1) == 'x'
}

fn as_move_exec(x: (u8, u8, Option<usize>)) -> (r: MoveSpec)
    ensures
        r == as_move(x),
{
    let promotion = match x.2 {
        Some(p) => Some(kind_from_chess_index(p)),
        None => None,
    };
    MoveSpec { from: x.0, to: x.1, promotion }
}

/// The engine's answer as plain values.
pub open spec fn answer_view(a: Option<(MoveSpec, String)>) -> Option<(MoveSpec, Seq<char>)> {
    match a {
        Some((m, f)) => Some((m, f@)),
        None => None,
    }
}

impl Replay {
    /// What the replay decides with (see `step`).
    pub open spec fn view(&self) -> ReplayView {
        ReplayView {
            cells: self.position.cells@,
            to_move: self.position.to_move,
            fen: self.fen@,
            plays: self.records@.map_values(|r: MoveRecord| (r.san@, r.mv, r.fen@)),
            unresolved: self.unresolved as int,
            finished: self.finished,
        }
    }

    /// The position is well formed, the FEN is the engine's, plies are numbered
    /// 1, 2, ... and sides alternate from White, and the side to move is the
    /// one whose turn is next.
    pub open spec fn wf(&self) -> bool {
        &&& self.position.wf()
        &&& engine_fen(self.fen@)
        &&& self.records@.len() > 0 ==> fen_cells(self.fen@) == Some(self.position.cells@)
        &&& forall|i: int| 0 <= i < self.records@.len() ==> #[trigger] self.records@[i].index == i + 1
        &&& forall|i: int| 0 <= i < self.records@.len() ==> #[trigger] self.records@[i].side == side_at(i)
        &&& self.position.to_move == side_at(self.records@.len() as int)
    }

    /// A game at its start.
    pub fn new() -> (r: Replay)
        ensures
            r.wf(),
            r.view() == start_view(),
            r.records@.len() == 0,
            r.unresolved == 0,
    {
        let r = Replay {
            fen: String::from_str(START_FEN),
            position: Position::initial(),
            records: Vec::new(),
            unresolved: 0,
            finished: false,
        };
        assert(r.view().plays =~= start_view().plays);
        r
    }

    /// Settles a move token with the engine's answer `resolved` (see `step`):
    /// a move that the position accepts, and whose resulting squares the
    /// engine's FEN confirms, is played and recorded under the next index with
    /// that FEN; anything else counts as unresolved and changes nothing else.
    pub fn settle(&mut self, token: &str, resolved: Option<(MoveSpec, String)>)
        requires
            old(self).wf(),
            old(self).records@.len() < usize::MAX,
            old(self).unresolved < usize::MAX,
            resolved matches Some((_, f)) ==> engine_fen(f@),
        ensures
            final(self).wf(),
            final(self).view() == step(old(self).view(), token@, answer_view(resolved)),
            final(self).records@.len() >= old(self).records@.len(),
            final(self).records@.take(old(self).records@.len() as int) == old(self).records@,
            final(self).records@.len() > old(self).records@.len() ==> final(self).records@.last().describes(
                old(self).records@.len() + 1int,
                old(self).position.to_move,
                token@,
                final(self).records@.last().mv,
                old(self).position.cells@,
            ),
    {
        match resolved {
            Some((m, fen)) => {
                let agrees = if self.position.accepts(m) {
                    let next = self.position.apply(m);
                    match read_fen_cells(fen.as_str()) {
                        Some(cells) => same_cells(&cells, &next.cells),
                        None => false,
                    }
                } else {
                    false
                };
                if agrees {
                    let side = self.position.to_move;
                    let index = self.records.len() + 1;
                    let (piece, capture, castling) = self.position.move_facts(m);
                    self.position = self.position.apply(m);
                    let record_fen = fen.clone();
                    self.fen = fen;
                    self.records.push(MoveRecord {
                        index,
                        side,
                        san: token.to_owned(),
                        mv: m,
                        piece,
                        capture,
                        castling,
                        fen: record_fen,
                    });
                    assert(self.records@.take(old(self).records@.len() as int) =~= old(self).records@);
                    assert(self.view().plays =~= old(self).view().plays.push((token@, m, self.fen@)));
                } else {
                    self.unresolved = self.unresolved + 1;
                }
            },
            None => {
                self.unresolved = self.unresolved + 1;
            },
        }
    }

    /// Asks the engine for its answer to a move token on the current FEN.
    fn ask_engine(&self, token: &str) -> (r: Option<(MoveSpec, String)>)
        requires
            self.wf(),
        ensures
            answer_view(r) == engine_answer(self.fen@, token@),
            r matches Some((_, f)) ==> engine_fen(f@),
    {
        let form = matchable_form(token);
        let mut found = resolve_on_fen(self.fen.as_str(), form.as_str());
        let ghost used = form@;
        if found.is_none() && is_pawn_capture_exec(form.as_str()) {
            // The rules engine takes a capture onto an empty square only when
            // the token says " e.p."; for a pawn capture nothing else changes.
            let mut en_passant = form.clone();
            en_passant.append(" e.p.");
            proof { used = en_passant@; }
            found = resolve_on_fen(self.fen.as_str(), en_passant.as_str());
        }
        match found {
            Some(x) => {
                proof {
                    let f = x.3@;
                    assert(fen_after(self.fen@, used) == f && san_move_of(self.fen@, used) is Some);
                }
                Some((as_move_exec((x.0, x.1, x.2)), x.3))
            },
            None => None,
        }
    }

    /// Consumes one token of movetext, as `feed_step` says: after a result
    /// marker nothing changes; a result marker ends the movetext; move numbers
    /// and numeric annotations are passed over; a move token is settled with
    /// the engine's answer on the current FEN.
    pub fn feed(&mut self, token: &str)
        requires
            old(self).wf(),
            old(self).records@.len() < usize::MAX,
            old(self).unresolved < usize::MAX,
        ensures
            final(self).wf(),
            final(self).view() == feed_step(old(self).view(), token@),
            final(self).records@.len() >= old(self).records@.len(),
            final(self).records@.take(old(self).records@.len() as int) == old(self).records@,
            final(self).records@.len() + final(self).unresolved <= old(self).records@.len() + old(self).unresolved + 1,
    {
        if self.finished {
            assert(self.records@.take(self.records@.len() as int) =~= self.records@);
            return;
        }
        if is_result_marker(token) {
            self.finished = true;
            assert(self.records@.take(self.records@.len() as int) =~= self.records@);
            return;
        }
        if skips_token(token) {
            assert(self.records@.take(self.records@.len() as int) =~= self.records@);
            return;
        }
        let resolved = self.ask_engine(token);
        self.settle(token, resolved);
    }
}

} // verus!
