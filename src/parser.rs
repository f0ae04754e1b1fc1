use vstd::prelude::*;
use crate::replay::{MoveRecord, side_at};
use crate::record::{GameMetadata, replay_tokens, tag_or, elo_tag, value_or, elo_of, texts_view, movetext_of, replay_of};
use crate::scan::{movetext_tokens, split_games, game_ranges};
use crate::tags::{header_tags, header_of};

verus! {

/// Reads games written as tag pairs followed by movetext.
pub struct PgnParser;

/// `m` is the header of game text `s`, each field defaulted as
/// `PgnParser::extract_game_record` says.
pub open spec fn describes_header(m: GameMetadata, s: Seq<char>) -> bool {
    let h = header_of(s);
    &&& m.event@ == tag_or(h, "Event"@, "Unknown Event"@)
    &&& m.site@ == tag_or(h, "Site"@, "Unknown Site"@)
    &&& m.date@ == tag_or(h, "Date"@, "????.??.??"@)
    &&& m.round@ == tag_or(h, "Round"@, "-"@)
    &&& m.white_player@ == tag_or(h, "White"@, "Unknown Player"@)
    &&& m.black_player@ == tag_or(h, "Black"@, "Unknown Player"@)
    &&& m.result@ == tag_or(h, "Result"@, "*"@)
    &&& m.white_elo == elo_tag(h, "WhiteElo"@)
    &&& m.black_elo == elo_tag(h, "BlackElo"@)
    &&& m.eco@ == tag_or(h, "ECO"@, "Unknown ECO"@)
    &&& m.opening@ == tag_or(h, "Opening"@, "-"@)
    &&& m.time_control@ == tag_or(h, "TimeControl"@, "-"@)
    &&& m.termination@ == tag_or(h, "Termination"@, "-"@)
}

/// `moves` are the plies that the movetext of game text `s` plays from the
/// starting position: numbered 1, 2, ..., White and Black in turn, each with
/// its token, the engine's move and the FEN after it, as `replay_of` gives them.
pub open spec fn plays_movetext(moves: Seq<MoveRecord>, s: Seq<char>) -> bool {
    &&& forall|i: int| 0 <= i < moves.len() ==> #[trigger] moves[i].index == i + 1
    &&& forall|i: int| 0 <= i < moves.len() ==> #[trigger] moves[i].side == side_at(i)
    &&& moves.map_values(|r: MoveRecord| (r.san@, r.mv, r.fen@)) == replay_of(s).plays
}

impl PgnParser {
    /// The header of a game text. Each field holds its tag's value (the last
    /// tag of a key counts), or where the tag is missing: "Unknown Event",
    /// "Unknown Site", "????.??.??", "-" for the round, "Unknown Player" for
    /// either player, "*" for the result, "Unknown ECO", "-" for the opening,
    /// the time control and the termination. A rating is `None` where its tag
    /// is missing or not a decimal `i32`. This never fails.
    pub fn extract_game_record(text: &str) -> (r: Result<GameMetadata, String>)
        ensures
            r matches Ok(m) && describes_header(m, text@),
    {
        let tags = header_tags(text);
        Ok(GameMetadata {
            event: value_or(&tags, "Event", "Unknown Event"),
            site: value_or(&tags, "Site", "Unknown Site"),
            date: value_or(&tags, "Date", "????.??.??"),
            round: value_or(&tags, "Round", "-"),
            white_player: value_or(&tags, "White", "Unknown Player"),
            black_player: value_or(&tags, "Black", "Unknown Player"),
            result: value_or(&tags, "Result", "*"),
            white_elo: elo_of(&tags, "WhiteElo"),
            black_elo: elo_of(&tags, "BlackElo"),
            eco: value_or(&tags, "ECO", "Unknown ECO"),
            opening: value_or(&tags, "Opening", "-"),
            time_control: value_or(&tags, "TimeControl", "-"),
            termination: value_or(&tags, "Termination", "-"),
        })
    }

    /// The plies that the movetext of a game text plays from the starting
    /// position: numbered 1, 2, ..., White and Black in turn, each the record of
    /// a token of the movetext, in order. Unresolvable tokens are left out and
    /// play stops at a result marker. This never fails.
    pub fn extract_moves_record(text: &str) -> (r: Result<Vec<MoveRecord>, String>)
        ensures
            r matches Ok(moves) && plays_movetext(moves@, text@),
    {
        let tokens = movetext_tokens(text);
        assert(texts_view(tokens@) =~= movetext_of(text@));
        let replay = replay_tokens(&tokens);
        Ok(replay.records)
    }

    /// Every game of a text that holds many (see `split_games`), each as its
    /// header and its plies. This never fails.
    pub fn parse_pgn_text(content: &str) -> (r: Result<Vec<(GameMetadata, Vec<MoveRecord>)>, String>)
        ensures
            r matches Ok(games) && {
                &&& games@.len() == game_ranges(content@).len()
                &&& forall|k: int| 0 <= k < games@.len() ==> {
                    let g = content@.subrange(game_ranges(content@)[k].0, game_ranges(content@)[k].1);
                    &&& describes_header(#[trigger] games@[k].0, g)
                    &&& plays_movetext(games@[k].1@, g)
                }
            },
    {
        let texts = split_games(content);
        let mut games: Vec<(GameMetadata, Vec<MoveRecord>)> = Vec::new();
        let mut k: usize = 0;
        while k < texts.len()
            invariant
                k <= texts@.len(),
                games@.len() == k,
                texts@.len() == game_ranges(content@).len(),
                forall|j: int| 0 <= j < texts@.len() ==> #[trigger] texts@[j]@ == content@.subrange(
                    game_ranges(content@)[j].0,
                    game_ranges(content@)[j].1,
                ),
                forall|j: int| 0 <= j < k ==> {
                    &&& describes_header(#[trigger] games@[j].0, texts@[j]@)
                    &&& plays_movetext(games@[j].1@, texts@[j]@)
                },
            decreases texts@.len() - k,
        {
            let text = texts[k].as_str();
            let header = match Self::extract_game_record(text) {
                Ok(m) => m,
                Err(e) => return Err(e),
            };
            let moves = match Self::extract_moves_record(text) {
                Ok(m) => m,
                Err(e) => return Err(e),
            };
            games.push((header, moves));
            k = k + 1;
        }
        Ok(games)
    }
}

} // verus!
