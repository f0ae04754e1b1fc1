use vstd::prelude::*;
use vstd::string::*;
use crate::replay::{Replay, ReplayView, run_tokens, start_view};
use crate::position::MoveSpec;
use crate::scan::{movetext_tokens, token_ranges};
use crate::tags::{header_tags, find_tag, lookup, pairs_view, header_of};
use crate::number::{parse_i32, i32_of};
use crate::outcome::{normalize_result, outcome_of, outcome_words};

verus! {

/// The rating a game record holds where a player's Elo is missing or unreadable.
pub const DEFAULT_ELO: i32 = 1600;

/// A game as stored for training: its result in words, the moves that were
/// played, both ratings, and the opening, time control and termination tags.
#[derive(Clone, Debug)]
pub struct GameRecord {
    pub result: String,
    pub moves: Vec<String>,
    pub white_elo: i32,
    pub black_elo: i32,
    pub opening: String,
    pub time_control: String,
    pub termination: String,
}

/// The header of a game, each field defaulted where its tag is missing.
#[derive(Clone, Debug)]
pub struct GameMetadata {
    pub event: String,
    pub site: String,
    pub date: String,
    pub round: String,
    pub white_player: String,
    pub black_player: String,
    pub result: String,
    pub white_elo: Option<i32>,
    pub black_elo: Option<i32>,
    pub eco: String,
    pub opening: String,
    pub time_control: String,
    pub termination: String,
}

/// The value of tag `key`, or `default` where it is missing.
pub open spec fn tag_or(tags: Seq<(Seq<char>, Seq<char>)>, key: Seq<char>, default: Seq<char>) -> Seq<char> {
    match lookup(tags, key) {
        Some(v) => v,
        None => default,
    }
}

/// The rating in tag `key`, if present and a decimal `i32`.
pub open spec fn elo_tag(tags: Seq<(Seq<char>, Seq<char>)>, key: Seq<char>) -> Option<i32> {
    match lookup(tags, key) {
        Some(v) => i32_of(v),
        None => None,
    }
}

/// The rating in tag `key`, or `default` where it is missing or unreadable.
pub open spec fn elo_or(tags: Seq<(Seq<char>, Seq<char>)>, key: Seq<char>, default: i32) -> i32 {
    match elo_tag(tags, key) {
        Some(v) => v,
        None => default,
    }
}

pub open spec fn texts_view(v: Seq<String>) -> Seq<Seq<char>> {
    v.map_values(|s: String| s@)
}

/// The movetext tokens of a game text.
pub open spec fn movetext_of(s: Seq<char>) -> Seq<Seq<char>> {
    token_ranges(s).map_values(|p: (int, int)| s.subrange(p.0, p.1))
}

/// The replay of the movetext of game text `s` from the starting position.
pub open spec fn replay_of(s: Seq<char>) -> ReplayView {
    run_tokens(start_view(), movetext_of(s))
}

/// The tokens of the plies that the movetext of `s` plays, in order.
pub open spec fn played_tokens(s: Seq<char>) -> Seq<Seq<char>> {
    replay_of(s).plays.map_values(|p: (Seq<char>, MoveSpec, Seq<char>)| p.0)
}

/// Replays `tokens` from the starting position, one `Replay::feed` each.
pub fn replay_tokens(tokens: &Vec<String>) -> (r: Replay)
    ensures
        r.wf(),
        r.view() == run_tokens(start_view(), texts_view(tokens@)),
        r.records@.len() + r.unresolved <= tokens@.len(),
{
    let mut replay = Replay::new();
    let ghost ts = texts_view(tokens@);
    let mut i: usize = 0;
    while i < tokens.len()
        invariant
            i <= tokens@.len(),
            ts == texts_view(tokens@),
            replay.wf(),
            replay.records@.len() + replay.unresolved <= i,
            replay.view() == run_tokens(start_view(), ts.take(i as int)),
        decreases tokens@.len() - i,
    {
        assert(ts.take(i + 1).drop_last() =~= ts.take(i as int));
        assert(ts.take(i + 1).last() == tokens@[i as int]@);
        replay.feed(tokens[i].as_str());
        i = i + 1;
    }
    assert(ts.take(tokens@.len() as int) =~= ts);
    replay
}

pub(crate) fn value_or(tags: &Vec<(String, String)>, key: &str, default: &str) -> (r: String)
    ensures
        r@ == tag_or(pairs_view(tags@), key@, default@),
{
    match find_tag(tags, key) {
        Some(v) => v,
        None => String::from_str(default),
    }
}

pub(crate) fn elo_of(tags: &Vec<(String, String)>, key: &str) -> (r: Option<i32>)
    ensures
        r == elo_tag(pairs_view(tags@), key@),
{
    match find_tag(tags, key) {
        Some(v) => parse_i32(v.as_str()),
        None => None,
    }
}

/// `g` is the record of game text `s`, with `default_elo` for ratings that are
/// missing or unreadable.
pub open spec fn records_game(g: GameRecord, s: Seq<char>, default_elo: i32) -> bool {
    let h = header_of(s);
    &&& g.result@ == outcome_words(outcome_of(tag_or(h, "Result"@, ""@)))
    &&& g.white_elo == elo_or(h, "WhiteElo"@, default_elo)
    &&& g.black_elo == elo_or(h, "BlackElo"@, default_elo)
    &&& g.opening@ == tag_or(h, "Opening"@, ""@)
    &&& g.time_control@ == tag_or(h, "TimeControl"@, ""@)
    &&& g.termination@ == tag_or(h, "Termination"@, ""@)
    &&& texts_view(g.moves@) == played_tokens(s)
}

/// Reads a game text: the header's tag pairs (the last of each key counts),
/// and the movetext replayed from the starting position. The result is
/// described in words, ratings that are missing or unreadable are
/// `default_elo`, and missing opening, time control or termination tags are
/// empty. A move token that does not resolve is left out.
pub fn game_record_with_default_elo(pgn: &str, default_elo: i32) -> (g: GameRecord)
    ensures
        records_game(g, pgn@, default_elo),
{
    let tags = header_tags(pgn);
    let result_tag = value_or(&tags, "Result", "");
    let result = normalize_result(result_tag.as_str()).describe();
    let white_elo = match elo_of(&tags, "WhiteElo") {
        Some(v) => v,
        None => default_elo,
    };
    let black_elo = match elo_of(&tags, "BlackElo") {
        Some(v) => v,
        None => default_elo,
    };
    let opening = value_or(&tags, "Opening", "");
    let time_control = value_or(&tags, "TimeControl", "");
    let termination = value_or(&tags, "Termination", "");
    let moves = moves_of(pgn);
    GameRecord { result, moves, white_elo, black_elo, opening, time_control, termination }
}

/// The record of a game text, with `DEFAULT_ELO` for ratings that are missing
/// or unreadable (see `game_record_with_default_elo`). This never fails.
pub fn parse_pgn_to_game_record(pgn: &str) -> (r: Option<GameRecord>)
    ensures
        r matches Some(g) && records_game(g, pgn@, DEFAULT_ELO),
{
    Some(game_record_with_default_elo(pgn, DEFAULT_ELO))
}

/// The tokens of the plies that the movetext of `pgn` plays, in order.
pub fn moves_of(pgn: &str) -> (r: Vec<String>)
    ensures
        texts_view(r@) == played_tokens(pgn@),
{
    let tokens = movetext_tokens(pgn);
    assert(texts_view(tokens@) =~= movetext_of(pgn@));
    let replay = replay_tokens(&tokens);
    let ghost plays = replay.view().plays;
    let mut out: Vec<String> = Vec::new();
    let mut k: usize = 0;
    while k < replay.records.len()
        invariant
            k <= replay.records@.len(),
            plays == replay.view().plays,
            out@.len() == k,
            forall|j: int| 0 <= j < k ==> #[trigger] out@[j]@ == plays[j].0,
        decreases replay.records@.len() - k,
    {
        let san = replay.records[k].san.clone();
        out.push(san);
        k = k + 1;
    }
    assert(texts_view(out@) =~= played_tokens(pgn@));
    out
}

} // verus!
