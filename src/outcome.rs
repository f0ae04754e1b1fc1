use vstd::prelude::*;
use vstd::string::*;

verus! {

/// How a game ended, as read from its result token.
#[derive(Clone, Copy, Debug, PartialEq, Eq, Structural)]
pub enum GameOutcome {
    WhiteWin,
    BlackWin,
    Draw,
    Unknown,
}

/// Whether two texts hold the same characters.
pub fn same_text(a: &str, b: &str) -> (r: bool)
    ensures
        r == (a@ == b@),
{
    let n = a.unicode_len();
    if n != b.unicode_len() {
        return false;
    }
    let mut i: usize = 0;
    while i < n
        invariant
            n == a@.len(),
            n == b@.len(),
            i <= n,
            forall|j: int| 0 <= j < i ==> a@[j] == b@[j],
        decreases n - i,
    {
        if a.get_char(i) != b.get_char(i) {
            return false;
        }
        i = i + 1;
    }
    assert(a@ =~= b@);
    true
}

/// The outcome that a result token names.
pub open spec fn outcome_of(token: Seq<char>) -> GameOutcome {
    if token == "1-0"@ {
        GameOutcome::WhiteWin
    } else if token == "0-1"@ {
        GameOutcome::BlackWin
    } else if token == "1/2-1/2"@ {
        GameOutcome::Draw
    } else {
        GameOutcome::Unknown
    }
}

/// `"1-0"` is a White win, `"0-1"` a Black win, `"1/2-1/2"` a draw, anything
/// else is unknown.
pub fn normalize_result(token: &str) -> (r: GameOutcome)
    ensures
        r == outcome_of(token@),
{
    if same_text(token, "1-0") {
        GameOutcome::WhiteWin
    } else if same_text(token, "0-1") {
        GameOutcome::BlackWin
    } else if same_text(token, "1/2-1/2") {
        GameOutcome::Draw
    } else {
        GameOutcome::Unknown
    }
}

/// The training label of a result token.
pub open spec fn label_of(token: Seq<char>) -> u8 {
    if token == "1-0"@ {
        1
    } else if token == "0-1"@ {
        0
    } else {
        2
    }
}

/// 1 for a White win, 0 for a Black win, 2 for anything else.
pub fn result_to_label(result: &str) -> (r: u8)
    ensures
        r == label_of(result@),
{
    if same_text(result, "1-0") {
        1
    } else if same_text(result, "0-1") {
        0
    } else {
        2
    }
}

/// The words a game record stores for an outcome.
pub open spec fn outcome_words(o: GameOutcome) -> Seq<char> {
    match o {
        GameOutcome::WhiteWin => "White wins"@,
        GameOutcome::BlackWin => "Black wins"@,
        GameOutcome::Draw => "Draw"@,
        GameOutcome::Unknown => "Unknown"@,
    }
}

impl GameOutcome {
    /// The words for this outcome: "White wins", "Black wins", "Draw" or "Unknown".
    pub fn describe(self) -> (r: String)
        ensures
            r@ == outcome_words(self),
    {
        match self {
            GameOutcome::WhiteWin => String::from_str("White wins"),
            GameOutcome::BlackWin => String::from_str("Black wins"),
            GameOutcome::Draw => String::from_str("Draw"),
            GameOutcome::Unknown => String::from_str("Unknown"),
        }
    }

    /// Whether `token` ends the movetext: a result or `*`.
    pub open spec fn is_result_marker_spec(token: Seq<char>) -> bool {
        token == "1-0"@ || token == "0-1"@ || token == "1/2-1/2"@ || token == "*"@
    }
}

/// Whether `token` is one of the result markers that end a movetext.
pub fn is_result_marker(token: &str) -> (r: bool)
    ensures
        r == GameOutcome::is_result_marker_spec(token@),
{
    same_text(token, "1-0") || same_text(token, "0-1") || same_text(token, "1/2-1/2") || same_text(token, "*")
}

/// The outcome of a result token is total: every token names exactly one outcome,
/// and the three standard tokens name the three decided outcomes.
pub proof fn lemma_outcome_total(token: Seq<char>)
    ensures
        outcome_of("1-0"@) == GameOutcome::WhiteWin,
        outcome_of("0-1"@) == GameOutcome::BlackWin,
        outcome_of("1/2-1/2"@) == GameOutcome::Draw,
        token != "1-0"@ && token != "0-1"@ && token != "1/2-1/2"@ ==> outcome_of(token) == GameOutcome::Unknown,
{
    reveal_strlit("1-0");
    reveal_strlit("0-1");
    reveal_strlit("1/2-1/2");
    assert("0-1"@[0] != "1-0"@[0]);
    assert("1/2-1/2"@.len() != "1-0"@.len());
    assert("1/2-1/2"@.len() != "0-1"@.len());
}

} // verus!
