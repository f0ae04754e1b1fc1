use vstd::prelude::*;
use vstd::string::*;
use crate::outcome::same_text;

verus! {

/// Where a scan over movetext stands after some prefix of it.
pub struct ScanState {
    /// Closed move tokens, as character ranges [start, end).
    pub tokens: Seq<(int, int)>,
    /// Closed tag pairs, as the ranges strictly inside `[` and `]`.
    pub tags: Seq<(int, int)>,
    /// Start of a token still being read.
    pub open: Option<int>,
    /// 0 in movetext, 1 inside a `{...}` comment, 2 inside a `[...]` tag pair.
    pub mode: int,
    /// Start of the tag pair being read.
    pub tag_start: int,
}

pub open spec fn is_space(c: char) -> bool {
    c == ' ' || c == '\t' || c == '\n' || c == '\r'
}

/// `tokens` with the token that starts at `open` (if any) closed at `end`.
pub open spec fn close(tokens: Seq<(int, int)>, open: Option<int>, end: int) -> Seq<(int, int)> {
    match open {
        Some(a) => tokens.push((a, end)),
        None => tokens,
    }
}

/// The scan of `s`, one character at a time: whitespace separates tokens,
/// `{` opens a comment that `}` closes, `[` opens a tag pair that `]` closes,
/// and neither comments nor tag pairs are part of any token.
pub open spec fn scan(s: Seq<char>) -> ScanState
    decreases s.len(),
{
    if s.len() == 0 {
        ScanState { tokens: seq![], tags: seq![], open: None, mode: 0, tag_start: 0 }
    } else {
        let st = scan(s.drop_last());
        let i = s.len() - 1;
        let c = s[i];
        if st.mode == 1 {
            if c == '}' { ScanState { mode: 0, ..st } } else { st }
        } else if st.mode == 2 {
            if c == ']' { ScanState { tags: st.tags.push((st.tag_start, i)), mode: 0, ..st } } else { st }
        } else if c == '{' {
            ScanState { tokens: close(st.tokens, st.open, i), open: None, mode: 1, ..st }
        } else if c == '[' {
            ScanState { tokens: close(st.tokens, st.open, i), open: None, mode: 2, tag_start: i + 1, ..st }
        } else if is_space(c) {
            ScanState { tokens: close(st.tokens, st.open, i), open: None, ..st }
        } else {
            ScanState { open: if st.open is Some { st.open } else { Some(i) }, ..st }
        }
    }
}

/// The ranges of the movetext tokens of `s`.
pub open spec fn token_ranges(s: Seq<char>) -> Seq<(int, int)> {
    close(scan(s).tokens, scan(s).open, s.len() as int)
}

/// The ranges of the contents of the tag pairs of `s`.
pub open spec fn tag_ranges(s: Seq<char>) -> Seq<(int, int)> {
    scan(s).tags
}

pub open spec fn ranges_view(v: Seq<(usize, usize)>) -> Seq<(int, int)> {
    v.map_values(|p: (usize, usize)| (p.0 as int, p.1 as int))
}

fn close_exec(tokens: &mut Vec<(usize, usize)>, open: Option<usize>, end: usize)
    requires
        open matches Some(a) ==> a <= end,
    ensures
        ranges_view(final(tokens)@) == close(
            ranges_view(old(tokens)@),
            match open { Some(a) => Some(a as int), None => None },
            end as int,
        ),
        forall|k: int| 0 <= k < old(tokens)@.len() ==> #[trigger] final(tokens)@[k] == old(tokens)@[k],
        final(tokens)@.len() == old(tokens)@.len() + if open is Some { 1int } else { 0 },
        open matches Some(a) ==> final(tokens)@.last() == (a, end),
{
    match open {
        Some(a) => {
            tokens.push((a, end));
            assert(ranges_view(tokens@) =~= ranges_view(old(tokens)@).push((a as int, end as int)));
        },
        None => {},
    }
}

/// The movetext token ranges and tag-pair ranges of `text`, as `token_ranges`
/// and `tag_ranges` give them.
pub fn scan_ranges(text: &str) -> (r: (Vec<(usize, usize)>, Vec<(usize, usize)>))
    ensures
        ranges_view(r.0@) == token_ranges(text@),
        ranges_view(r.1@) == tag_ranges(text@),
        forall|k: int| #![trigger r.0@[k]] 0 <= k < r.0@.len() ==> r.0@[k].0 <= r.0@[k].1 <= text@.len(),
        forall|k: int| #![trigger r.1@[k]] 0 <= k < r.1@.len() ==> r.1@[k].0 <= r.1@[k].1 <= text@.len(),
{
    let n = text.unicode_len();
    let ghost s = text@;
    let mut tokens: Vec<(usize, usize)> = Vec::new();
    let mut tags: Vec<(usize, usize)> = Vec::new();
    let mut open: Option<usize> = None;
    let mut mode: u8 = 0;
    let mut tag_start: usize = 0;
    let mut i: usize = 0;
    while i < n
        invariant
            n == s.len(),
            s == text@,
            i <= n,
            mode <= 2,
            tag_start <= i,
            open matches Some(a) ==> a < i,
            forall|k: int| #![trigger tokens@[k]] 0 <= k < tokens@.len() ==> tokens@[k].0 <= tokens@[k].1 <= i,
            forall|k: int| #![trigger tags@[k]] 0 <= k < tags@.len() ==> tags@[k].0 <= tags@[k].1 <= i,
            ranges_view(tokens@) == scan(s.take(i as int)).tokens,
            ranges_view(tags@) == scan(s.take(i as int)).tags,
            (match open { Some(a) => Some(a as int), None => None }) == scan(s.take(i as int)).open,
            mode as int == scan(s.take(i as int)).mode,
            tag_start as int == scan(s.take(i as int)).tag_start,
        decreases n - i,
    {
        let c = text.get_char(i);
        assert(s.take(i + 1).drop_last() =~= s.take(i as int));
        assert(s.take(i + 1)[i as int] == c);
        if mode == 1 {
            if c == '}' {
                mode = 0;
            }
        } else if mode == 2 {
            if c == ']' {
                let ghost before = tags@;
                tags.push((tag_start, i));
                assert(forall|k: int| 0 <= k < before.len() ==> tags@[k] == before[k]);
                assert(tags@[before.len() as int] == (tag_start, i));
                assert(ranges_view(tags@) =~= scan(s.take(i as int)).tags.push((tag_start as int, i as int)));
                mode = 0;
            }
        } else if c == '{' {
            close_exec(&mut tokens, open, i);
            open = None;
            mode = 1;
        } else if c == '[' {
            close_exec(&mut tokens, open, i);
            open = None;
            mode = 2;
            tag_start = i + 1;
        } else if c == ' ' || c == '\t' || c == '\n' || c == '\r' {
            close_exec(&mut tokens, open, i);
            open = None;
        } else if open.is_none() {
            open = Some(i);
        }
        i = i + 1;
    }
    assert(s.take(n as int) =~= s);
    close_exec(&mut tokens, open, n);
    (tokens, tags)
}

/// The texts of `ranges` within `text`.
pub fn texts_of(text: &str, ranges: &Vec<(usize, usize)>) -> (r: Vec<String>)
    requires
        forall|k: int| #![trigger ranges@[k]] 0 <= k < ranges@.len() ==> ranges@[k].0 <= ranges@[k].1 <= text@.len(),
    ensures
        r@.len() == ranges@.len(),
        forall|k: int| 0 <= k < r@.len() ==> #[trigger] r@[k]@ == text@.subrange(
            ranges@[k].0 as int,
            ranges@[k].1 as int,
        ),
{
    let mut out: Vec<String> = Vec::new();
    let mut k: usize = 0;
    while k < ranges.len()
        invariant
            k <= ranges@.len(),
            out@.len() == k,
            forall|k: int| #![trigger ranges@[k]] 0 <= k < ranges@.len() ==> ranges@[k].0 <= ranges@[k].1 <= text@.len(),
            forall|j: int| 0 <= j < k ==> #[trigger] out@[j]@ == text@.subrange(
                ranges@[j].0 as int,
                ranges@[j].1 as int,
            ),
        decreases ranges@.len() - k,
    {
        let (a, b) = ranges[k];
        out.push(String::from_str(text.substring_char(a, b)));
        k = k + 1;
    }
    out
}

/// The movetext tokens of `text`: whitespace-separated words outside comments
/// and tag pairs, in order.
pub fn movetext_tokens(text: &str) -> (r: Vec<String>)
    ensures
        r@.len() == token_ranges(text@).len(),
        forall|k: int| 0 <= k < r@.len() ==> #[trigger] r@[k]@ == text@.subrange(
            token_ranges(text@)[k].0,
            token_ranges(text@)[k].1,
        ),
{
    let (tokens, _tags) = scan_ranges(text);
    let r = texts_of(text, &tokens);
    assert forall|k: int| 0 <= k < r@.len() implies #[trigger] r@[k]@ == text@.subrange(
        token_ranges(text@)[k].0,
        token_ranges(text@)[k].1,
    ) by {
        assert(ranges_view(tokens@)[k] == (tokens@[k].0 as int, tokens@[k].1 as int));
    }
    r
}


/// A game other than the first begins at `p`: a line there starts with `[Event`.
pub open spec fn is_game_start(s: Seq<char>, p: int) -> bool {
    &&& 0 < p
    &&& p + 6 <= s.len()
    &&& s[p - 1] == '\n'
    &&& s.subrange(p, p + 6) == "[Event"@
}

/// The positions below `n` where a game other than the first begins, in order.
pub open spec fn game_starts(s: Seq<char>, n: int) -> Seq<int>
    decreases n,
{
    if n <= 0 {
        seq![]
    } else if is_game_start(s, n - 1) {
        game_starts(s, n - 1).push(n - 1)
    } else {
        game_starts(s, n - 1)
    }
}

/// The games of a text with many: from the start to the first game start, then
/// from each game start to the next, the last to the end of the text.
pub open spec fn game_ranges(s: Seq<char>) -> Seq<(int, int)> {
    let b = seq![0int] + game_starts(s, s.len() as int) + seq![s.len() as int];
    Seq::new((b.len() - 1) as nat, |k: int| (b[k], b[k + 1]))
}

/// The texts of the games in `content`, as `game_ranges` cuts them.
pub fn split_games(content: &str) -> (r: Vec<String>)
    ensures
        r@.len() == game_ranges(content@).len(),
        forall|k: int| 0 <= k < r@.len() ==> #[trigger] r@[k]@ == content@.subrange(
            game_ranges(content@)[k].0,
            game_ranges(content@)[k].1,
        ),
{
    let n = content.unicode_len();
    let ghost s = content@;
    let mut ranges: Vec<(usize, usize)> = Vec::new();
    let mut start: usize = 0;
    let mut p: usize = 0;
    while p < n
        invariant
            n == s.len(),
            s == content@,
            p <= n,
            start <= p,
            ranges@.len() == 0 ==> start == 0,
            ranges@.len() > 0 ==> start as int == game_starts(s, p as int).last(),
            game_starts(s, p as int).len() == ranges@.len(),
            forall|k: int| #![trigger ranges@[k]] 0 <= k < ranges@.len() ==> ranges@[k].0 <= ranges@[k].1 <= p,
            forall|k: int| #![trigger ranges@[k]] 0 <= k < ranges@.len()
                ==> ranges@[k].1 as int == game_starts(s, p as int)[k],
            forall|k: int| #![trigger ranges@[k]] 0 < k < ranges@.len()
                ==> ranges@[k].0 as int == game_starts(s, p as int)[k - 1],
            ranges@.len() > 0 ==> ranges@[0].0 == 0,
        decreases n - p,
    {
        let begins = p > 0 && n - p >= 6 && content.get_char(p - 1) == '\n'
            && same_text(content.substring_char(p, p + 6), "[Event");
        assert(begins == is_game_start(s, p as int));
        let ghost before = ranges@;
        if begins {
            ranges.push((start, p));
            start = p;
            assert(forall|k: int| 0 <= k < before.len() ==> ranges@[k] == before[k]);
        }
        assert(game_starts(s, p + 1) == if begins { game_starts(s, p as int).push(p as int) } else { game_starts(s, p as int) });
        p = p + 1;
    }
    ranges.push((start, n));
    let r = texts_of(content, &ranges);
    proof {
        let b = seq![0int] + game_starts(s, n as int) + seq![n as int];
        assert(b.len() == ranges@.len() + 1);
        assert(game_ranges(s).len() == ranges@.len());
        assert forall|k: int| 0 <= k < ranges@.len() implies
            (ranges@[k].0 as int, ranges@[k].1 as int) == game_ranges(s)[k] by {
            assert(game_ranges(s)[k] == (b[k], b[k + 1]));
            if k > 0 {
                assert(b[k] == game_starts(s, n as int)[k - 1]);
            } else {
                assert(b[k] == 0);
            }
            if k + 1 < ranges@.len() {
                assert(b[k + 1] == game_starts(s, n as int)[k]);
            } else {
                assert(b[k + 1] == n);
            }
        }
    }
    r
}

} // verus!
