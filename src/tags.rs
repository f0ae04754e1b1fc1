use vstd::prelude::*;
use vstd::string::*;
use crate::scan::{tag_ranges, scan_ranges, ranges_view};
use crate::outcome::same_text;

verus! {

/// Index of the first `c` in `t` at or after `start`, or `t.len()` if none.
pub open spec fn first_from(t: Seq<char>, c: char, start: int) -> int
    decreases t.len() - start,
{
    if start >= t.len() {
        t.len() as int
    } else if t[start] == c {
        start
    } else {
        first_from(t, c, start + 1)
    }
}

/// Key and value of the contents of a tag pair `Key "Value"`: the key runs to
/// the first space or quote, the value lies between the first two quotes.
/// Contents without two quotes are malformed.
pub open spec fn tag_parts(t: Seq<char>) -> Option<(Seq<char>, Seq<char>)> {
    let q1 = first_from(t, '"', 0);
    let q2 = first_from(t, '"', q1 + 1);
    let sp = first_from(t, ' ', 0);
    let key_end = if sp < q1 { sp } else { q1 };
    if q1 >= t.len() || q2 >= t.len() {
        None
    } else {
        Some((t.subrange(0, key_end), t.subrange(q1 + 1, q2)))
    }
}

/// The well-formed tag pairs among `ranges` of `s`, in order.
pub open spec fn parsed_tags(s: Seq<char>, ranges: Seq<(int, int)>) -> Seq<(Seq<char>, Seq<char>)>
    decreases ranges.len(),
{
    if ranges.len() == 0 {
        seq![]
    } else {
        let rest = parsed_tags(s, ranges.drop_last());
        match tag_parts(s.subrange(ranges.last().0, ranges.last().1)) {
            Some(p) => rest.push(p),
            None => rest,
        }
    }
}

/// The tag pairs of a game text.
pub open spec fn header_of(s: Seq<char>) -> Seq<(Seq<char>, Seq<char>)> {
    parsed_tags(s, tag_ranges(s))
}

/// The value of the last tag named `key`.
pub open spec fn lookup(tags: Seq<(Seq<char>, Seq<char>)>, key: Seq<char>) -> Option<Seq<char>>
    decreases tags.len(),
{
    if tags.len() == 0 {
        None
    } else if tags.last().0 == key {
        Some(tags.last().1)
    } else {
        lookup(tags.drop_last(), key)
    }
}

proof fn lemma_first_from_skip(t: Seq<char>, c: char, start: int, i: int)
    requires
        0 <= start <= i,
        forall|j: int| start <= j < i && j < t.len() ==> t[j] != c,
    ensures
        first_from(t, c, start) == first_from(t, c, i),
    decreases i - start,
{
    if start < i && start < t.len() {
        lemma_first_from_skip(t, c, start + 1, i);
    }
}

fn find_from(t: &str, n: usize, c: char, start: usize) -> (r: usize)
    requires
        n == t@.len(),
        start <= n,
    ensures
        r as int == first_from(t@, c, start as int),
        start <= r <= n,
{
    let mut i = start;
    while i < n
        invariant
            n == t@.len(),
            start <= i <= n,
            forall|j: int| start <= j < i ==> t@[j] != c,
        decreases n - i,
    {
        if t.get_char(i) == c {
            proof { lemma_first_from_skip(t@, c, start as int, i as int); }
            return i;
        }
        i = i + 1;
    }
    proof { lemma_first_from_skip(t@, c, start as int, i as int); }
    i
}

/// Key and value of the contents of one tag pair, as `tag_parts` gives them.
pub fn parse_tag(t: &str) -> (r: Option<(String, String)>)
    ensures
        match tag_parts(t@) {
            Some((k, v)) => r matches Some((rk, rv)) && rk@ == k && rv@ == v,
            None => r is None,
        },
{
    let n = t.unicode_len();
    let q1 = find_from(t, n, '"', 0);
    if q1 >= n {
        return None;
    }
    let q2 = find_from(t, n, '"', q1 + 1);
    if q2 >= n {
        return None;
    }
    let sp = find_from(t, n, ' ', 0);
    let key_end = if sp < q1 { sp } else { q1 };
    let key = String::from_str(t.substring_char(0, key_end));
    let value = String::from_str(t.substring_char(q1 + 1, q2));
    Some((key, value))
}

pub open spec fn pairs_view(v: Seq<(String, String)>) -> Seq<(Seq<char>, Seq<char>)> {
    v.map_values(|p: (String, String)| (p.0@, p.1@))
}

/// The well-formed tag pairs of a game text, in order.
pub fn header_tags(text: &str) -> (r: Vec<(String, String)>)
    ensures
        pairs_view(r@) == header_of(text@),
{
    let (_tokens, ranges) = scan_ranges(text);
    let ghost rs = ranges_view(ranges@);
    let mut out: Vec<(String, String)> = Vec::new();
    let mut k: usize = 0;
    while k < ranges.len()
        invariant
            k <= ranges@.len(),
            rs == ranges_view(ranges@),
            rs == tag_ranges(text@),
            forall|k: int| #![trigger ranges@[k]] 0 <= k < ranges@.len() ==> ranges@[k].0 <= ranges@[k].1 <= text@.len(),
            pairs_view(out@) == parsed_tags(text@, rs.take(k as int)),
        decreases ranges@.len() - k,
    {
        let (a, b) = ranges[k];
        assert(rs.take(k + 1).drop_last() =~= rs.take(k as int));
        assert(rs.take(k + 1).last() == (a as int, b as int));
        let piece = text.substring_char(a, b);
        match parse_tag(piece) {
            Some(p) => {
                out.push(p);
                assert(pairs_view(out@) =~= parsed_tags(text@, rs.take(k as int)).push((p.0@, p.1@)));
            },
            None => {},
        }
        k = k + 1;
    }
    assert(rs.take(ranges@.len() as int) =~= rs);
    out
}

/// The value of the last tag named `key`, as `lookup` gives it.
pub fn find_tag(tags: &Vec<(String, String)>, key: &str) -> (r: Option<String>)
    ensures
        match lookup(pairs_view(tags@), key@) {
            Some(v) => r matches Some(s) && s@ == v,
            None => r is None,
        },
{
    let ghost ts = pairs_view(tags@);
    let mut found: Option<String> = None;
    let mut i: usize = 0;
    while i < tags.len()
        invariant
            i <= tags@.len(),
            ts == pairs_view(tags@),
            match lookup(ts.take(i as int), key@) {
                Some(v) => found matches Some(s) && s@ == v,
                None => found is None,
            },
        decreases tags@.len() - i,
    {
        assert(ts.take(i + 1).drop_last() =~= ts.take(i as int));
        if same_text(tags[i].0.as_str(), key) {
            found = Some(tags[i].1.clone());
        }
        i = i + 1;
    }
    assert(ts.take(tags@.len() as int) =~= ts);
    found
}

} // verus!
