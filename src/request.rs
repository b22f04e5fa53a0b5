//! Parsing of the request head that a client sends.
use vstd::prelude::*;

verus! {

/// The characters that `char::is_whitespace` accepts (Unicode `White_Space`).
pub open spec fn white_space(c: char) -> bool {
    let u = c as u32;
    (0x9 <= u && u <= 0xd) || u == 0x20 || u == 0x85 || u == 0xa0 || u == 0x1680 || (0x2000
        <= u && u <= 0x200a) || u == 0x2028 || u == 0x2029 || u == 0x202f || u == 0x205f || u
        == 0x3000
}

/// The first index at or after `i` that holds no white space (or the end).
pub open spec fn word_start(s: Seq<char>, i: int) -> int
    decreases s.len() - i,
{
    if 0 <= i < s.len() && white_space(s[i]) {
        word_start(s, i + 1)
    } else {
        i
    }
}

/// The first index at or after `i` that holds white space (or the end).
pub open spec fn word_end(s: Seq<char>, i: int) -> int
    decreases s.len() - i,
{
    if 0 <= i < s.len() && !white_space(s[i]) {
        word_end(s, i + 1)
    } else {
        i
    }
}

/// Tells whether `c` is white space.
pub fn is_white_space(c: char) -> (r: bool)
    ensures
        r == white_space(c),
{
    let u = c as u32;
    (0x9 <= u && u <= 0xd) || u == 0x20 || u == 0x85 || u == 0xa0 || u == 0x1680 || (0x2000
        <= u && u <= 0x200a) || u == 0x2028 || u == 0x2029 || u == 0x202f || u == 0x205f || u
        == 0x3000
}

fn skip_white_space(s: &str, n: usize, i: usize) -> (r: usize)
    requires
        n == s@.len(),
        i <= n,
    ensures
        r == word_start(s@, i as int),
        i <= r <= n,
{
    let mut j: usize = i;
    while j < n && is_white_space(s.get_char(j))
        invariant
            i <= j <= n,
            n == s@.len(),
            word_start(s@, i as int) == word_start(s@, j as int),
        decreases n - j,
    {
        j = j + 1;
    }
    j
}

fn skip_word(s: &str, n: usize, i: usize) -> (r: usize)
    requires
        n == s@.len(),
        i <= n,
    ensures
        r == word_end(s@, i as int),
        i <= r <= n,
{
    let mut j: usize = i;
    while j < n && !is_white_space(s.get_char(j))
        invariant
            i <= j <= n,
            n == s@.len(),
            word_end(s@, i as int) == word_end(s@, j as int),
        decreases n - j,
    {
        j = j + 1;
    }
    j
}


/// The second white-space-delimited word of a request line, if there is one.
pub open spec fn request_target(line: Seq<char>) -> Option<Seq<char>> {
    let m0 = word_start(line, 0);
    let m1 = word_end(line, m0);
    let t0 = word_start(line, m1);
    let t1 = word_end(line, t0);
    if m0 < line.len() && t0 < line.len() {
        Some(line.subrange(t0, t1))
    } else {
        None
    }
}

/// The first index at or after `i` that holds `c` (or the end).
pub open spec fn find_char(s: Seq<char>, c: char, i: int) -> int
    decreases s.len() - i,
{
    if 0 <= i < s.len() && s[i] != c {
        find_char(s, c, i + 1)
    } else {
        i
    }
}

/// `s` split around the first `c`, the `c` itself dropped.
pub open spec fn split_first(s: Seq<char>, c: char) -> Option<(Seq<char>, Seq<char>)> {
    let k = find_char(s, c, 0);
    if k < s.len() {
        Some((s.take(k), s.skip(k + 1)))
    } else {
        None
    }
}

/// The `key=value` pairs of a query: the `&`-separated parts that hold an `=`,
/// each split at its first `=`, in order.
pub open spec fn query_pairs(q: Seq<char>) -> Seq<(Seq<char>, Seq<char>)>
    decreases q.len(),
{
    let k = find_char(q, '&', 0);
    let rest = if 0 <= k < q.len() {
        query_pairs(q.skip(k + 1))
    } else {
        Seq::empty()
    };
    match split_first(q.take(k), '=') {
        Some(p) => seq![p] + rest,
        None => rest,
    }
}

/// Path and query pairs of a request target: the path ends at the first `?`.
pub open spec fn split_target(t: Seq<char>) -> (Seq<char>, Seq<(Seq<char>, Seq<char>)>) {
    match split_first(t, '?') {
        Some((p, q)) => (p, query_pairs(q)),
        None => (t, Seq::empty()),
    }
}

/// Path and query pairs of a request line, or `None` where it has fewer than
/// two words.
pub open spec fn parse_line(line: Seq<char>) -> Option<(Seq<char>, Seq<(Seq<char>, Seq<char>)>)> {
    match request_target(line) {
        Some(t) => Some(split_target(t)),
        None => None,
    }
}

fn find_in(s: &str, n: usize, c: char, i: usize) -> (r: usize)
    requires
        n == s@.len(),
        i <= n,
    ensures
        r == find_char(s@, c, i as int),
        i <= r <= n,
{
    let mut j: usize = i;
    while j < n && s.get_char(j) != c
        invariant
            i <= j <= n,
            n == s@.len(),
            find_char(s@, c, i as int) == find_char(s@, c, j as int),
        decreases n - j,
    {
        j = j + 1;
    }
    j
}

/// Splits `s` around its first `c`.
pub fn split_once(s: &str, c: char) -> (r: Option<(String, String)>)
    ensures
        match r {
            Some((a, b)) => split_first(s@, c) == Some((a@, b@)),
            None => split_first(s@, c) is None,
        },
{
    let n = s.unicode_len();
    let k = find_in(s, n, c, 0);
    if k < n {
        let a = String::from_str(s.substring_char(0, k));
        let b = String::from_str(s.substring_char(k + 1, n));
        assert(a@ == s@.take(k as int));
        assert(b@ == s@.skip(k + 1));
        Some((a, b))
    } else {
        None
    }
}


/// Character sequences of a list of string pairs.
pub open spec fn pairs_view(v: Seq<(String, String)>) -> Seq<(Seq<char>, Seq<char>)> {
    v.map_values(|p: (String, String)| (p.0@, p.1@))
}

/// Character sequences of a list of lines.
pub open spec fn lines_view(v: Seq<String>) -> Seq<Seq<char>> {
    v.map_values(|l: String| l@)
}

proof fn lemma_find_char_skip(s: Seq<char>, c: char, i: int, j: int)
    requires
        0 <= i <= j <= s.len(),
    ensures
        find_char(s.skip(i), c, j - i) == find_char(s, c, j) - i,
    decreases s.len() - j,
{
    if j < s.len() && s[j] != c {
        lemma_find_char_skip(s, c, i, j + 1);
    }
}

/// The `key=value` pairs of a query string, in order; parts without `=` are
/// left out.
pub fn parse_query(q: &str) -> (r: Vec<(String, String)>)
    ensures
        pairs_view(r@) == query_pairs(q@),
{
    let n = q.unicode_len();
    let mut r: Vec<(String, String)> = Vec::new();
    let mut i: usize = 0;
    assert(q@.skip(0) =~= q@);
    assert(pairs_view(r@) + query_pairs(q@) =~= query_pairs(q@));
    loop
        invariant_except_break
            pairs_view(r@) + query_pairs(q@.skip(i as int)) == query_pairs(q@),
        invariant
            i <= n,
            n == q@.len(),
        ensures
            pairs_view(r@) == query_pairs(q@),
        decreases n - i,
    {
        let k = find_in(q, n, '&', i);
        let part = q.substring_char(i, k);
        let ghost rest = q@.skip(i as int);
        proof {
            lemma_find_char_skip(q@, '&', i as int, i as int);
            assert(rest.skip(0) =~= rest);
            assert(part@ =~= rest.take(k - i));
        }
        let ghost before = pairs_view(r@);
        match split_once(part, '=') {
            Some(p) => {
                r.push(p);
                assert(pairs_view(r@) =~= before + seq![(p.0@, p.1@)]);
            },
            None => {},
        }
        if k < n {
            assert(rest.skip(k - i + 1) =~= q@.skip(k + 1));
            assert(pairs_view(r@) + query_pairs(q@.skip(k + 1)) =~= before + query_pairs(rest));
            i = k + 1;
        } else {
            assert(pairs_view(r@) + Seq::<(Seq<char>, Seq<char>)>::empty() =~= pairs_view(r@));
            break;
        }
    }
    r
}


/// Path of a request head given as its lines: the path of the first line, or
/// empty where there is no line or the first has fewer than two words.
pub open spec fn request_path(lines: Seq<Seq<char>>) -> Seq<char> {
    if lines.len() > 0 {
        match parse_line(lines[0]) {
            Some((p, _)) => p,
            None => Seq::empty(),
        }
    } else {
        Seq::empty()
    }
}

/// What a request line yields: the path, which keys the cache, and the query
/// pairs, which are only reported.
pub struct ParsedRequest {
    pub path: String,
    pub query: Vec<(String, String)>,
}

/// Splits a request target into path and query pairs at its first `?`.
pub fn parse_target(target: &str) -> (r: ParsedRequest)
    ensures
        split_target(target@) == (r.path@, pairs_view(r.query@)),
{
    match split_once(target, '?') {
        Some((path, q)) => {
            let query = parse_query(q.as_str());
            ParsedRequest { path, query }
        },
        None => {
            let query: Vec<(String, String)> = Vec::new();
            assert(pairs_view(query@) =~= Seq::empty());
            ParsedRequest { path: String::from_str(target), query }
        },
    }
}

/// Parses a request line `METHOD target ...`; `None` where it has fewer than
/// two words.
pub fn parse_request_line(line: &str) -> (r: Option<ParsedRequest>)
    ensures
        match r {
            Some(p) => parse_line(line@) == Some((p.path@, pairs_view(p.query@))),
            None => parse_line(line@) is None,
        },
{
    let n = line.unicode_len();
    let m0 = skip_white_space(line, n, 0);
    let m1 = skip_word(line, n, m0);
    let t0 = skip_white_space(line, n, m1);
    let t1 = skip_word(line, n, t0);
    if m0 < n && t0 < n {
        Some(parse_target(line.substring_char(t0, t1)))
    } else {
        None
    }
}

/// Parses a request head given as its lines, up to the blank line that ends
/// it; `None` where there is no request line or it has fewer than two words.
pub fn parse_request(lines: &Vec<String>) -> (r: Option<ParsedRequest>)
    ensures
        match r {
            Some(p) => lines@.len() > 0 && parse_line(lines@[0]@) == Some(
                (p.path@, pairs_view(p.query@)),
            ),
            None => lines@.len() == 0 || parse_line(lines@[0]@) is None,
        },
{
    if lines.len() == 0 {
        None
    } else {
        parse_request_line(lines[0].as_str())
    }
}

/// The path that a request head asks for; empty where it cannot be parsed.
pub fn get_path(lines: &Vec<String>) -> (r: String)
    ensures
        r@ == request_path(lines_view(lines@)),
{
    match parse_request(lines) {
        Some(p) => p.path,
        None => String::new(),
    }
}


/// `s` holds no white space.
pub open spec fn no_white_space(s: Seq<char>) -> bool {
    forall|k: int| 0 <= k < s.len() ==> !white_space(#[trigger] s[k])
}

proof fn lemma_word_end_run(s: Seq<char>, i: int, j: int)
    requires
        0 <= i <= j <= s.len(),
        forall|k: int| i <= k < j ==> !white_space(#[trigger] s[k]),
        j == s.len() || white_space(s[j]),
    ensures
        word_end(s, i) == j,
    decreases j - i,
{
    if i < j {
        lemma_word_end_run(s, i + 1, j);
    }
}

/// A request line `METHOD target VERSION`, its words split by single spaces,
/// yields the target split at its first `?`.
pub proof fn lemma_request_line_target(method: Seq<char>, target: Seq<char>, version: Seq<char>)
    requires
        method.len() > 0,
        target.len() > 0,
        no_white_space(method),
        no_white_space(target),
        no_white_space(version),
    ensures
        parse_line(method + seq![' '] + target + seq![' '] + version) == Some(
            split_target(target),
        ),
{
    let line = method + seq![' '] + target + seq![' '] + version;
    let a = method.len() as int;
    let b = a + 1 + target.len();
    assert(white_space(' '));
    assert(line[0] == method[0]);
    assert(word_start(line, 0) == 0);
    assert forall|k: int| 0 <= k < a implies !white_space(#[trigger] line[k]) by {
        assert(line[k] == method[k]);
    }
    assert(line[a] == ' ');
    lemma_word_end_run(line, 0, a);
    assert(line[a + 1] == target[0]);
    assert(word_start(line, a + 1) == a + 1);
    assert(word_start(line, a) == a + 1);
    assert forall|k: int| a + 1 <= k < b implies !white_space(#[trigger] line[k]) by {
        assert(line[k] == target[k - a - 1]);
    }
    assert(line[b] == ' ');
    lemma_word_end_run(line, a + 1, b);
    assert(line.subrange(a + 1, b) =~= target);
}

/// A head with no request line, or a blank one, yields the empty path.
pub proof fn lemma_blank_request_path(lines: Seq<Seq<char>>)
    requires
        lines.len() == 0 || lines[0].len() == 0,
    ensures
        request_path(lines) == Seq::<char>::empty(),
{
}


/// Pairs written as a query: `key=value` parts joined with `&`.
pub open spec fn join_query(ps: Seq<(Seq<char>, Seq<char>)>) -> Seq<char>
    decreases ps.len(),
{
    if ps.len() == 0 {
        Seq::empty()
    } else if ps.len() == 1 {
        ps[0].0 + seq!['='] + ps[0].1
    } else {
        ps[0].0 + seq!['='] + ps[0].1 + seq!['&'] + join_query(ps.skip(1))
    }
}

proof fn lemma_find_char_run(s: Seq<char>, c: char, i: int, j: int)
    requires
        0 <= i <= j <= s.len(),
        forall|k: int| i <= k < j ==> #[trigger] s[k] != c,
        j == s.len() || s[j] == c,
    ensures
        find_char(s, c, i) == j,
    decreases j - i,
{
    if i < j {
        lemma_find_char_run(s, c, i + 1, j);
    }
}

/// Pairs whose keys hold neither `&` nor `=`, and whose values hold no `&`,
/// come back from their query exactly, in order.
pub proof fn lemma_query_round_trip(ps: Seq<(Seq<char>, Seq<char>)>)
    requires
        forall|i: int, k: int|
            0 <= i < ps.len() && 0 <= k < ps[i].0.len() ==> #[trigger] ps[i].0[k] != '&'
                && ps[i].0[k] != '=',
        forall|i: int, k: int|
            0 <= i < ps.len() && 0 <= k < ps[i].1.len() ==> #[trigger] ps[i].1[k] != '&',
    ensures
        query_pairs(join_query(ps)) == ps,
    decreases ps.len(),
{
    let q = join_query(ps);
    if ps.len() == 0 {
        assert(query_pairs(q) =~= ps);
    } else {
        let key = ps[0].0;
        let value = ps[0].1;
        let seg = key + seq!['='] + value;
        let n = seg.len() as int;
        assert forall|k: int| 0 <= k < n implies #[trigger] q[k] != '&' by {
            assert(q[k] == seg[k]);
            if k < key.len() {
                assert(ps[0].0[k] != '&');
            } else if k > key.len() {
                assert(seg[k] == value[k - key.len() - 1]);
                assert(ps[0].1[k - key.len() - 1] != '&');
            }
        }
        if ps.len() > 1 {
            assert(q[n] == '&');
        }
        lemma_find_char_run(q, '&', 0, n);
        assert(q.take(n) =~= seg);
        assert forall|k: int| 0 <= k < key.len() implies #[trigger] seg[k] != '=' by {
            assert(seg[k] == key[k]);
            assert(ps[0].0[k] != '=');
        }
        lemma_find_char_run(seg, '=', 0, key.len() as int);
        assert(seg.take(key.len() as int) =~= key);
        assert(seg.skip(key.len() as int + 1) =~= value);
        if ps.len() > 1 {
            let tail = ps.skip(1);
            assert forall|i: int, k: int|
                0 <= i < tail.len() && 0 <= k < tail[i].0.len() implies #[trigger] tail[i].0[k]
                != '&' && tail[i].0[k] != '=' by {
                assert(tail[i] == ps[i + 1]);
            }
            assert forall|i: int, k: int|
                0 <= i < tail.len() && 0 <= k < tail[i].1.len() implies #[trigger] tail[i].1[k]
                != '&' by {
                assert(tail[i] == ps[i + 1]);
            }
            lemma_query_round_trip(tail);
            assert(q.skip(n + 1) =~= join_query(tail));
            assert(query_pairs(q) =~= seq![(key, value)] + tail);
            assert(seq![(key, value)] + tail =~= ps);
        } else {
            assert(query_pairs(q) =~= seq![(key, value)]);
            assert(seq![(key, value)] =~= ps);
        }
    }
}

} // verus!
