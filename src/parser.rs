use vstd::prelude::*;

verus! {

/// Whether letters must agree in case for a line to match.
#[derive(Debug, Clone, Copy, PartialEq, Eq, Structural)]
pub enum SearchMode {
    CaseSensitive,
    CaseInsensitive,
}

/// The text of `s` cut at every newline, in order: one piece more than `s`
/// has newlines, the newlines themselves dropped.
pub open spec fn pieces(s: Seq<char>) -> Seq<Seq<char>>
    decreases s.len(),
{
    if s.len() == 0 {
        seq![Seq::empty()]
    } else {
        let p = pieces(s.drop_last());
        if s.last() == '\n' {
            p.push(Seq::empty())
        } else {
            p.update(p.len() - 1, p.last().push(s.last()))
        }
    }
}

/// A piece that a newline ended, without the carriage return of a `\r\n`
/// ending.
pub open spec fn strip_cr(piece: Seq<char>) -> Seq<char> {
    if piece.len() > 0 && piece.last() == '\r' {
        piece.drop_last()
    } else {
        piece
    }
}

/// The lines of `s`: each piece that a newline ends, less the carriage return
/// of a `\r\n` ending, then the last piece as it stands unless it is empty
/// (as after a final newline, or in an empty text).
pub open spec fn lines_of(s: Seq<char>) -> Seq<Seq<char>> {
    let p = pieces(s);
    let ended = p.drop_last().map_values(|piece: Seq<char>| strip_cr(piece));
    if p.last().len() == 0 {
        ended
    } else {
        ended.push(p.last())
    }
}

/// `pat` occurs somewhere in `text`, as a run of consecutive characters.
pub open spec fn contains(text: Seq<char>, pat: Seq<char>) -> bool {
    exists|i: int|
        0 <= i && i + pat.len() <= text.len() && #[trigger] text.subrange(i, i + pat.len()) == pat
}

/// What `str::to_lowercase` makes of a text.
pub uninterp spec fn lower_of(s: Seq<char>) -> Seq<char>;

/// A line is reported when it holds the query; without case sensitivity both
/// are compared in lowercase.
pub open spec fn line_matches(query: Seq<char>, line: Seq<char>, mode: SearchMode) -> bool {
    match mode {
        SearchMode::CaseSensitive => contains(line, query),
        SearchMode::CaseInsensitive => contains(lower_of(line), lower_of(query)),
    }
}

/// The test that decides, line by line, what a search for `query` reports.
pub open spec fn line_test(query: Seq<char>, mode: SearchMode) -> spec_fn(Seq<char>) -> bool {
    |line: Seq<char>| line_matches(query, line, mode)
}

/// The lines of `content` that match `query`, in their order, each as it stands.
pub open spec fn matching_lines(query: Seq<char>, content: Seq<char>, mode: SearchMode) -> Seq<
    Seq<char>,
> {
    lines_of(content).filter(line_test(query, mode))
}

/// The texts held by a vector of strings.
pub open spec fn texts(v: Seq<String>) -> Seq<Seq<char>> {
    v.map_values(|s: String| s@)
}

/// Relies on `String::push`: the character is appended at the end.
pub assume_specification[ String::push ](s: &mut String, ch: char)
    ensures
        final(s)@ == old(s)@.push(ch),
;

/// Relies on `str::to_lowercase`: the lowercase form of a text, which depends on
/// its characters alone.
#[verifier::external_body]
fn lowercase(s: &str) -> (r: String)
    ensures
        r@ == lower_of(s@),
{
    s.to_lowercase()
}

/// There is always at least one piece.
pub proof fn lemma_pieces_nonempty(s: Seq<char>)
    ensures
        pieces(s).len() >= 1,
    decreases s.len(),
{
    if s.len() > 0 {
        lemma_pieces_nonempty(s.drop_last());
    }
}

/// Collects the characters of `s`.
pub fn chars_of(s: &str) -> (r: Vec<char>)
    ensures
        r@ == s@,
{
    let mut r: Vec<char> = Vec::new();
    for c in it: s.chars()
        invariant
            r@ == it.seq().take(it.index() as int),
    {
        r.push(c);
    }
    r
}

/// Cuts `content` into its lines. A carriage return is held back until the
/// next character shows whether it ends the line.
pub fn split_lines(content: &str) -> (r: Vec<String>)
    ensures
        texts(r@) == lines_of(content@),
{
    let mut lines: Vec<String> = Vec::new();
    let mut cur = String::new();
    let mut held_cr = false;
    for c in it: content.chars()
        invariant
            it.seq() == content@,
            pieces(content@.take(it.index() as int)).drop_last().map_values(
                |piece: Seq<char>| strip_cr(piece),
            ) == texts(lines@),
            pieces(content@.take(it.index() as int)).last() == if held_cr {
                cur@.push('\r')
            } else {
                cur@
            },
            !held_cr ==> strip_cr(cur@) == cur@,
    {
        let ghost before = content@.take(it.index() as int);
        let ghost last = pieces(before).last();
        proof {
            assert(content@.take(it.index() + 1).drop_last() =~= before);
            lemma_pieces_nonempty(before);
            assert(strip_cr(cur@.push('\r')) =~= cur@);
        }
        if c == '\n' {
            lines.push(cur);
            cur = String::new();
            held_cr = false;
            assert(pieces(before).push(Seq::empty()).drop_last() =~= pieces(before));
            assert(pieces(before).map_values(|piece: Seq<char>| strip_cr(piece)) =~= pieces(
                before,
            ).drop_last().map_values(|piece: Seq<char>| strip_cr(piece)).push(strip_cr(last)));
            assert(texts(lines@) =~= pieces(before).map_values(
                |piece: Seq<char>| strip_cr(piece),
            ));
        } else {
            if held_cr {
                cur.push('\r');
            }
            if c == '\r' {
                held_cr = true;
            } else {
                cur.push(c);
                held_cr = false;
            }
            let ghost after = pieces(before).update(pieces(before).len() - 1, last.push(c));
            assert(after.drop_last() =~= pieces(before).drop_last());
        }
    }
    assert(content@.take(content@.len() as int) =~= content@);
    if held_cr {
        cur.push('\r');
    }
    if !cur.as_str().is_empty() {
        lines.push(cur);
        assert(texts(lines@) =~= lines_of(content@));
    } else {
        assert(texts(lines@) =~= lines_of(content@));
    }
    lines
}

/// Whether `p` occurs in `t` starting at position `i`.
fn occurs_at(t: &Vec<char>, p: &Vec<char>, i: usize) -> (r: bool)
    requires
        i + p@.len() <= t@.len(),
    ensures
        r == (t@.subrange(i as int, i + p@.len()) == p@),
{
    let mut j: usize = 0;
    let ghost n = t.len();
    while j < p.len()
        invariant
            n == t@.len(),
            j <= p@.len(),
            i + p@.len() <= t@.len(),
            t@.subrange(i as int, i + j) == p@.take(j as int),
        decreases p@.len() - j,
    {
        if t[i + j] != p[j] {
            assert(t@.subrange(i as int, i + p@.len())[j as int] != p@[j as int]);
            return false;
        }
        j = j + 1;
        assert(t@.subrange(i as int, i + j) =~= p@.take(j as int));
    }
    assert(p@.take(j as int) =~= p@);
    true
}

/// Whether `query` occurs in `line`, character for character.
pub fn line_contains(line: &str, query: &str) -> (r: bool)
    ensures
        r == contains(line@, query@),
{
    let t = chars_of(line);
    let p = chars_of(query);
    if p.len() > t.len() {
        return false;
    }
    let last: usize = t.len() - p.len();
    let mut i: usize = 0;
    while i < last
        invariant
            last == t@.len() - p@.len(),
            t@ == line@,
            p@ == query@,
            forall|k: int| 0 <= k < i ==> #[trigger] t@.subrange(k, k + p@.len()) != p@,
        decreases last - i,
    {
        if occurs_at(&t, &p, i) {
            return true;
        }
        i = i + 1;
    }
    occurs_at(&t, &p, last)
}

/// Searches text for lines that hold a query, in one search mode.
pub struct Parser {
    mode: SearchMode,
}

impl View for Parser {
    type V = SearchMode;

    closed spec fn view(&self) -> SearchMode {
        self.mode
    }
}

impl Parser {
    /// A searcher in the given mode.
    pub fn new(mode: &SearchMode) -> (r: Parser)
        ensures
            r@ == *mode,
    {
        Parser { mode: *mode }
    }

    /// The lines of `content` that hold `query`, in order, each as it stands.
    pub fn parse(&self, query: &str, content: &str) -> (r: Vec<String>)
        ensures
            texts(r@) == matching_lines(query@, content@, self@),
    {
        match self.mode {
            SearchMode::CaseSensitive => self.parse_case_sensitive(query, content),
            SearchMode::CaseInsensitive => self.parse_case_insensitive(query, content),
        }
    }

    fn parse_case_sensitive(&self, query: &str, content: &str) -> (r: Vec<String>)
        ensures
            texts(r@) == matching_lines(query@, content@, SearchMode::CaseSensitive),
    {
        let ghost pred = line_test(query@, SearchMode::CaseSensitive);
        let lines = split_lines(content);
        let mut result: Vec<String> = Vec::new();
        let mut i: usize = 0;
        while i < lines.len()
            invariant
                i <= lines@.len(),
                pred == line_test(query@, SearchMode::CaseSensitive),
                texts(lines@) == lines_of(content@),
                texts(result@) == texts(lines@).take(i as int).filter(pred),
            decreases lines@.len() - i,
        {
            proof {
                lemma_filter_step(texts(lines@), i as int, pred);
                assert(texts(lines@)[i as int] == lines@[i as int]@);
            }
            if line_contains(lines[i].as_str(), query) {
                result.push(lines[i].clone());
                assert(texts(result@) =~= texts(lines@).take(i as int).filter(pred).push(
                    lines@[i as int]@,
                ));
            }
            i = i + 1;
        }
        assert(texts(lines@).take(i as int) =~= texts(lines@));
        result
    }

    fn parse_case_insensitive(&self, query: &str, content: &str) -> (r: Vec<String>)
        ensures
            texts(r@) == matching_lines(query@, content@, SearchMode::CaseInsensitive),
    {
        let ghost pred = line_test(query@, SearchMode::CaseInsensitive);
        let lines = split_lines(content);
        let lowered_query = lowercase(query);
        let mut result: Vec<String> = Vec::new();
        let mut i: usize = 0;
        while i < lines.len()
            invariant
                i <= lines@.len(),
                pred == line_test(query@, SearchMode::CaseInsensitive),
                lowered_query@ == lower_of(query@),
                texts(lines@) == lines_of(content@),
                texts(result@) == texts(lines@).take(i as int).filter(pred),
            decreases lines@.len() - i,
        {
            proof {
                lemma_filter_step(texts(lines@), i as int, pred);
                assert(texts(lines@)[i as int] == lines@[i as int]@);
            }
            let lowered_line = lowercase(lines[i].as_str());
            if line_contains(lowered_line.as_str(), lowered_query.as_str()) {
                result.push(lines[i].clone());
                assert(texts(result@) =~= texts(lines@).take(i as int).filter(pred).push(
                    lines@[i as int]@,
                ));
            }
            i = i + 1;
        }
        assert(texts(lines@).take(i as int) =~= texts(lines@));
        result
    }
}

/// Filtering one more element of `s` either keeps the filtered prefix or adds
/// that element at its end.
proof fn lemma_filter_step(s: Seq<Seq<char>>, i: int, pred: spec_fn(Seq<char>) -> bool)
    requires
        0 <= i < s.len(),
    ensures
        s.take(i + 1).filter(pred) == if pred(s[i]) {
            s.take(i).filter(pred).push(s[i])
        } else {
            s.take(i).filter(pred)
        },
{
    reveal(Seq::filter);
    assert(s.take(i + 1).drop_last() =~= s.take(i));
}

/// `idx` picks the elements of `r` out of `s`: one index for each, rising
/// strictly, each element the one found at its index.
pub open spec fn picks(idx: Seq<int>, r: Seq<Seq<char>>, s: Seq<Seq<char>>) -> bool {
    &&& idx.len() == r.len()
    &&& forall|k: int| 0 <= k < idx.len() ==> 0 <= #[trigger] idx[k] < s.len() && r[k] == s[idx[k]]
    &&& forall|k: int, l: int| 0 <= k < l < idx.len() ==> #[trigger] idx[k] < #[trigger] idx[l]
}

/// The elements that a filter keeps are picked out of the sequence in order.
proof fn lemma_filter_picks(s: Seq<Seq<char>>, pred: spec_fn(Seq<char>) -> bool) -> (idx: Seq<int>)
    ensures
        picks(idx, s.filter(pred), s),
    decreases s.len(),
{
    reveal(Seq::filter);
    if s.len() == 0 {
        Seq::empty()
    } else {
        let prefix = s.drop_last();
        let idx = lemma_filter_picks(prefix, pred);
        if pred(s.last()) {
            let longer = idx.push(s.len() - 1);
            assert(picks(longer, s.filter(pred), s)) by {
                assert forall|k: int| 0 <= k < longer.len() implies 0 <= #[trigger] longer[k] < s.len()
                    && s.filter(pred)[k] == s[longer[k]] by {
                    if k < idx.len() {
                        assert(prefix[idx[k]] == s[idx[k]]);
                    }
                }
            }
            longer
        } else {
            assert forall|k: int| 0 <= k < idx.len() implies 0 <= #[trigger] idx[k] < s.len()
                && s.filter(pred)[k] == s[idx[k]] by {
                assert(prefix[idx[k]] == s[idx[k]]);
            }
            idx
        }
    }
}

/// A search keeps no state between runs and keeps the content's order: two
/// runs on the same query, content and mode report the same lines, and those
/// are lines of the content that pass the test, in the order the content
/// holds them, so no more of them than the content has lines.
pub proof fn lemma_search_repeatable(
    query: Seq<char>,
    content: Seq<char>,
    mode: SearchMode,
    first: Seq<Seq<char>>,
    second: Seq<Seq<char>>,
) -> (idx: Seq<int>)
    requires
        first == matching_lines(query, content, mode),
        second == matching_lines(query, content, mode),
    ensures
        first == second,
        picks(idx, first, lines_of(content)),
        forall|k: int| 0 <= k < first.len() ==> line_matches(query, #[trigger] first[k], mode),
        first.len() <= lines_of(content).len(),
{
    let test = line_test(query, mode);
    let idx = lemma_filter_picks(lines_of(content), test);
    assert forall|k: int| 0 <= k < first.len() implies line_matches(
        query,
        #[trigger] first[k],
        mode,
    ) by {
        lines_of(content).lemma_filter_pred(test, k);
    }
    lines_of(content).lemma_filter_len(test);
    idx
}

} // verus!
