//! Requests as the server reads them: a first line that holds a method and
//! a path, further lines, and after the first empty line a body of
//! `key=value` pairs.

use crate::text::{
    chars_of, copy_range, join, join_from, lemma_split_len, parse_u32_in, parse_u32_spec, same_text,
    scan, scan_in, split, split_on, string_of, texts, CharClass,
};
use vstd::prelude::*;

verus! {

pub struct Request {
    pub method: String,
    pub path: String,
    pub body: String,
}

/// The mathematical value of a request.
pub struct RequestView {
    pub method: Seq<char>,
    pub path: Seq<char>,
    pub body: Seq<char>,
}

impl View for Request {
    type V = RequestView;

    open spec fn view(&self) -> RequestView {
        RequestView { method: self.method@, path: self.path@, body: self.body@ }
    }
}

/// A line without the carriage return at its end, if it has one.
pub open spec fn strip_cr(line: Seq<char>) -> Seq<char> {
    if line.len() > 0 && line.last() == '\r' {
        line.drop_last()
    } else {
        line
    }
}

/// The lines of a text. A line ends with a line feed, or with a carriage
/// return and a line feed, which are not part of it. What follows the last
/// line feed is a line too, unless it is empty; a carriage return at its
/// end stays.
pub open spec fn lines_of(s: Seq<char>) -> Seq<Seq<char>> {
    let pieces = split_on(s, '\n');
    let last = pieces.len() - 1;
    Seq::new(
        (if pieces[last].len() > 0 {
            last + 1
        } else {
            last
        }) as nat,
        |i: int|
            if i < last {
                strip_cr(pieces[i])
            } else {
                pieces[i]
            },
    )
}

/// The number of lines before the first empty one.
pub open spec fn head_len(lines: Seq<Seq<char>>) -> nat
    decreases lines.len(),
{
    if lines.len() == 0 || lines[0].len() == 0 {
        0
    } else {
        1 + head_len(lines.drop_first())
    }
}

/// The body of a request: the lines after the first empty line, with a
/// line feed between each two. Empty where no line is empty.
pub open spec fn body_of(lines: Seq<Seq<char>>) -> Seq<char> {
    let head = head_len(lines);
    if head >= lines.len() {
        Seq::empty()
    } else {
        join(lines.skip(head as int + 1), '\n')
    }
}

/// The request that a text holds. Its first line must hold two words, set
/// off by white space: the method and the path. What else the first line
/// holds is ignored.
pub open spec fn parse_spec(raw: Seq<char>) -> Option<RequestView> {
    let lines = lines_of(raw);
    if lines.len() == 0 {
        None
    } else {
        let line = lines[0];
        let a = scan(line, CharClass::NonSpace) as int;
        let b = a + scan(line.skip(a), CharClass::Space);
        let c = b + scan(line.skip(b), CharClass::NonSpace);
        let d = c + scan(line.skip(c), CharClass::Space);
        if a >= line.len() || c >= line.len() {
            None
        } else {
            Some(
                RequestView {
                    method: line.subrange(a, b),
                    path: line.subrange(c, d),
                    body: body_of(lines),
                },
            )
        }
    }
}

/// The key and the value of one piece of a body: what stands before its
/// first `'='` and what stands after. A piece without `'='` is no pair.
pub open spec fn pair_of(piece: Seq<char>) -> Option<(Seq<char>, Seq<char>)> {
    let k = scan(piece, CharClass::Is('=')) as int;
    if k >= piece.len() {
        None
    } else {
        Some((piece.take(k), piece.skip(k + 1)))
    }
}

/// The pairs of a sequence of pieces, in order.
pub open spec fn pairs_of(pieces: Seq<Seq<char>>) -> Seq<(Seq<char>, Seq<char>)>
    decreases pieces.len(),
{
    if pieces.len() == 0 {
        Seq::empty()
    } else {
        match pair_of(pieces.last()) {
            Some(pair) => pairs_of(pieces.drop_last()).push(pair),
            None => pairs_of(pieces.drop_last()),
        }
    }
}

/// The pairs of a text of the form `key=value&key=value`, in order.
pub open spec fn parse_pairs_spec(s: Seq<char>) -> Seq<(Seq<char>, Seq<char>)> {
    pairs_of(split_on(s, '&'))
}

/// The map that a sequence of pairs builds when they are entered one by
/// one: where a key occurs more than once, its last value stays.
pub open spec fn to_map(pairs: Seq<(Seq<char>, Seq<char>)>) -> Map<Seq<char>, Seq<char>>
    decreases pairs.len(),
{
    if pairs.len() == 0 {
        Map::empty()
    } else {
        to_map(pairs.drop_last()).insert(pairs.last().0, pairs.last().1)
    }
}

/// A key that no pair has is not in the map.
pub proof fn lemma_to_map_missing(pairs: Seq<(Seq<char>, Seq<char>)>, key: Seq<char>)
    requires
        forall|i: int| 0 <= i < pairs.len() ==> (#[trigger] pairs[i]).0 != key,
    ensures
        !to_map(pairs).contains_key(key),
    decreases pairs.len(),
{
    if pairs.len() > 0 {
        let rest = pairs.drop_last();
        assert forall|i: int| 0 <= i < rest.len() implies (#[trigger] rest[i]).0 != key by {
            assert(rest[i] == pairs[i]);
        }
        lemma_to_map_missing(rest, key);
        assert(pairs.last() == pairs[pairs.len() - 1]);
    }
}

/// A key has in the map the value of the last pair that has the key.
pub proof fn lemma_to_map_last(pairs: Seq<(Seq<char>, Seq<char>)>, key: Seq<char>, at: int)
    requires
        0 <= at < pairs.len(),
        pairs[at].0 == key,
        forall|i: int| at < i < pairs.len() ==> (#[trigger] pairs[i]).0 != key,
    ensures
        to_map(pairs).contains_key(key),
        to_map(pairs)[key] == pairs[at].1,
    decreases pairs.len(),
{
    let rest = pairs.drop_last();
    assert(pairs.last() == pairs[pairs.len() - 1]);
    if at < pairs.len() - 1 {
        assert(rest[at] == pairs[at]);
        assert forall|i: int| at < i < rest.len() implies (#[trigger] rest[i]).0 != key by {
            assert(rest[i] == pairs[i]);
        }
        lemma_to_map_last(rest, key, at);
    }
}

/// The values of a sequence of pairs of texts.
pub open spec fn pair_texts(pairs: Seq<(Vec<char>, Vec<char>)>) -> Seq<(Seq<char>, Seq<char>)> {
    pairs.map_values(|p: (Vec<char>, Vec<char>)| (p.0@, p.1@))
}

/// The parameters of a request: its `key=value` pairs, in order.
pub struct Params {
    pairs: Vec<(Vec<char>, Vec<char>)>,
}

impl View for Params {
    type V = Map<Seq<char>, Seq<char>>;

    /// The parameters as a map from key to value.
    open spec fn view(&self) -> Map<Seq<char>, Seq<char>> {
        to_map(self.pairs())
    }
}

impl Params {
    /// The pairs in the order in which they stood in the text.
    pub closed spec fn pairs(&self) -> Seq<(Seq<char>, Seq<char>)> {
        pair_texts(self.pairs@)
    }

    /// The number of pairs.
    pub fn len(&self) -> (n: usize)
        ensures
            n == self.pairs().len(),
    {
        self.pairs.len()
    }

    fn find(&self, key: &Vec<char>) -> (at: Option<usize>)
        ensures
            match at {
                Some(i) => i < self.pairs@.len() && self@.contains_key(key@) && self@[key@]
                    == self.pairs@[i as int].1@,
                None => !self@.contains_key(key@),
            },
    {
        let ghost pairs = self.pairs();
        let mut i: usize = self.pairs.len();
        while i > 0
            invariant
                i <= self.pairs@.len(),
                pairs == self.pairs(),
                forall|j: int| i <= j < pairs.len() ==> (#[trigger] pairs[j]).0 != key@,
            decreases i,
        {
            i -= 1;
            if same_text(&self.pairs[i].0, key) {
                proof {
                    assert(pairs[i as int].0 == key@);
                    lemma_to_map_last(pairs, key@, i as int);
                }
                return Some(i);
            }
            assert(pairs[i as int].0 != key@);
        }
        proof {
            lemma_to_map_missing(pairs, key@);
        }
        None
    }

    /// The value of `key`, if the parameters hold it.
    pub fn get(&self, key: &str) -> (value: Option<String>)
        ensures
            match value {
                Some(v) => self@.contains_key(key@) && v@ == self@[key@],
                None => !self@.contains_key(key@),
            },
    {
        let key_chars = chars_of(key);
        match self.find(&key_chars) {
            Some(i) => {
                let text = &self.pairs[i].1;
                let value = string_of(text, 0, text.len());
                assert(text@.subrange(0, text@.len() as int) == text@);
                Some(value)
            },
            None => None,
        }
    }

    /// The value of `key` read as a `u32`, if the parameters hold the key
    /// and its value is such a number.
    pub fn get_u32(&self, key: &str) -> (value: Option<u32>)
        ensures
            value == if self@.contains_key(key@) {
                parse_u32_spec(self@[key@])
            } else {
                None
            },
    {
        let key_chars = chars_of(key);
        match self.find(&key_chars) {
            Some(i) => {
                let text = &self.pairs[i].1;
                assert(text@.subrange(0, text@.len() as int) == text@);
                parse_u32_in(text, 0, text.len())
            },
            None => None,
        }
    }
}

/// Reads the `key=value` pairs of `s`, which `'&'` separates.
pub fn parse_pairs_of(chars: &Vec<char>) -> (params: Params)
    ensures
        params.pairs() == parse_pairs_spec(chars@),
{
    let pieces = split(chars, '&');
    let ghost all = texts(pieces@);
    let mut pairs: Vec<(Vec<char>, Vec<char>)> = Vec::new();
    let mut i: usize = 0;
    assert(all.take(0) == Seq::<Seq<char>>::empty());
    assert(pair_texts(pairs@) == Seq::<(Seq<char>, Seq<char>)>::empty());
    while i < pieces.len()
        invariant
            i <= pieces.len(),
            all == texts(pieces@),
            pair_texts(pairs@) == pairs_of(all.take(i as int)),
        decreases pieces.len() - i,
    {
        let piece = &pieces[i];
        let ghost done = all.take(i as int);
        let ghost more = all.take(i + 1);
        assert(more.drop_last() == done);
        assert(more.last() == piece@);
        assert(piece@.subrange(0, piece@.len() as int) == piece@);
        let k = scan_in(piece, 0, piece.len(), CharClass::Is('='));
        if k < piece.len() {
            let key = copy_range(piece, 0, k);
            let value = copy_range(piece, k + 1, piece.len());
            let ghost before = pairs@;
            pairs.push((key, value));
            assert(pair_texts(pairs@) == pair_texts(before).push((key@, value@)));
        }
        i += 1;
    }
    assert(all.take(pieces.len() as int) == all);
    Params { pairs }
}

/// Reads the `key=value` pairs of `s`, which `'&'` separates.
pub fn parse_pairs(s: &str) -> (params: Params)
    ensures
        params.pairs() == parse_pairs_spec(s@),
{
    let chars = chars_of(s);
    parse_pairs_of(&chars)
}

/// Splits a text into its lines.
pub fn lines(chars: &Vec<char>) -> (lines: Vec<Vec<char>>)
    ensures
        texts(lines@) == lines_of(chars@),
{
    let pieces = split(chars, '\n');
    proof {
        lemma_split_len(chars@, '\n');
    }
    let n = pieces.len();
    let ghost all = texts(pieces@);
    let ghost want = lines_of(chars@);
    let mut lines: Vec<Vec<char>> = Vec::new();
    let mut i: usize = 0;
    assert(texts(lines@) == want.take(0));
    while i < n - 1
        invariant
            n == pieces.len(),
            n >= 1,
            i <= n - 1,
            all == texts(pieces@),
            all == split_on(chars@, '\n'),
            want == lines_of(chars@),
            texts(lines@) == want.take(i as int),
        decreases n - 1 - i,
    {
        let piece = &pieces[i];
        let end = if piece.len() > 0 && piece[piece.len() - 1] == '\r' {
            piece.len() - 1
        } else {
            piece.len()
        };
        let line = copy_range(piece, 0, end);
        let ghost before = lines@;
        lines.push(line);
        proof {
            assert(all[i as int] == piece@);
            assert(line@ == strip_cr(piece@));
            assert(texts(lines@) == texts(before).push(line@));
            assert(want.take(i + 1) == want.take(i as int).push(want[i as int]));
        }
        i += 1;
    }
    let piece = &pieces[n - 1];
    if piece.len() > 0 {
        let line = copy_range(piece, 0, piece.len());
        let ghost before = lines@;
        lines.push(line);
        proof {
            assert(all[n - 1] == piece@);
            assert(piece@.subrange(0, piece@.len() as int) == piece@);
            assert(texts(lines@) == texts(before).push(line@));
            assert(want == want.take(n - 1).push(want[n - 1]));
        }
    } else {
        proof {
            assert(all[n - 1] == piece@);
            assert(want.take(n - 1) == want);
        }
    }
    lines
}

impl Request {
    /// Reads a request from the text that a client sent, or `None` where
    /// the text has no line or its first line has fewer than two words.
    pub fn parse(raw: &str) -> (request: Option<Request>)
        ensures
            match request {
                Some(r) => parse_spec(raw@) == Some(r@),
                None => parse_spec(raw@) is None,
            },
    {
        let chars = chars_of(raw);
        let lines = lines(&chars);
        if lines.len() == 0 {
            return None;
        }
        let line = &lines[0];
        let n = line.len();
        proof {
            assert(texts(lines@)[0] == line@);
            assert(line@.skip(0) == line@);
        }
        let a = scan_in(line, 0, n, CharClass::NonSpace);
        assert(line@.subrange(0, n as int) == line@);
        let b = scan_in(line, a, n, CharClass::Space);
        assert(line@.subrange(a as int, n as int) == line@.skip(a as int));
        let c = scan_in(line, b, n, CharClass::NonSpace);
        assert(line@.subrange(b as int, n as int) == line@.skip(b as int));
        let d = scan_in(line, c, n, CharClass::Space);
        assert(line@.subrange(c as int, n as int) == line@.skip(c as int));
        if a >= n || c >= n {
            return None;
        }
        let method = string_of(line, a, b);
        let path = string_of(line, c, d);
        let mut head: usize = 0;
        assert(texts(lines@).skip(0) == texts(lines@));
        while head < lines.len() && lines[head].len() > 0
            invariant
                head <= lines.len(),
                head_len(texts(lines@)) == head + head_len(texts(lines@).skip(head as int)),
            decreases lines.len() - head,
        {
            proof {
                let rest = texts(lines@).skip(head as int);
                assert(rest[0] == lines@[head as int]@);
                assert(rest.drop_first() == texts(lines@).skip(head + 1));
            }
            head += 1;
        }
        proof {
            let rest = texts(lines@).skip(head as int);
            if head < lines.len() {
                assert(rest[0] == lines@[head as int]@);
            }
            assert(head_len(rest) == 0);
        }
        let body = if head >= lines.len() {
            String::new()
        } else {
            join_from(&lines, head + 1, '\n')
        };
        Some(Request { method, path, body })
    }

    /// The `key=value` pairs of the body, which `'&'` separates.
    pub fn parse_body(&self) -> (params: Params)
        ensures
            params.pairs() == parse_pairs_spec(self.body@),
    {
        parse_pairs(self.body.as_str())
    }
}

} // verus!
