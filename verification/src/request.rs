//! The request line: its grammar, and the parser that reads it from the bytes
//! of a connection.
//!
//! A request line is three tokens separated by whitespace:
//! a method, a request target and a protocol version. Only the first line of
//! what a client sends is read; header fields and a body are ignored.

use crate::text::{chars_of, is_space, is_whitespace};
use vstd::prelude::*;
use vstd::utf8::{
    decode_utf8, encode_utf8, encode_utf8_decode_utf8, encode_utf8_valid_utf8, valid_utf8,
};

verus! {

/// A parsed request line.
#[derive(Clone, Debug, PartialEq, Eq)]
pub struct Request {
    pub method: String,
    pub target: String,
    pub version: String,
}

/// The mathematical content of a [`Request`].
pub ghost struct RequestView {
    pub method: Seq<char>,
    pub target: Seq<char>,
    pub version: Seq<char>,
}

impl View for Request {
    type V = RequestView;

    open spec fn view(&self) -> RequestView {
        RequestView { method: self.method@, target: self.target@, version: self.version@ }
    }
}

/// Why the bytes of a connection gave no request.
#[derive(Clone, Copy, Debug, PartialEq, Eq, Structural)]
pub enum ParseError {
    /// Nothing was read.
    Empty,
    /// The bytes are not UTF-8 text.
    InvalidUtf8,
    /// The first line is not `token whitespace token whitespace token`.
    Malformed,
}

/// The end of the run of non-whitespace characters of `s` that starts at
/// `from`: the first index at or after `from` that holds whitespace, or the
/// length of `s`.
pub open spec fn token_end(s: Seq<char>, from: int) -> int
    decreases s.len() - from,
{
    if 0 <= from < s.len() && !is_space(s[from]) {
        token_end(s, from + 1)
    } else {
        from
    }
}

/// The end of the run of whitespace characters of `s` that starts at `from`.
pub open spec fn gap_end(s: Seq<char>, from: int) -> int
    decreases s.len() - from,
{
    if 0 <= from < s.len() && is_space(s[from]) {
        gap_end(s, from + 1)
    } else {
        from
    }
}

/// The first index at or after `from` that holds a line feed, or the length
/// of `s`.
pub open spec fn line_break(s: Seq<char>, from: int) -> int
    decreases s.len() - from,
{
    if 0 <= from < s.len() && s[from] != '\n' {
        line_break(s, from + 1)
    } else {
        from
    }
}

/// The first line of `s`, without its terminator. A line ends at a line feed
/// or at the end of the text; a carriage return just before the line feed
/// belongs to the terminator.
pub open spec fn first_line(s: Seq<char>) -> Seq<char> {
    let n = line_break(s, 0);
    if 0 < n < s.len() && s[n - 1] == '\r' {
        s.subrange(0, n - 1)
    } else {
        s.subrange(0, n)
    }
}

/// The request that `line` spells, if it spells one: the whole line must be
/// a token, whitespace, a token, whitespace and a token.
pub open spec fn parse_line(line: Seq<char>) -> Option<RequestView> {
    let a = token_end(line, 0);
    let b = gap_end(line, a);
    let c = token_end(line, b);
    let d = gap_end(line, c);
    let e = token_end(line, d);
    if 0 < a < b < c < d < e == line.len() {
        Some(
            RequestView {
                method: line.subrange(0, a),
                target: line.subrange(b, c),
                version: line.subrange(d, e),
            },
        )
    } else {
        None
    }
}

/// What the bytes read from a connection hold: nothing, something that is
/// not text, text whose first line is no request line, or a request.
pub open spec fn parse_bytes(bytes: Seq<u8>) -> Result<RequestView, ParseError> {
    if bytes.len() == 0 {
        Err(ParseError::Empty)
    } else if !valid_utf8(bytes) {
        Err(ParseError::InvalidUtf8)
    } else {
        match parse_line(first_line(decode_utf8(bytes))) {
            Some(request) => Ok(request),
            None => Err(ParseError::Malformed),
        }
    }
}

/// A token: one or more characters, none of them whitespace.
pub open spec fn is_token(t: Seq<char>) -> bool {
    t.len() > 0 && forall|i: int| 0 <= i < t.len() ==> !is_space(#[trigger] t[i])
}

/// A gap between tokens: one or more characters, all of them whitespace.
pub open spec fn is_gap(g: Seq<char>) -> bool {
    g.len() > 0 && forall|i: int| 0 <= i < g.len() ==> is_space(#[trigger] g[i])
}

/// `line` is `method`, `gap1`, `target`, `gap2` and `version`, in this order
/// and with nothing else around them.
pub open spec fn spells(
    line: Seq<char>,
    method: Seq<char>,
    gap1: Seq<char>,
    target: Seq<char>,
    gap2: Seq<char>,
    version: Seq<char>,
) -> bool {
    &&& is_token(method)
    &&& is_gap(gap1)
    &&& is_token(target)
    &&& is_gap(gap2)
    &&& is_token(version)
    &&& line == method + gap1 + target + gap2 + version
}

/// Skips the non-whitespace characters of `line` from `from` on.
fn skip_token(line: &Vec<char>, from: usize) -> (end: usize)
    requires
        from <= line@.len(),
    ensures
        end == token_end(line@, from as int),
        from <= end <= line@.len(),
{
    let mut i: usize = from;
    while i < line.len() && !is_whitespace(line[i])
        invariant
            from <= i <= line@.len(),
            token_end(line@, from as int) == token_end(line@, i as int),
        decreases line@.len() - i,
    {
        i += 1;
    }
    i
}

/// Skips the whitespace characters of `line` from `from` on.
fn skip_gap(line: &Vec<char>, from: usize) -> (end: usize)
    requires
        from <= line@.len(),
    ensures
        end == gap_end(line@, from as int),
        from <= end <= line@.len(),
{
    let mut i: usize = from;
    while i < line.len() && is_whitespace(line[i])
        invariant
            from <= i <= line@.len(),
            gap_end(line@, from as int) == gap_end(line@, i as int),
        decreases line@.len() - i,
    {
        i += 1;
    }
    i
}

/// The length of the first line of `text`, terminator excluded.
fn first_line_len(text: &Vec<char>) -> (n: usize)
    ensures
        n <= text@.len(),
        text@.subrange(0, n as int) == first_line(text@),
{
    let mut i: usize = 0;
    while i < text.len() && text[i] != '\n'
        invariant
            i <= text@.len(),
            line_break(text@, 0) == line_break(text@, i as int),
        decreases text@.len() - i,
    {
        i += 1;
    }
    if 0 < i && i < text.len() && text[i - 1] == '\r' {
        i - 1
    } else {
        i
    }
}

/// Reads the request line that begins `text`.
pub fn parse_text(text: &str) -> (r: Option<Request>)
    ensures
        match r {
            Some(request) => parse_line(first_line(text@)) == Some(request@),
            None => parse_line(first_line(text@)) is None,
        },
{
    let mut line = chars_of(text);
    let n = first_line_len(&line);
    line.truncate(n);
    assert(line@ == first_line(text@));
    let a = skip_token(&line, 0);
    let b = skip_gap(&line, a);
    let c = skip_token(&line, b);
    let d = skip_gap(&line, c);
    let e = skip_token(&line, d);
    if 0 < a && a < b && b < c && c < d && d < e && e == line.len() {
        assert(line@.subrange(0, a as int) == text@.subrange(0, a as int));
        assert(line@.subrange(b as int, c as int) == text@.subrange(b as int, c as int));
        assert(line@.subrange(d as int, e as int) == text@.subrange(d as int, e as int));
        Some(
            Request {
                method: text.substring_char(0, a).to_owned(),
                target: text.substring_char(b, c).to_owned(),
                version: text.substring_char(d, e).to_owned(),
            },
        )
    } else {
        None
    }
}

/// Reads a request from the bytes that one read of a connection gave.
pub fn parse_request(bytes: &[u8]) -> (r: Result<Request, ParseError>)
    ensures
        match r {
            Ok(request) => parse_bytes(bytes@) == Ok::<RequestView, ParseError>(request@),
            Err(e) => parse_bytes(bytes@) == Err::<RequestView, ParseError>(e),
        },
{
    if bytes.len() == 0 {
        return Err(ParseError::Empty);
    }
    match core::str::from_utf8(bytes) {
        Err(_) => Err(ParseError::InvalidUtf8),
        Ok(text) => {
            proof {
                encode_utf8_decode_utf8(text@);
            }
            match parse_text(text) {
                Some(request) => Ok(request),
                None => Err(ParseError::Malformed),
            }
        },
    }
}

/// A run of non-whitespace characters from `from` to `to`, followed by
/// whitespace or by the end of `s`, is what `token_end` skips.
proof fn lemma_token_run(s: Seq<char>, from: int, to: int)
    requires
        0 <= from <= to <= s.len(),
        forall|i: int| from <= i < to ==> !is_space(#[trigger] s[i]),
        to == s.len() || is_space(s[to]),
    ensures
        token_end(s, from) == to,
    decreases to - from,
{
    if from < to {
        lemma_token_run(s, from + 1, to);
    }
}

/// A run of whitespace from `from` to `to`, followed by a non-whitespace
/// character or by the end of `s`, is what `gap_end` skips.
proof fn lemma_gap_run(s: Seq<char>, from: int, to: int)
    requires
        0 <= from <= to <= s.len(),
        forall|i: int| from <= i < to ==> is_space(#[trigger] s[i]),
        to == s.len() || !is_space(s[to]),
    ensures
        gap_end(s, from) == to,
    decreases to - from,
{
    if from < to {
        lemma_gap_run(s, from + 1, to);
    }
}

/// What `token_end` skips holds no whitespace, and whitespace or the end of
/// `s` follows it.
proof fn lemma_token_end(s: Seq<char>, from: int)
    requires
        0 <= from <= s.len(),
    ensures
        from <= token_end(s, from) <= s.len(),
        forall|i: int| from <= i < token_end(s, from) ==> !is_space(#[trigger] s[i]),
        token_end(s, from) == s.len() || is_space(s[token_end(s, from)]),
    decreases s.len() - from,
{
    if from < s.len() && !is_space(s[from]) {
        lemma_token_end(s, from + 1);
    }
}

/// What `gap_end` skips is whitespace, and a non-whitespace character or the
/// end of `s` follows it.
proof fn lemma_gap_end(s: Seq<char>, from: int)
    requires
        0 <= from <= s.len(),
    ensures
        from <= gap_end(s, from) <= s.len(),
        forall|i: int| from <= i < gap_end(s, from) ==> is_space(#[trigger] s[i]),
        gap_end(s, from) == s.len() || !is_space(s[gap_end(s, from)]),
    decreases s.len() - from,
{
    if from < s.len() && is_space(s[from]) {
        lemma_gap_end(s, from + 1);
    }
}

/// Every well-formed request line is read as the request it spells: the
/// method, the target and the version come out exactly as written, whatever
/// the version is and however much whitespace separates the three.
pub proof fn lemma_parse_line_accepts(
    method: Seq<char>,
    gap1: Seq<char>,
    target: Seq<char>,
    gap2: Seq<char>,
    version: Seq<char>,
)
    requires
        is_token(method),
        is_gap(gap1),
        is_token(target),
        is_gap(gap2),
        is_token(version),
    ensures
        parse_line(method + gap1 + target + gap2 + version) == Some(
            RequestView { method, target, version },
        ),
{
    let line = method + gap1 + target + gap2 + version;
    let a = method.len() as int;
    let b = a + gap1.len();
    let c = b + target.len();
    let d = c + gap2.len();
    let e = d + version.len();
    assert(line.len() == e);
    assert forall|i: int| 0 <= i < a implies !is_space(#[trigger] line[i]) by {
        assert(line[i] == method[i]);
    }
    assert forall|i: int| a <= i < b implies is_space(#[trigger] line[i]) by {
        assert(line[i] == gap1[i - a]);
    }
    assert forall|i: int| b <= i < c implies !is_space(#[trigger] line[i]) by {
        assert(line[i] == target[i - b]);
    }
    assert forall|i: int| c <= i < d implies is_space(#[trigger] line[i]) by {
        assert(line[i] == gap2[i - c]);
    }
    assert forall|i: int| d <= i < e implies !is_space(#[trigger] line[i]) by {
        assert(line[i] == version[i - d]);
    }
    lemma_token_run(line, 0, a);
    lemma_gap_run(line, a, b);
    lemma_token_run(line, b, c);
    lemma_gap_run(line, c, d);
    lemma_token_run(line, d, e);
    assert(line.subrange(0, a) == method);
    assert(line.subrange(b, c) == target);
    assert(line.subrange(d, e) == version);
}

/// A request is read only from a well-formed request line: whenever
/// `parse_line` gives a request, the line is that request's method, target
/// and version with whitespace between them and nothing else.
pub proof fn lemma_parse_line_sound(line: Seq<char>)
    ensures
        parse_line(line) matches Some(request) ==> exists|gap1: Seq<char>, gap2: Seq<char>|
            spells(line, request.method, gap1, request.target, gap2, request.version),
{
    if let Some(request) = parse_line(line) {
        let a = token_end(line, 0);
        let b = gap_end(line, a);
        let c = token_end(line, b);
        let d = gap_end(line, c);
        let e = token_end(line, d);
        lemma_token_end(line, 0);
        lemma_gap_end(line, a);
        lemma_token_end(line, b);
        lemma_gap_end(line, c);
        lemma_token_end(line, d);
        let gap1 = line.subrange(a, b);
        let gap2 = line.subrange(c, d);
        assert(line == request.method + gap1 + request.target + gap2 + request.version);
        assert(spells(line, request.method, gap1, request.target, gap2, request.version));
    }
}

/// A line that is not `token whitespace token whitespace token` gives no
/// request.
pub proof fn lemma_parse_line_rejects(line: Seq<char>)
    requires
        forall|
            method: Seq<char>,
            gap1: Seq<char>,
            target: Seq<char>,
            gap2: Seq<char>,
            version: Seq<char>,
        |
            !spells(line, method, gap1, target, gap2, version),
    ensures
        parse_line(line) is None,
{
    lemma_parse_line_sound(line);
}

/// `line_break` finds the first line feed at or after `from`.
proof fn lemma_line_break(s: Seq<char>, from: int, at: int)
    requires
        0 <= from <= at <= s.len(),
        forall|i: int| from <= i < at ==> #[trigger] s[i] != '\n',
        at == s.len() || s[at] == '\n',
    ensures
        line_break(s, from) == at,
    decreases at - from,
{
    if from < at {
        lemma_line_break(s, from + 1, at);
    }
}

/// A text without a line feed is its own first line.
pub proof fn lemma_first_line_alone(line: Seq<char>)
    requires
        forall|i: int| 0 <= i < line.len() ==> #[trigger] line[i] != '\n',
    ensures
        first_line(line) == line,
{
    lemma_line_break(line, 0, line.len() as int);
}

/// What precedes the first line feed is the first line, unless it ends in a
/// carriage return.
pub proof fn lemma_first_line_before_lf(line: Seq<char>, rest: Seq<char>)
    requires
        forall|i: int| 0 <= i < line.len() ==> #[trigger] line[i] != '\n',
        line.len() == 0 || line.last() != '\r',
    ensures
        first_line(line + seq!['\n'] + rest) == line,
{
    let text = line + seq!['\n'] + rest;
    lemma_line_break(text, 0, line.len() as int);
    assert(text.subrange(0, line.len() as int) == line);
}

/// What precedes a carriage return and the first line feed is the first
/// line.
pub proof fn lemma_first_line_before_crlf(line: Seq<char>, rest: Seq<char>)
    requires
        forall|i: int| 0 <= i < line.len() ==> #[trigger] line[i] != '\n',
    ensures
        first_line(line + seq!['\r', '\n'] + rest) == line,
{
    let text = line + seq!['\r', '\n'] + rest;
    lemma_line_break(text, 0, line.len() as int + 1);
    assert(text.subrange(0, line.len() as int) == line);
}

/// Text that is sent as UTF-8 is read as what its first line spells.
pub proof fn lemma_parse_bytes_of_text(text: Seq<char>)
    requires
        text.len() > 0,
    ensures
        parse_bytes(encode_utf8(text)) == match parse_line(first_line(text)) {
            Some(request) => Ok::<RequestView, ParseError>(request),
            None => Err::<RequestView, ParseError>(ParseError::Malformed),
        },
{
    let bytes = encode_utf8(text);
    encode_utf8_valid_utf8(text);
    encode_utf8_decode_utf8(text);
    if bytes.len() == 0 {
        assert(decode_utf8(bytes).len() == 0);
    }
}

/// The parts of a request line hold no line feed if the whitespace between
/// them holds none.
proof fn lemma_line_has_no_line_feed(
    line: Seq<char>,
    method: Seq<char>,
    gap1: Seq<char>,
    target: Seq<char>,
    gap2: Seq<char>,
    version: Seq<char>,
)
    requires
        line == method + gap1 + target + gap2 + version,
        is_token(method),
        is_token(target),
        is_token(version),
        forall|i: int| 0 <= i < gap1.len() ==> #[trigger] gap1[i] != '\n',
        forall|i: int| 0 <= i < gap2.len() ==> #[trigger] gap2[i] != '\n',
    ensures
        forall|i: int| 0 <= i < line.len() ==> #[trigger] line[i] != '\n',
{
    let a = method.len() as int;
    let b = a + gap1.len();
    let c = b + target.len();
    let d = c + gap2.len();
    assert(is_space('\n'));
    assert forall|i: int| 0 <= i < line.len() implies #[trigger] line[i] != '\n' by {
        if i < a {
            assert(line[i] == method[i]);
        } else if i < b {
            assert(line[i] == gap1[i - a]);
        } else if i < c {
            assert(line[i] == target[i - b]);
        } else if i < d {
            assert(line[i] == gap2[i - c]);
        } else {
            assert(line[i] == version[i - d]);
        }
    }
}

/// A request line that is sent as UTF-8, ended by a carriage return and a
/// line feed and followed by anything at all, is read as the request it
/// spells, provided that the whitespace between its parts holds no line
/// feed.
pub proof fn lemma_parse_bytes_accepts(
    method: Seq<char>,
    gap1: Seq<char>,
    target: Seq<char>,
    gap2: Seq<char>,
    version: Seq<char>,
    rest: Seq<char>,
)
    requires
        is_token(method),
        is_gap(gap1),
        is_token(target),
        is_gap(gap2),
        is_token(version),
        forall|i: int| 0 <= i < gap1.len() ==> #[trigger] gap1[i] != '\n',
        forall|i: int| 0 <= i < gap2.len() ==> #[trigger] gap2[i] != '\n',
    ensures
        parse_bytes(
            encode_utf8(method + gap1 + target + gap2 + version + seq!['\r', '\n'] + rest),
        ) == Ok::<RequestView, ParseError>(RequestView { method, target, version }),
{
    let line = method + gap1 + target + gap2 + version;
    let text = line + seq!['\r', '\n'] + rest;
    assert(first_line(text) == line) by {
        lemma_line_has_no_line_feed(line, method, gap1, target, gap2, version);
        lemma_first_line_before_crlf(line, rest);
    }
    assert(parse_line(line) == Some(RequestView { method, target, version })) by {
        lemma_parse_line_accepts(method, gap1, target, gap2, version);
    }
    assert(text.len() > 0);
    lemma_parse_bytes_of_text(text);
}

} // verus!
