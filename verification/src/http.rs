//! Reading an HTTP request: the head up to the blank line, then a body of the declared
//! `Content-Length`.
//!
//! `HttpRequestReader` takes the bytes of a connection chunk by chunk and says, after each
//! chunk or at end of input, whether it needs more or what the request is. Whoever reads
//! the connection feeds it.
use vstd::prelude::*;

use crate::text::{chars_eq_ignore_ascii_case, chars_of, eq_ignore_ascii_case, slice_chars, trim, trim_chars};
use crate::validators::allowance::{all_dec_digits, decimal_value};

verus! {

/// The text that `String::from_utf8_lossy` makes of a byte string (invalid UTF-8 sequences
/// replaced by U+FFFD).
pub uninterp spec fn utf8_lossy_text(bytes: Seq<u8>) -> Seq<char>;

/// Calls `String::from_utf8_lossy` and takes ownership of the result. Trusted: the
/// contract names the result after the bytes, and states what std documents of valid
/// UTF-8, here for ASCII input (the empty input among it): it comes back unchanged. It
/// says nothing of how other bytes are decoded.
#[verifier::external_body]
fn utf8_lossy(bytes: &Vec<u8>) -> (s: String)
    ensures
        s@ == utf8_lossy_text(bytes@),
        (forall|i: int| 0 <= i < bytes@.len() ==> bytes@[i] < 128) ==> s@ == bytes@.map_values(
            |b: u8| b as char,
        ),
{
    String::from_utf8_lossy(bytes.as_slice()).into_owned()
}

/// `usize::from_str`: an optional `+`, then one or more ASCII digits denoting at most
/// `usize::MAX`.
pub open spec fn spec_parse_usize(s: Seq<char>) -> Option<nat> {
    let digits = if s.len() > 0 && s[0] == '+' {
        s.drop_first()
    } else {
        s
    };
    if digits.len() > 0 && all_dec_digits(digits) && decimal_value(digits) <= usize::MAX {
        Some(decimal_value(digits))
    } else {
        None
    }
}

/// The position of the first `c` in `s`, if any.
pub open spec fn find_char(s: Seq<char>, c: char) -> Option<int>
    decreases s.len(),
{
    if s.len() == 0 {
        None
    } else if s[0] == c {
        Some(0int)
    } else {
        match find_char(s.drop_first(), c) {
            Some(k) => Some(k + 1),
            None => None,
        }
    }
}

/// What `find_char` finds lies within the sequence.
pub proof fn lemma_find_char_bound(s: Seq<char>, c: char)
    ensures
        find_char(s, c) matches Some(k) ==> 0 <= k < s.len() && s[k] == c,
    decreases s.len(),
{
    if s.len() > 0 && s[0] != c {
        lemma_find_char_bound(s.drop_first(), c);
    }
}

/// The content length a header line declares: the trimmed line split at its first `:`,
/// a name that is `content-length` ignoring ASCII case once trimmed, and a trimmed value
/// that parses as a `usize`.
pub open spec fn line_content_length(line: Seq<char>) -> Option<nat> {
    let t = trim(line);
    match find_char(t, ':') {
        Some(c) => if eq_ignore_ascii_case(trim(t.subrange(0, c)), "content-length"@) {
            spec_parse_usize(trim(t.subrange(c + 1, t.len() as int)))
        } else {
            None
        },
        None => None,
    }
}

/// `parse_content_length`: the first line of the head (lines split at `\n`) that declares a
/// content length.
pub open spec fn spec_parse_content_length(text: Seq<char>) -> Option<nat>
    decreases text.len(),
{
    proof {
        lemma_find_char_bound(text, '\n');
    }
    match find_char(text, '\n') {
        Some(n) => match line_content_length(text.subrange(0, n)) {
            Some(v) => Some(v),
            None => spec_parse_content_length(text.subrange(n + 1, text.len() as int)),
        },
        None => line_content_length(text),
    }
}

/// `\r\n\r\n` starts at position `i` of `b`.
pub open spec fn terminator_at(b: Seq<u8>, i: int) -> bool {
    0 <= i && i + 4 <= b.len() && b[i] == 13 && b[i + 1] == 10 && b[i + 2] == 13 && b[i + 3] == 10
}

/// The first position at or after `start` where `\r\n\r\n` starts, if any.
pub open spec fn first_terminator_from(b: Seq<u8>, start: int) -> Option<int>
    decreases b.len() - start,
{
    if start < 0 || start + 4 > b.len() {
        None
    } else if terminator_at(b, start) {
        Some(start)
    } else {
        first_terminator_from(b, start + 1)
    }
}

/// The position where the head ends: the first `\r\n\r\n`.
pub open spec fn first_terminator(b: Seq<u8>) -> Option<int> {
    first_terminator_from(b, 0)
}

/// Where the reader stands.
pub enum ReaderState {
    /// Still looking for the end of the head, with every byte read so far.
    Header { buffer: Seq<u8> },
    /// The head declared a content length; the body read so far is shorter.
    Body { header: Seq<char>, body: Seq<u8>, content_length: nat },
    /// The request has been handed out.
    Done,
}

/// What the reader says after a chunk or at end of input.
pub enum ReadStepView {
    NeedMore,
    Complete { header: Seq<char>, body: Seq<char> },
    IncompleteBody,
}

/// What the reader says after a chunk or at end of input.
pub enum ReadStep {
    /// More input is needed.
    NeedMore,
    /// The request's head and body, decoded as UTF-8 with replacement characters.
    Complete(String, String),
    /// Input ended before the declared `Content-Length` was reached.
    IncompleteBody,
}

impl View for ReadStep {
    type V = ReadStepView;

    open spec fn view(&self) -> ReadStepView {
        match self {
            ReadStep::NeedMore => ReadStepView::NeedMore,
            ReadStep::Complete(h, b) => ReadStepView::Complete { header: h@, body: b@ },
            ReadStep::IncompleteBody => ReadStepView::IncompleteBody,
        }
    }
}

/// The body once `body` holds at least the declared length, cut to that length.
pub open spec fn body_step(header: Seq<char>, body: Seq<u8>, content_length: nat) -> (ReaderState, ReadStepView) {
    if body.len() >= content_length {
        (
            ReaderState::Done,
            ReadStepView::Complete {
                header,
                body: utf8_lossy_text(body.subrange(0, content_length as int)),
            },
        )
    } else {
        (ReaderState::Body { header, body, content_length }, ReadStepView::NeedMore)
    }
}

/// The head has been found in `buffer` at `end`: complete without a declared length,
/// else go on reading the body.
pub open spec fn head_found(buffer: Seq<u8>, end: int) -> (ReaderState, ReadStepView) {
    let header = utf8_lossy_text(buffer.subrange(0, end));
    let body = buffer.subrange(end + 4, buffer.len() as int);
    match spec_parse_content_length(header) {
        None => (ReaderState::Done, ReadStepView::Complete { header, body: utf8_lossy_text(body) }),
        Some(n) => body_step(header, body, n),
    }
}

/// The reader after a chunk of input, and what it says.
pub open spec fn spec_feed(state: ReaderState, chunk: Seq<u8>) -> (ReaderState, ReadStepView) {
    match state {
        ReaderState::Header { buffer } => {
            let b = buffer + chunk;
            match first_terminator(b) {
                None => (ReaderState::Header { buffer: b }, ReadStepView::NeedMore),
                Some(end) => head_found(b, end),
            }
        },
        ReaderState::Body { header, body, content_length } => body_step(
            header,
            body + chunk,
            content_length,
        ),
        ReaderState::Done => (ReaderState::Done, ReadStepView::NeedMore),
    }
}

/// What the reader says at end of input: a head without its blank line is the whole
/// input, with an empty body; a body shorter than declared is an error.
pub open spec fn spec_finish(state: ReaderState) -> ReadStepView {
    match state {
        ReaderState::Header { buffer } => ReadStepView::Complete {
            header: utf8_lossy_text(buffer),
            body: utf8_lossy_text(Seq::empty()),
        },
        ReaderState::Body { .. } => ReadStepView::IncompleteBody,
        ReaderState::Done => ReadStepView::NeedMore,
    }
}

enum Phase {
    Header(Vec<u8>),
    Body(String, Vec<u8>, usize),
    Done,
}

/// An HTTP request being read, chunk by chunk.
pub struct HttpRequestReader {
    phase: Phase,
}

impl View for HttpRequestReader {
    type V = ReaderState;

    closed spec fn view(&self) -> ReaderState {
        match self.phase {
            Phase::Header(b) => ReaderState::Header { buffer: b@ },
            Phase::Body(h, b, n) => ReaderState::Body { header: h@, body: b@, content_length: n as nat },
            Phase::Done => ReaderState::Done,
        }
    }
}

/// A copy of `v[from..to]`.
fn copy_bytes(v: &Vec<u8>, from: usize, to: usize) -> (r: Vec<u8>)
    requires
        from <= to <= v@.len(),
    ensures
        r@ == v@.subrange(from as int, to as int),
{
    let mut r: Vec<u8> = Vec::new();
    let mut k = from;
    while k < to
        invariant
            from <= k <= to <= v@.len(),
            r@ == v@.subrange(from as int, k as int),
        decreases to - k,
    {
        r.push(v[k]);
        k = k + 1;
        assert(r@ =~= v@.subrange(from as int, k as int));
    }
    r
}

/// `v` followed by `chunk`.
fn append_bytes(v: &mut Vec<u8>, chunk: &[u8])
    ensures
        final(v)@ == old(v)@ + chunk@,
{
    let mut k: usize = 0;
    let ghost start = v@;
    while k < chunk.len()
        invariant
            k <= chunk@.len(),
            v@ == start + chunk@.subrange(0, k as int),
        decreases chunk@.len() - k,
    {
        v.push(chunk[k]);
        k = k + 1;
        assert(v@ =~= start + chunk@.subrange(0, k as int));
    }
    assert(chunk@.subrange(0, k as int) =~= chunk@);
}

/// The position of the first `\r\n\r\n` in `b`.
fn find_terminator(b: &Vec<u8>) -> (r: Option<usize>)
    ensures
        match r {
            Some(k) => first_terminator(b@) == Some(k as int),
            None => first_terminator(b@) is None,
        },
{
    let n = b.len();
    let mut i: usize = 0;
    while n - i >= 4
        invariant
            i <= n,
            n == b@.len(),
            first_terminator(b@) == first_terminator_from(b@, i as int),
        decreases n - i,
    {
        if b[i] == 13 && b[i + 1] == 10 && b[i + 2] == 13 && b[i + 3] == 10 {
            return Some(i);
        }
        i = i + 1;
    }
    None
}

/// The position of the first `c` in `s`.
fn find_char_exec(s: &Vec<char>, c: char) -> (r: Option<usize>)
    ensures
        match r {
            Some(k) => find_char(s@, c) == Some(k as int) && k < s@.len(),
            None => find_char(s@, c) is None,
        },
{
    let mut k: usize = 0;
    assert(s@.subrange(0, s@.len() as int) =~= s@);
    while k < s.len()
        invariant
            k <= s@.len(),
            find_char(s@, c) == match find_char(s@.subrange(k as int, s@.len() as int), c) {
                Some(m) => Some(m + k),
                None => None::<int>,
            },
        decreases s@.len() - k,
    {
        assert(s@.subrange(k as int, s@.len() as int).drop_first() =~= s@.subrange(k + 1, s@.len() as int));
        if s[k] == c {
            return Some(k);
        }
        k = k + 1;
    }
    None
}

/// A decimal value only grows as digits are appended.
proof fn lemma_decimal_value_prefix(s: Seq<char>, k: int)
    requires
        0 <= k <= s.len(),
    ensures
        decimal_value(s.subrange(0, k)) <= decimal_value(s),
    decreases s.len() - k,
{
    if k < s.len() {
        lemma_decimal_value_prefix(s, k + 1);
        assert(s.subrange(0, k + 1).drop_last() =~= s.subrange(0, k));
    } else {
        assert(s.subrange(0, k) =~= s);
    }
}

/// `usize::from_str` on the characters `s`.
fn parse_usize(s: &Vec<char>) -> (r: Option<usize>)
    ensures
        match r {
            Some(v) => spec_parse_usize(s@) == Some(v as nat),
            None => spec_parse_usize(s@) is None,
        },
{
    let start: usize = if s.len() > 0 && s[0] == '+' {
        1
    } else {
        0
    };
    let ghost digits = if s@.len() > 0 && s@[0] == '+' {
        s@.drop_first()
    } else {
        s@
    };
    assert(digits =~= s@.subrange(start as int, s@.len() as int));
    if start == s.len() {
        return None;
    }
    let mut value: usize = 0;
    let mut k: usize = start;
    assert(digits.subrange(0, 0) =~= Seq::<char>::empty());
    while k < s.len()
        invariant
            start <= k <= s@.len(),
            start < s@.len(),
            digits == s@.subrange(start as int, s@.len() as int),
            digits == (if s@.len() > 0 && s@[0] == '+' {
                s@.drop_first()
            } else {
                s@
            }),
            all_dec_digits(digits.subrange(0, k - start)),
            value as nat == decimal_value(digits.subrange(0, k - start)),
        decreases s@.len() - k,
    {
        let c = s[k];
        let ghost j: int = k - start;
        assert(digits[j] == c);
        if !('0' <= c && c <= '9') {
            assert(!crate::validators::allowance::is_dec_digit(digits[j]));
            return None;
        }
        let d: usize = ((c as u32) - 48) as usize;
        assert(digits.subrange(0, j + 1).drop_last() =~= digits.subrange(0, j));
        assert forall|i: int| 0 <= i < j + 1 implies crate::validators::allowance::is_dec_digit(
            #[trigger] digits.subrange(0, j + 1)[i],
        ) by {
            if i < j {
                assert(digits.subrange(0, j + 1)[i] == digits.subrange(0, j)[i]);
            }
        }
        if value > (usize::MAX - d) / 10 {
            proof {
                lemma_decimal_value_prefix(digits, j + 1);
                let m = usize::MAX - d;
                assert(value * 10 + d > usize::MAX) by (nonlinear_arith)
                    requires
                        value > m / 10,
                        m == usize::MAX - d,
                        d <= 9,
                ;
            }
            return None;
        }
        proof {
            let m = usize::MAX - d;
            assert(value * 10 + d <= usize::MAX) by (nonlinear_arith)
                requires
                    value <= m / 10,
                    m == usize::MAX - d,
                    d <= 9,
            ;
        }
        value = value * 10 + d;
        k = k + 1;
    }
    assert(digits.subrange(0, k - start) =~= digits);
    Some(value)
}

/// The content length that the head declares, if any: the first header line named
/// `Content-Length` (ignoring ASCII case) whose value parses as a `usize`.
pub fn parse_content_length(header_text: &str) -> (r: Option<usize>)
    ensures
        match r {
            Some(v) => spec_parse_content_length(header_text@) == Some(v as nat),
            None => spec_parse_content_length(header_text@) is None,
        },
{
    let text = chars_of(header_text);
    let mut rest = text;
    loop
        invariant
            spec_parse_content_length(header_text@) == spec_parse_content_length(rest@),
        decreases rest@.len(),
    {
        let newline = find_char_exec(&rest, '\n');
        let line = match newline {
            Some(n) => slice_chars(&rest, 0, n),
            None => slice_chars(&rest, 0, rest.len()),
        };
        assert(newline is None ==> line@ =~= rest@);
        let found = line_content_length_exec(&line);
        match found {
            Some(v) => {
                return Some(v);
            },
            None => {},
        }
        match newline {
            Some(n) => {
                rest = slice_chars(&rest, n + 1, rest.len());
            },
            None => {
                return None;
            },
        }
    }
}

/// The content length one header line declares.
fn line_content_length_exec(line: &Vec<char>) -> (r: Option<usize>)
    ensures
        match r {
            Some(v) => line_content_length(line@) == Some(v as nat),
            None => line_content_length(line@) is None,
        },
{
    let t = trim_chars(line);
    match find_char_exec(&t, ':') {
        Some(c) => {
            let name = trim_chars(&slice_chars(&t, 0, c));
            let expected = chars_of("content-length");
            if chars_eq_ignore_ascii_case(&name, &expected) {
                let len = t.len();
                let value = trim_chars(&slice_chars(&t, c + 1, len));
                parse_usize(&value)
            } else {
                None
            }
        },
        None => None,
    }
}

impl HttpRequestReader {
    /// A reader that has seen nothing yet.
    pub fn new() -> (r: Self)
        ensures
            r@ == (ReaderState::Header { buffer: Seq::empty() }),
    {
        HttpRequestReader { phase: Phase::Header(Vec::new()) }
    }

    /// The reader has handed out a request or an error; it answers `NeedMore` from then on.
    pub open spec fn is_done(&self) -> bool {
        self@ is Done
    }

    /// Takes the next chunk of input.
    pub fn feed(&mut self, chunk: &[u8]) -> (r: ReadStep)
        ensures
            (final(self)@, r@) == spec_feed(old(self)@, chunk@),
    {
        let mut phase = Phase::Done;
        std::mem::swap(&mut phase, &mut self.phase);
        match phase {
            Phase::Header(buffer) => {
                let mut buffer = buffer;
                append_bytes(&mut buffer, chunk);
                match find_terminator(&buffer) {
                    None => {
                        self.phase = Phase::Header(buffer);
                        ReadStep::NeedMore
                    },
                    Some(end) => self.head_found(buffer, end),
                }
            },
            Phase::Body(header, body, content_length) => {
                let mut body = body;
                append_bytes(&mut body, chunk);
                self.body_step(header, body, content_length)
            },
            Phase::Done => ReadStep::NeedMore,
        }
    }

    fn head_found(&mut self, buffer: Vec<u8>, end: usize) -> (r: ReadStep)
        requires
            first_terminator(buffer@) == Some(end as int),
        ensures
            (final(self)@, r@) == head_found(buffer@, end as int),
    {
        proof {
            lemma_first_terminator_found(buffer@, 0);
            assert(terminator_at(buffer@, end as int));
        }
        let len = buffer.len();
        let header_bytes = copy_bytes(&buffer, 0, end);
        let body = copy_bytes(&buffer, end + 4, len);
        let header_text = utf8_lossy(&header_bytes);
        match parse_content_length(header_text.as_str()) {
            None => {
                self.phase = Phase::Done;
                let body_text = utf8_lossy(&body);
                ReadStep::Complete(header_text, body_text)
            },
            Some(content_length) => self.body_step(header_text, body, content_length),
        }
    }

    fn body_step(&mut self, header: String, body: Vec<u8>, content_length: usize) -> (r: ReadStep)
        ensures
            (final(self)@, r@) == body_step(header@, body@, content_length as nat),
    {
        if body.len() >= content_length {
            self.phase = Phase::Done;
            let kept = copy_bytes(&body, 0, content_length);
            let body_text = utf8_lossy(&kept);
            ReadStep::Complete(header, body_text)
        } else {
            self.phase = Phase::Body(header, body, content_length);
            ReadStep::NeedMore
        }
    }

    /// Takes the end of input.
    pub fn finish(&mut self) -> (r: ReadStep)
        ensures
            r@ == spec_finish(old(self)@),
            final(self).is_done(),
    {
        let mut phase = Phase::Done;
        std::mem::swap(&mut phase, &mut self.phase);
        match phase {
            Phase::Header(buffer) => {
                let header = utf8_lossy(&buffer);
                let empty: Vec<u8> = Vec::new();
                let body = utf8_lossy(&empty);
                ReadStep::Complete(header, body)
            },
            Phase::Body(..) => ReadStep::IncompleteBody,
            Phase::Done => ReadStep::NeedMore,
        }
    }
}

/// What the first terminator search finds lies within the bytes.
proof fn lemma_first_terminator_found(b: Seq<u8>, start: int)
    requires
        0 <= start,
        first_terminator_from(b, start) is Some,
    ensures
        terminator_at(b, first_terminator_from(b, start)->0),
        start <= first_terminator_from(b, start)->0,
    decreases b.len() - start,
{
    if !terminator_at(b, start) {
        lemma_first_terminator_found(b, start + 1);
    }
}

/// Where the head ends does not change when more bytes follow.
pub proof fn lemma_first_terminator_extend(b: Seq<u8>, more: Seq<u8>, start: int)
    requires
        0 <= start,
        first_terminator_from(b, start) is Some,
    ensures
        first_terminator_from(b + more, start) == first_terminator_from(b, start),
    decreases b.len() - start,
{
    assert(terminator_at(b + more, start) == terminator_at(b, start)) by {
        if start + 4 <= b.len() {
            assert((b + more)[start] == b[start]);
            assert((b + more)[start + 1] == b[start + 1]);
            assert((b + more)[start + 2] == b[start + 2]);
            assert((b + more)[start + 3] == b[start + 3]);
        }
    }
    if !terminator_at(b, start) {
        lemma_first_terminator_extend(b, more, start + 1);
    }
}

/// Reading a chunk in two pieces, where the first piece leaves the reader wanting more,
/// ends as reading it whole does: the same state and the same answer.
pub proof fn law_feed_split(state: ReaderState, a: Seq<u8>, b: Seq<u8>)
    requires
        spec_feed(state, a).1 == ReadStepView::NeedMore,
    ensures
        spec_feed(spec_feed(state, a).0, b) == spec_feed(state, a + b),
{
    match state {
        ReaderState::Header { buffer } => {
            assert(buffer + a + b =~= buffer + (a + b));
            match first_terminator(buffer + a) {
                None => {},
                Some(end) => {
                    lemma_first_terminator_extend(buffer + a, b, 0);
                    lemma_first_terminator_found(buffer + a, 0);
                    assert((buffer + a).subrange(0, end) =~= (buffer + a + b).subrange(0, end));
                    assert((buffer + a).subrange(end + 4, (buffer + a).len() as int) + b =~= (buffer
                        + a + b).subrange(end + 4, (buffer + a + b).len() as int));
                },
            }
        },
        ReaderState::Body { header, body, content_length } => {
            assert(body + a + b =~= body + (a + b));
        },
        ReaderState::Done => {},
    }
}

/// The bytes of `chunks`, one after another.
pub open spec fn concat_chunks(chunks: Seq<Seq<u8>>) -> Seq<u8>
    decreases chunks.len(),
{
    if chunks.len() == 0 {
        Seq::empty()
    } else {
        chunks[0] + concat_chunks(chunks.drop_first())
    }
}

/// The reader after taking `chunks` in turn, stopping at the first answer other than
/// `NeedMore`, and that answer.
pub open spec fn feed_all(state: ReaderState, chunks: Seq<Seq<u8>>) -> (ReaderState, ReadStepView)
    decreases chunks.len(),
{
    if chunks.len() == 0 {
        (state, ReadStepView::NeedMore)
    } else if spec_feed(state, chunks[0]).1 == ReadStepView::NeedMore {
        feed_all(spec_feed(state, chunks[0]).0, chunks.drop_first())
    } else {
        spec_feed(state, chunks[0])
    }
}

/// Reading chunks in turn, where all but the last leave the reader wanting more, ends as
/// reading their concatenation at once does: the same state and the same answer.
pub proof fn law_feed_chunks(state: ReaderState, chunks: Seq<Seq<u8>>)
    requires
        chunks.len() > 0,
        feed_all(state, chunks.drop_last()).1 == ReadStepView::NeedMore,
    ensures
        feed_all(state, chunks) == spec_feed(state, concat_chunks(chunks)),
    decreases chunks.len(),
{
    let c0 = chunks[0];
    let rest = chunks.drop_first();
    if chunks.len() == 1 {
        assert(rest.len() == 0);
        assert(concat_chunks(rest) =~= Seq::<u8>::empty());
        assert(c0 + concat_chunks(rest) =~= c0);
        assert(concat_chunks(chunks) =~= c0);
        assert(feed_all(spec_feed(state, c0).0, rest) == (spec_feed(state, c0).0, ReadStepView::NeedMore));
    } else {
        let dl = chunks.drop_last();
        assert(dl[0] == c0);
        assert(dl.drop_first() =~= rest.drop_last());
        assert(spec_feed(state, c0).1 == ReadStepView::NeedMore);
        let s1 = spec_feed(state, c0).0;
        law_feed_chunks(s1, rest);
        law_feed_split(state, c0, concat_chunks(rest));
    }
}

/// The head of the input so far, with `x` after it, declares a content length (or has
/// already done so).
pub open spec fn declares_length(state: ReaderState, x: Seq<u8>) -> bool {
    match state {
        ReaderState::Header { buffer } => match first_terminator(buffer + x) {
            Some(p) => spec_parse_content_length(utf8_lossy_text((buffer + x).subrange(0, p))) is Some,
            None => false,
        },
        ReaderState::Body { .. } => true,
        ReaderState::Done => false,
    }
}

/// Once a request with a declared length is complete, more input changes nothing.
proof fn lemma_complete_is_stable(state: ReaderState, x: Seq<u8>, y: Seq<u8>)
    requires
        declares_length(state, x),
        spec_feed(state, x).1 != ReadStepView::NeedMore,
    ensures
        spec_feed(state, x + y).1 == spec_feed(state, x).1,
{
    match state {
        ReaderState::Header { buffer } => {
            let b = buffer + x;
            let p = first_terminator(b)->0;
            assert(buffer + (x + y) =~= b + y);
            lemma_first_terminator_extend(b, y, 0);
            lemma_first_terminator_found(b, 0);
            assert((b + y).subrange(0, p) =~= b.subrange(0, p));
            let body = b.subrange(p + 4, b.len() as int);
            assert((b + y).subrange(p + 4, (b + y).len() as int) =~= body + y);
            let n = spec_parse_content_length(utf8_lossy_text(b.subrange(0, p)))->0;
            assert((body + y).subrange(0, n as int) =~= body.subrange(0, n as int));
        },
        ReaderState::Body { header, body, content_length } => {
            assert(body + (x + y) =~= (body + x) + y);
            assert(((body + x) + y).subrange(0, content_length as int) =~= (body + x).subrange(
                0,
                content_length as int,
            ));
        },
        ReaderState::Done => {},
    }
}

/// Reading chunks in turn gives the answer that their concatenation gives, when that
/// answer completes a request of declared length.
proof fn lemma_declared_length_chunks(state: ReaderState, chunks: Seq<Seq<u8>>)
    requires
        chunks.len() > 0,
        declares_length(state, concat_chunks(chunks)),
        spec_feed(state, concat_chunks(chunks)).1 != ReadStepView::NeedMore,
    ensures
        feed_all(state, chunks).1 == spec_feed(state, concat_chunks(chunks)).1,
    decreases chunks.len(),
{
    let c0 = chunks[0];
    let rest = chunks.drop_first();
    let all = concat_chunks(chunks);
    assert(all == c0 + concat_chunks(rest));
    if spec_feed(state, c0).1 != ReadStepView::NeedMore {
        match state {
            ReaderState::Header { buffer } => {
                let p = first_terminator(buffer + c0)->0;
                assert(buffer + all =~= (buffer + c0) + concat_chunks(rest));
                lemma_first_terminator_extend(buffer + c0, concat_chunks(rest), 0);
                lemma_first_terminator_found(buffer + c0, 0);
                assert((buffer + all).subrange(0, p) =~= (buffer + c0).subrange(0, p));
            },
            _ => {},
        }
        lemma_complete_is_stable(state, c0, concat_chunks(rest));
    } else {
        if rest.len() == 0 {
            assert(concat_chunks(rest) =~= Seq::<u8>::empty());
            assert(all =~= c0);
        } else {
            let s1 = spec_feed(state, c0).0;
            law_feed_split(state, c0, concat_chunks(rest));
            match state {
                ReaderState::Header { buffer } => {
                    assert((buffer + c0) + concat_chunks(rest) =~= buffer + all);
                },
                _ => {},
            }
            lemma_declared_length_chunks(s1, rest);
        }
    }
}

/// However a request is cut into chunks, when its head declares a content length and
/// enough bytes follow, the reader answers with the head and exactly that many body bytes;
/// whatever follows them is never part of the answer.
pub proof fn law_declared_length_any_chunking(chunks: Seq<Seq<u8>>, p: int, length: nat)
    requires
        first_terminator(concat_chunks(chunks)) == Some(p),
        spec_parse_content_length(utf8_lossy_text(concat_chunks(chunks).subrange(0, p))) == Some(
            length,
        ),
        concat_chunks(chunks).len() >= p + 4 + length,
    ensures
        feed_all(ReaderState::Header { buffer: Seq::empty() }, chunks).1 == (ReadStepView::Complete {
            header: utf8_lossy_text(concat_chunks(chunks).subrange(0, p)),
            body: utf8_lossy_text(concat_chunks(chunks).subrange(p + 4, p + 4 + length)),
        }),
{
    let all = concat_chunks(chunks);
    let init = ReaderState::Header { buffer: Seq::empty() };
    if chunks.len() == 0 {
        assert(all.len() == 0);
    }
    assert(Seq::<u8>::empty() + all =~= all);
    lemma_first_terminator_found(all, 0);
    let body = all.subrange(p + 4, all.len() as int);
    assert(body.subrange(0, length as int) =~= all.subrange(p + 4, p + 4 + length));
    lemma_declared_length_chunks(init, chunks);
}

} // verus!
