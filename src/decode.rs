//! Reading a response: output lines up to the exit sentinel, whose payload
//! is the command's exit status.

use vstd::prelude::*;

verus! {

/// The most output lines one response may carry before the stream is
/// treated as desynchronised.
pub const MAX_OUTPUT_LINES: usize = 10000;

/// The Unicode White_Space characters, of which `char::is_whitespace` holds.
pub open spec fn white_space(c: char) -> bool {
    ('\u{9}' <= c && c <= '\u{d}') || c == ' ' || c == '\u{85}' || c == '\u{a0}' || c
        == '\u{1680}' || ('\u{2000}' <= c && c <= '\u{200a}') || c == '\u{2028}' || c
        == '\u{2029}' || c == '\u{202f}' || c == '\u{205f}' || c == '\u{3000}'
}

/// Whether a character is white space.
pub fn is_white_space(c: char) -> (r: bool)
    ensures
        r == white_space(c),
{
    ('\u{9}' <= c && c <= '\u{d}') || c == ' ' || c == '\u{85}' || c == '\u{a0}' || c
        == '\u{1680}' || ('\u{2000}' <= c && c <= '\u{200a}') || c == '\u{2028}' || c
        == '\u{2029}' || c == '\u{202f}' || c == '\u{205f}' || c == '\u{3000}'
}

/// A line without its trailing white space.
pub open spec fn trim_end_spec(s: Seq<char>) -> Seq<char>
    decreases s.len(),
{
    if s.len() > 0 && white_space(s.last()) {
        trim_end_spec(s.drop_last())
    } else {
        s
    }
}

/// Removes trailing white space, line terminators included.
pub fn trim_line_end(line: &str) -> (r: &str)
    ensures
        r@ == trim_end_spec(line@),
{
    let mut k = line.unicode_len();
    assert(line@.subrange(0, k as int) == line@);
    while k > 0 && is_white_space(line.get_char(k - 1))
        invariant
            k <= line@.len(),
            trim_end_spec(line@.subrange(0, k as int)) == trim_end_spec(line@),
        decreases k,
    {
        proof {
            let s = line@.subrange(0, k as int);
            assert(s.last() == line@[k - 1]);
            assert(s.drop_last() == line@.subrange(0, k - 1));
        }
        k = k - 1;
    }
    proof {
        let s = line@.subrange(0, k as int);
        if k > 0 {
            assert(s.last() == line@[k - 1]);
        }
    }
    line.substring_char(0, k)
}

pub open spec fn is_digit(c: char) -> bool {
    '0' <= c <= '9'
}

pub open spec fn digit_value(c: char) -> int {
    c as int - '0' as int
}

/// The value of a string of decimal digits.
pub open spec fn digits_value(s: Seq<char>) -> int
    decreases s.len(),
{
    if s.len() == 0 {
        0
    } else {
        digits_value(s.drop_last()) * 10 + digit_value(s.last())
    }
}

pub open spec fn all_digits(s: Seq<char>) -> bool {
    forall|i: int| 0 <= i < s.len() ==> is_digit(#[trigger] s[i])
}

/// A numeral without its sign.
pub open spec fn unsigned_part(s: Seq<char>) -> Seq<char> {
    if s.len() > 0 && (s[0] == '-' || s[0] == '+') {
        s.drop_first()
    } else {
        s
    }
}

/// The decimal integer a text denotes, as `str::parse::<i32>` reads it: an
/// optional sign, then one or more digits, with a value that fits in `i32`.
pub open spec fn parse_i32_spec(s: Seq<char>) -> Option<i32> {
    let neg = s.len() > 0 && s[0] == '-';
    let d = unsigned_part(s);
    let v = if neg {
        -digits_value(d)
    } else {
        digits_value(d)
    };
    if d.len() == 0 || !all_digits(d) || v < i32::MIN || v > i32::MAX {
        None
    } else {
        Some(v as i32)
    }
}

proof fn lemma_digits_value_grows(s: Seq<char>, k: int)
    requires
        0 <= k <= s.len(),
        all_digits(s),
    ensures
        0 <= digits_value(s.subrange(0, k)) <= digits_value(s),
    decreases s.len() - k,
{
    if k < s.len() {
        lemma_digits_value_grows(s, k + 1);
        let p = s.subrange(0, k + 1);
        assert(p.drop_last() == s.subrange(0, k));
        assert(is_digit(s[k]));
    } else {
        assert(s.subrange(0, k) == s);
        lemma_digits_nonneg(s);
    }
}

proof fn lemma_digits_nonneg(s: Seq<char>)
    requires
        all_digits(s),
    ensures
        digits_value(s) >= 0,
    decreases s.len(),
{
    if s.len() > 0 {
        assert(all_digits(s.drop_last()));
        lemma_digits_nonneg(s.drop_last());
        assert(is_digit(s[s.len() - 1]));
    }
}

/// Parses a decimal exit status.
pub fn parse_exit_code(s: &str) -> (r: Option<i32>)
    ensures
        r == parse_i32_spec(s@),
{
    let n = s.unicode_len();
    if n == 0 {
        return None;
    }
    let first = s.get_char(0);
    let neg = first == '-';
    let start: usize = if first == '-' || first == '+' { 1 } else { 0 };
    let ghost d = unsigned_part(s@);
    assert(d == s@.subrange(start as int, n as int));
    if start == n {
        return None;
    }
    let mut acc: i64 = 0;
    let mut i: usize = start;
    while i < n
        invariant
            start <= i <= n,
            n == s@.len(),
            d == s@.subrange(start as int, n as int),
            d == unsigned_part(s@),
            neg == (s@[0] == '-'),
            n > 0,
            all_digits(d.subrange(0, i - start)),
            acc as int == digits_value(d.subrange(0, i - start)),
            0 <= acc <= 2147483648,
        decreases n - i,
    {
        let c = s.get_char(i);
        proof {
            assert(d[i - start] == c);
        }
        if !('0' <= c && c <= '9') {
            assert(!is_digit(d[i - start]));
            assert(!all_digits(d));
            return None;
        }
        let dv = (c as u32 - '0' as u32) as i64;
        let ghost p = d.subrange(0, i + 1 - start);
        assert(p.drop_last() == d.subrange(0, i - start));
        assert(p.last() == c);
        assert(all_digits(p)) by {
            assert forall|j: int| 0 <= j < p.len() implies is_digit(#[trigger] p[j]) by {
                if j < p.len() - 1 {
                    assert(p[j] == d.subrange(0, i - start)[j]);
                }
            }
        }
        acc = acc * 10 + dv;
        i = i + 1;
        assert(acc as int == digits_value(p));
        if acc > 2147483648 {
            proof {
                assert(p == d.subrange(0, i - start));
                if all_digits(d) {
                    lemma_digits_value_grows(d, i - start);
                }
            }
            return None;
        }
    }
    assert(d.subrange(0, n - start) == d);
    if neg {
        Some((-acc) as i32)
    } else if acc > 2147483647 {
        None
    } else {
        Some(acc as i32)
    }
}

/// What one line of a response is.
#[derive(Debug, Clone, Copy, PartialEq, Eq, Structural)]
pub enum LineKind {
    /// A line of the command's output.
    Output,
    /// The exit sentinel, with the status it carries.
    Exit(i32),
    /// A line that starts like the sentinel but does not carry a valid status.
    Malformed,
}

/// Why a response could not be read.
#[derive(Debug, PartialEq, Eq)]
pub enum ProtocolError {
    /// The stream ended before the sentinel; `lines_read` output lines had come.
    UnexpectedEof { lines_read: usize },
    /// The sentinel did not carry an integer; it was line `lines_read`, and
    /// `payload` is what followed `<<<EXIT:`, less a closing `>>>`.
    MalformedExitCode { lines_read: usize, payload: String },
    /// More output lines came than one response may hold.
    TooManyLines { lines_read: usize },
}

/// A `ProtocolError` as contracts speak of it, its payload as characters.
pub enum ProtocolFault {
    UnexpectedEof { lines_read: usize },
    MalformedExitCode { lines_read: usize, payload: Seq<char> },
    TooManyLines { lines_read: usize },
}

pub open spec fn fault_of(e: ProtocolError) -> ProtocolFault {
    match e {
        ProtocolError::UnexpectedEof { lines_read } => ProtocolFault::UnexpectedEof { lines_read },
        ProtocolError::MalformedExitCode { lines_read, payload } => ProtocolFault::MalformedExitCode {
            lines_read,
            payload: payload@,
        },
        ProtocolError::TooManyLines { lines_read } => ProtocolFault::TooManyLines { lines_read },
    }
}

pub open spec fn sentinel_prefix() -> Seq<char> {
    "<<<EXIT:"@
}

pub open spec fn sentinel_suffix() -> Seq<char> {
    ">>>"@
}

pub open spec fn starts_with(s: Seq<char>, p: Seq<char>) -> bool {
    p.len() <= s.len() && s.subrange(0, p.len() as int) == p
}

pub open spec fn ends_with(s: Seq<char>, p: Seq<char>) -> bool {
    p.len() <= s.len() && s.subrange(s.len() - p.len(), s.len() as int) == p
}

/// A line that starts with `<<<EXIT:` is the sentinel; it must end with
/// `>>>` and carry an `i32` between the two.
pub open spec fn classify_spec(line: Seq<char>) -> LineKind {
    if !starts_with(line, sentinel_prefix()) {
        LineKind::Output
    } else {
        let rest = line.subrange(sentinel_prefix().len() as int, line.len() as int);
        if !ends_with(rest, sentinel_suffix()) {
            LineKind::Malformed
        } else {
            match parse_i32_spec(rest.subrange(0, rest.len() - sentinel_suffix().len())) {
                Some(v) => LineKind::Exit(v),
                None => LineKind::Malformed,
            }
        }
    }
}

/// What a sentinel line carries: the text after `<<<EXIT:`, less a closing
/// `>>>` where there is one.
pub open spec fn sentinel_payload(line: Seq<char>) -> Seq<char> {
    let rest = line.subrange(sentinel_prefix().len() as int, line.len() as int);
    if ends_with(rest, sentinel_suffix()) {
        rest.subrange(0, rest.len() - sentinel_suffix().len())
    } else {
        rest
    }
}

/// Whether `p` occurs in `s` at position `at`.
pub fn matches_at(s: &str, p: &str, at: usize) -> (r: bool)
    requires
        at + p@.len() <= s@.len(),
    ensures
        r == (s@.subrange(at as int, at + p@.len()) == p@),
{
    let n = s.unicode_len();
    let m = p.unicode_len();
    let mut j: usize = 0;
    while j < m
        invariant
            j <= m,
            m == p@.len(),
            at + m <= s@.len(),
            n == s@.len(),
            forall|k: int| 0 <= k < j ==> s@[at + k] == p@[k],
        decreases m - j,
    {
        if s.get_char(at + j) != p.get_char(j) {
            assert(s@.subrange(at as int, at + p@.len())[j as int] != p@[j as int]);
            return false;
        }
        j = j + 1;
    }
    assert(s@.subrange(at as int, at + p@.len()) =~= p@);
    true
}

/// Tells output lines from the exit sentinel. `line` is already stripped of
/// its trailing white space.
pub fn classify_line(line: &str) -> (r: LineKind)
    ensures
        r == classify_spec(line@),
{
    proof {
        reveal_strlit("<<<EXIT:");
        reveal_strlit(">>>");
    }
    let n = line.unicode_len();
    if n < 8 || !matches_at(line, "<<<EXIT:", 0) {
        return LineKind::Output;
    }
    let rest = line.substring_char(8, n);
    let m = n - 8;
    if m < 3 || !matches_at(rest, ">>>", m - 3) {
        return LineKind::Malformed;
    }
    let payload = rest.substring_char(0, m - 3);
    match parse_exit_code(payload) {
        Some(v) => LineKind::Exit(v),
        None => LineKind::Malformed,
    }
}

/// The payload of a line that starts like the sentinel.
pub fn sentinel_payload_text(line: &str) -> (r: String)
    requires
        starts_with(line@, sentinel_prefix()),
    ensures
        r@ == sentinel_payload(line@),
{
    proof {
        reveal_strlit("<<<EXIT:");
        reveal_strlit(">>>");
    }
    let n = line.unicode_len();
    let rest = line.substring_char(8, n);
    let m = n - 8;
    if m >= 3 && matches_at(rest, ">>>", m - 3) {
        String::from_str(rest.substring_char(0, m - 3))
    } else {
        String::from_str(rest)
    }
}

/// Output lines joined by newlines, with no newline after the last.
pub open spec fn join_lines(ls: Seq<Seq<char>>) -> Seq<char>
    decreases ls.len(),
{
    if ls.len() == 0 {
        Seq::empty()
    } else if ls.len() == 1 {
        ls[0]
    } else {
        join_lines(ls.drop_last()) + seq!['\n'] + ls.last()
    }
}

pub open spec fn views_of(v: Seq<String>) -> Seq<Seq<char>> {
    v.map_values(|l: String| l@)
}

/// Joins lines with a newline between each two.
pub fn join_output(lines: &Vec<String>) -> (r: String)
    ensures
        r@ == join_lines(views_of(lines@)),
{
    let mut out = String::new();
    let mut i: usize = 0;
    while i < lines.len()
        invariant
            i <= lines@.len(),
            out@ == join_lines(views_of(lines@).take(i as int)),
        decreases lines@.len() - i,
    {
        proof {
            reveal_strlit("\n");
            let t = views_of(lines@).take(i + 1);
            assert(t.drop_last() == views_of(lines@).take(i as int));
            if i == 0 {
                assert(t.len() == 1);
            }
        }
        if i > 0 {
            out.append("\n");
        }
        out.append(lines[i].as_str());
        i = i + 1;
    }
    assert(views_of(lines@).take(lines@.len() as int) == views_of(lines@));
    out
}

/// One line's effect on a response being read, given the output lines seen
/// so far: `None` while the response goes on, else how it ended; and the
/// output lines kept afterwards (none once it has ended).
pub open spec fn step_spec(acc: Seq<Seq<char>>, line: Seq<char>) -> (
    Option<Result<(Seq<char>, i32), ProtocolFault>>,
    Seq<Seq<char>>,
) {
    match classify_spec(line) {
        LineKind::Exit(c) => (Some(Ok((join_lines(acc), c))), Seq::empty()),
        LineKind::Malformed => (
            Some(
                Err(
                    ProtocolFault::MalformedExitCode {
                        lines_read: (acc.len() + 1) as usize,
                        payload: sentinel_payload(line),
                    },
                ),
            ),
            Seq::empty(),
        ),
        LineKind::Output => if acc.len() >= MAX_OUTPUT_LINES {
            (
                Some(Err(ProtocolFault::TooManyLines { lines_read: (acc.len() + 1) as usize })),
                Seq::empty(),
            )
        } else {
            (None, acc.push(line))
        },
    }
}

/// The response that a stream of raw lines gives, the stream ending after
/// the last of them.
pub open spec fn decode_spec(acc: Seq<Seq<char>>, lines: Seq<Seq<char>>) -> Result<
    (Seq<char>, i32),
    ProtocolFault,
>
    decreases lines.len(),
{
    if lines.len() == 0 {
        Err(ProtocolFault::UnexpectedEof { lines_read: acc.len() as usize })
    } else {
        let st = step_spec(acc, trim_end_spec(lines[0]));
        match st.0 {
            Some(o) => o,
            None => decode_spec(st.1, lines.drop_first()),
        }
    }
}

proof fn lemma_no_sentinel_from(acc: Seq<Seq<char>>, lines: Seq<Seq<char>>)
    requires
        forall|i: int|
            0 <= i < lines.len() ==> classify_spec(trim_end_spec(#[trigger] lines[i]))
                == LineKind::Output,
    ensures
        decode_spec(acc, lines) matches Err(e) && (e is UnexpectedEof || e is TooManyLines),
    decreases lines.len(),
{
    if lines.len() > 0 {
        let st = step_spec(acc, trim_end_spec(lines[0]));
        if st.0 is None {
            let rest = lines.drop_first();
            assert forall|i: int| 0 <= i < rest.len() implies classify_spec(
                trim_end_spec(#[trigger] rest[i]),
            ) == LineKind::Output by {
                assert(rest[i] == lines[i + 1]);
            }
            lemma_no_sentinel_from(st.1, rest);
        }
    }
}

/// A stream that closes without an exit sentinel is a protocol
/// desynchronisation: decoding it fails, at its end or once the output
/// exceeds the line bound, and never yields an exit status.
pub proof fn lemma_no_sentinel_is_desync(lines: Seq<Seq<char>>)
    requires
        forall|i: int|
            0 <= i < lines.len() ==> classify_spec(trim_end_spec(#[trigger] lines[i]))
                == LineKind::Output,
    ensures
        decode_spec(Seq::empty(), lines) matches Err(e) && (e is UnexpectedEof || e is TooManyLines),
        lines.len() <= MAX_OUTPUT_LINES ==> decode_spec(Seq::empty(), lines) == Err::<
            (Seq<char>, i32),
            ProtocolFault,
        >(ProtocolFault::UnexpectedEof { lines_read: lines.len() as usize }),
{
    lemma_no_sentinel_from(Seq::empty(), lines);
    lemma_short_stream_ends_at_eof(Seq::empty(), lines);
}

proof fn lemma_short_stream_ends_at_eof(acc: Seq<Seq<char>>, lines: Seq<Seq<char>>)
    requires
        forall|i: int|
            0 <= i < lines.len() ==> classify_spec(trim_end_spec(#[trigger] lines[i]))
                == LineKind::Output,
    ensures
        acc.len() + lines.len() <= MAX_OUTPUT_LINES ==> decode_spec(acc, lines) == Err::<
            (Seq<char>, i32),
            ProtocolFault,
        >(ProtocolFault::UnexpectedEof { lines_read: (acc.len() + lines.len()) as usize }),
    decreases lines.len(),
{
    if lines.len() > 0 && acc.len() + lines.len() <= MAX_OUTPUT_LINES {
        let rest = lines.drop_first();
        assert forall|i: int| 0 <= i < rest.len() implies classify_spec(
            trim_end_spec(#[trigger] rest[i]),
        ) == LineKind::Output by {
            assert(rest[i] == lines[i + 1]);
        }
        lemma_short_stream_ends_at_eof(acc.push(trim_end_spec(lines[0])), rest);
    }
}

/// The result of one line fed to a decoder.
#[derive(Debug, PartialEq, Eq)]
pub enum DecodeStep {
    /// More lines are needed.
    Pending,
    /// The sentinel came: the output and the exit status.
    Complete { output: String, exit_code: i32 },
    /// The response cannot be read.
    Failed(ProtocolError),
}

pub open spec fn step_matches(r: DecodeStep, o: Option<Result<(Seq<char>, i32), ProtocolFault>>) -> bool {
    match o {
        None => r is Pending,
        Some(Ok((out, c))) => r matches DecodeStep::Complete { output, exit_code } && output@ == out
            && exit_code == c,
        Some(Err(f)) => r matches DecodeStep::Failed(e) && fault_of(e) == f,
    }
}

pub open spec fn result_matches(
    r: Result<(String, i32), ProtocolError>,
    o: Result<(Seq<char>, i32), ProtocolFault>,
) -> bool {
    match o {
        Ok((out, c)) => r matches Ok((output, exit_code)) && output@ == out && exit_code == c,
        Err(f) => r matches Err(e) && fault_of(e) == f,
    }
}

/// Reads one response, a line at a time.
pub struct ResponseDecoder {
    lines: Vec<String>,
}

impl View for ResponseDecoder {
    type V = Seq<Seq<char>>;

    closed spec fn view(&self) -> Seq<Seq<char>> {
        views_of(self.lines@)
    }
}

impl ResponseDecoder {
    pub open spec fn wf(&self) -> bool {
        self@.len() <= MAX_OUTPUT_LINES
    }

    pub fn new() -> (r: Self)
        ensures
            r.wf(),
            r@ == Seq::<Seq<char>>::empty(),
    {
        ResponseDecoder { lines: Vec::new() }
    }

    /// The number of output lines of the response so far.
    pub fn lines_read(&self) -> (r: usize)
        ensures
            r == self@.len(),
    {
        self.lines.len()
    }

    /// Takes in one raw line, its terminator included or not.
    pub fn feed_line(&mut self, raw: &str) -> (r: DecodeStep)
        requires
            old(self).wf(),
        ensures
            final(self).wf(),
            step_matches(r, step_spec(old(self)@, trim_end_spec(raw@)).0),
            final(self)@ == step_spec(old(self)@, trim_end_spec(raw@)).1,
    {
        let line = trim_line_end(raw);
        match classify_line(line) {
            LineKind::Exit(c) => {
                let output = join_output(&self.lines);
                self.lines = Vec::new();
                DecodeStep::Complete { output, exit_code: c }
            },
            LineKind::Malformed => {
                let n = self.lines.len();
                self.lines = Vec::new();
                let payload = sentinel_payload_text(line);
                DecodeStep::Failed(ProtocolError::MalformedExitCode { lines_read: n + 1, payload })
            },
            LineKind::Output => {
                let n = self.lines.len();
                if n >= MAX_OUTPUT_LINES {
                    self.lines = Vec::new();
                    DecodeStep::Failed(ProtocolError::TooManyLines { lines_read: n + 1 })
                } else {
                    self.lines.push(String::from_str(line));
                    proof {
                        assert(self@ == old(self)@.push(line@));
                    }
                    DecodeStep::Pending
                }
            },
        }
    }

    /// The stream ended before the sentinel.
    pub fn finish_eof(&mut self) -> (r: ProtocolError)
        ensures
            r == (ProtocolError::UnexpectedEof { lines_read: old(self)@.len() as usize }),
            final(self)@ == Seq::<Seq<char>>::empty(),
            final(self).wf(),
    {
        let n = self.lines.len();
        self.lines = Vec::new();
        ProtocolError::UnexpectedEof { lines_read: n }
    }
}

/// Reads one response from the raw lines of a stream that ends after them.
pub fn decode_lines(lines: &Vec<String>) -> (r: Result<(String, i32), ProtocolError>)
    ensures
        result_matches(r, decode_spec(Seq::empty(), views_of(lines@))),
{
    let mut dec = ResponseDecoder::new();
    let mut i: usize = 0;
    assert(views_of(lines@).skip(0) == views_of(lines@));
    while i < lines.len()
        invariant
            i <= lines@.len(),
            dec.wf(),
            decode_spec(Seq::empty(), views_of(lines@)) == decode_spec(
                dec@,
                views_of(lines@).skip(i as int),
            ),
        decreases lines@.len() - i,
    {
        proof {
            let rest = views_of(lines@).skip(i as int);
            assert(rest[0] == lines@[i as int]@);
            assert(rest.drop_first() == views_of(lines@).skip(i + 1));
        }
        match dec.feed_line(lines[i].as_str()) {
            DecodeStep::Pending => {},
            DecodeStep::Complete { output, exit_code } => {
                return Ok((output, exit_code));
            },
            DecodeStep::Failed(e) => {
                return Err(e);
            },
        }
        i = i + 1;
    }
    Err(dec.finish_eof())
}

} // verus!
