//! JSON-RPC over a byte stream: `Content-Length` framing, and how a decoded
//! message is answered (dispatched, rejected with an error, or ignored).

use vstd::prelude::*;
use serde_json::Value;
use crate::r_installation::opt_view;
use crate::text::{
    is_whitespace, leading_ws, trailing_ws, trim_start, ascii_lower, ascii_lower_chars, chars_eq, chars_of, find_char, index_of_char, lemma_index_of_char,
    push_str, slice_chars, string_of, trim, trim_chars,
};

verus! {

/// The largest header a frame may have, in bytes.
pub const MAX_HEADER_BYTES: usize = 16384;

/// The largest body a frame may announce, in bytes.
pub const MAX_MESSAGE_BYTES: usize = 16777216;

pub open spec fn is_digit(c: char) -> bool {
    '0' <= c && c <= '9'
}

pub open spec fn digit_value(c: char) -> int {
    c as int - '0' as int
}

pub open spec fn all_digits(s: Seq<char>) -> bool {
    forall|i: int| 0 <= i < s.len() ==> is_digit(#[trigger] s[i])
}

/// The number a string of decimal digits denotes.
pub open spec fn digits_value(s: Seq<char>) -> nat
    decreases s.len(),
{
    if s.len() == 0 {
        0
    } else {
        (digits_value(s.drop_last()) * 10 + digit_value(s.last())) as nat
    }
}

/// What `str::parse::<usize>` accepts: an optional `+`, then one or more
/// decimal digits denoting at most `usize::MAX`.
pub open spec fn parse_usize_spec(s: Seq<char>) -> Option<nat> {
    let d = if s.len() > 0 && s[0] == '+' {
        s.drop_first()
    } else {
        s
    };
    if d.len() > 0 && all_digits(d) && digits_value(d) <= usize::MAX {
        Some(digits_value(d))
    } else {
        None
    }
}

proof fn lemma_digits_prefix_bound(s: Seq<char>, k: int)
    requires
        all_digits(s),
        0 <= k <= s.len(),
    ensures
        digits_value(s.subrange(0, k)) <= digits_value(s),
    decreases s.len(),
{
    if k < s.len() {
        assert(s.drop_last().subrange(0, k) == s.subrange(0, k));
        lemma_digits_prefix_bound(s.drop_last(), k);
    } else {
        assert(s.subrange(0, k) == s);
    }
}

/// Parses a decimal `usize` as `str::parse` does.
pub fn parse_usize(s: &[char]) -> (r: Option<usize>)
    ensures
        match r {
            Some(v) => parse_usize_spec(s@) == Some(v as nat),
            None => parse_usize_spec(s@) is None,
        },
{
    let start: usize = if s.len() > 0 && s[0] == '+' {
        1
    } else {
        0
    };
    let ghost d = if s@.len() > 0 && s@[0] == '+' {
        s@.drop_first()
    } else {
        s@
    };
    assert(d == s@.subrange(start as int, s@.len() as int));
    if start == s.len() {
        return None;
    }
    let mut acc: usize = 0;
    let mut i: usize = start;
    while i < s.len()
        invariant
            start <= i <= s.len(),
            d == s@.subrange(start as int, s@.len() as int),
            d == (if s@.len() > 0 && s@[0] == '+' {
                s@.drop_first()
            } else {
                s@
            }),
            d.len() > 0,
            acc as nat == digits_value(s@.subrange(start as int, i as int)),
            all_digits(s@.subrange(start as int, i as int)),
        decreases s.len() - i,
    {
        let c = s[i];
        if !('0' <= c && c <= '9') {
            assert(d[i - start] == c);
            assert(!is_digit(d[i - start]));
            return None;
        }
        let dg = (c as u32 - '0' as u32) as usize;
        assert(s@.subrange(start as int, i + 1).drop_last() == s@.subrange(start as int, i as int));
        assert(s@.subrange(start as int, i + 1).last() == c);
        let next = match acc.checked_mul(10) {
            Some(m) => m.checked_add(dg),
            None => None,
        };
        match next {
            Some(n) => {
                acc = n;
            },
            None => {
                proof {
                    assert(digits_value(s@.subrange(start as int, i + 1)) > usize::MAX);
                    if all_digits(d) {
                        assert(d.subrange(0, i + 1 - start) == s@.subrange(start as int, i + 1));
                        lemma_digits_prefix_bound(d, i + 1 - start);
                    }
                }
                return None;
            },
        }
        i = i + 1;
    }
    assert(s@.subrange(start as int, s@.len() as int) == d);
    Some(acc)
}

/// The character of a decimal digit.
pub open spec fn digit_char(d: int) -> char {
    if d == 0 {
        '0'
    } else if d == 1 {
        '1'
    } else if d == 2 {
        '2'
    } else if d == 3 {
        '3'
    } else if d == 4 {
        '4'
    } else if d == 5 {
        '5'
    } else if d == 6 {
        '6'
    } else if d == 7 {
        '7'
    } else if d == 8 {
        '8'
    } else {
        '9'
    }
}

/// The decimal digits of a number, without leading zeros.
pub open spec fn decimal_spec(n: nat) -> Seq<char>
    decreases n,
{
    if n < 10 {
        seq![digit_char(n as int)]
    } else {
        decimal_spec(n / 10).push(digit_char((n % 10) as int))
    }
}

proof fn lemma_digit_char(d: int)
    requires
        0 <= d < 10,
    ensures
        is_digit(digit_char(d)),
        digit_value(digit_char(d)) == d,
{
}

/// The digits of a number read back as that number.
pub proof fn lemma_decimal_round_trip(n: nat)
    ensures
        decimal_spec(n).len() > 0,
        all_digits(decimal_spec(n)),
        decimal_spec(n)[0] != '+',
        digits_value(decimal_spec(n)) == n,
    decreases n,
{
    if n < 10 {
        lemma_digit_char(n as int);
        assert(decimal_spec(n).drop_last() == Seq::<char>::empty());
        assert(decimal_spec(n).last() == digit_char(n as int));
        assert(digits_value(decimal_spec(n)) == digits_value(Seq::<char>::empty()) * 10 + digit_value(
            digit_char(n as int),
        ));
    } else {
        lemma_decimal_round_trip(n / 10);
        lemma_digit_char((n % 10) as int);
        let s = decimal_spec(n);
        assert(s.drop_last() == decimal_spec(n / 10));
        assert forall|i: int| 0 <= i < s.len() implies is_digit(#[trigger] s[i]) by {
            if i < s.len() - 1 {
                assert(s[i] == decimal_spec(n / 10)[i]);
            }
        }
        assert(s[0] == decimal_spec(n / 10)[0]);
        assert(s.last() == digit_char((n % 10) as int));
        assert((n / 10) * 10 + n % 10 == n) by (nonlinear_arith);
        assert(digits_value(s) == digits_value(s.drop_last()) * 10 + digit_value(s.last()));
        assert(digit_value(s.last()) == n % 10);
        assert(digits_value(s.drop_last()) == n / 10);
    }
}

fn digit_char_exec(d: usize) -> (r: char)
    requires
        d < 10,
    ensures
        r == digit_char(d as int),
{
    if d == 0 {
        '0'
    } else if d == 1 {
        '1'
    } else if d == 2 {
        '2'
    } else if d == 3 {
        '3'
    } else if d == 4 {
        '4'
    } else if d == 5 {
        '5'
    } else if d == 6 {
        '6'
    } else if d == 7 {
        '7'
    } else if d == 8 {
        '8'
    } else {
        '9'
    }
}

/// The decimal digits of a number.
pub fn decimal(n: usize) -> (r: Vec<char>)
    ensures
        r@ == decimal_spec(n as nat),
    decreases n,
{
    if n < 10 {
        let mut v: Vec<char> = Vec::new();
        v.push(digit_char_exec(n));
        v
    } else {
        let mut v = decimal(n / 10);
        v.push(digit_char_exec(n % 10));
        v
    }
}

/// Why a frame could not be read.
#[derive(Debug, Clone, Copy, PartialEq, Eq, Structural)]
pub enum FrameError {
    IncompleteHeader,
    HeaderTooLarge,
    HeaderNotUtf8,
    MalformedHeader,
    DuplicateContentLength,
    InvalidContentLength,
    MessageTooLarge,
    MissingContentLength,
    IncompleteBody,
}

impl FrameError {
    /// The error's description.
    pub fn message(&self) -> (r: &'static str)
        ensures
            r@ == frame_error_message(*self),
    {
        match self {
            FrameError::IncompleteHeader => "Incomplete header",
            FrameError::HeaderTooLarge => "Header exceeds size limit",
            FrameError::HeaderNotUtf8 => "Header is not UTF-8",
            FrameError::MalformedHeader => "Malformed header",
            FrameError::DuplicateContentLength => "Duplicate Content-Length",
            FrameError::InvalidContentLength => "Invalid Content-Length",
            FrameError::MessageTooLarge => "Message exceeds size limit",
            FrameError::MissingContentLength => "Missing Content-Length",
            FrameError::IncompleteBody => "Incomplete body",
        }
    }
}

pub open spec fn frame_error_message(e: FrameError) -> Seq<char> {
    match e {
        FrameError::IncompleteHeader => "Incomplete header"@,
        FrameError::HeaderTooLarge => "Header exceeds size limit"@,
        FrameError::HeaderNotUtf8 => "Header is not UTF-8"@,
        FrameError::MalformedHeader => "Malformed header"@,
        FrameError::DuplicateContentLength => "Duplicate Content-Length"@,
        FrameError::InvalidContentLength => "Invalid Content-Length"@,
        FrameError::MessageTooLarge => "Message exceeds size limit"@,
        FrameError::MissingContentLength => "Missing Content-Length"@,
        FrameError::IncompleteBody => "Incomplete body"@,
    }
}

/// What a header line leads to: more header lines, a body of the given
/// length, or an error.
#[derive(Debug, Clone, Copy, PartialEq, Eq, Structural)]
pub enum HeaderStep {
    Continue,
    Body(usize),
    Failed(FrameError),
}

/// One header line of text, given the length announced so far: a blank
/// line ends the header, a `Content-Length` line (name compared without
/// ASCII case) announces the body's length once, other `name: value`
/// lines are skipped.
pub open spec fn text_line_step(content_length: Option<usize>, text: Seq<char>) -> (Option<usize>, HeaderStep) {
    let t = trim(text);
    if t.len() == 0 {
        match content_length {
            Some(n) => (content_length, HeaderStep::Body(n)),
            None => (content_length, HeaderStep::Failed(FrameError::MissingContentLength)),
        }
    } else {
        match index_of_char(t, ':') {
            None => (content_length, HeaderStep::Failed(FrameError::MalformedHeader)),
            Some(k) => if ascii_lower(t.subrange(0, k)) == "content-length"@ {
                if content_length is Some {
                    (content_length, HeaderStep::Failed(FrameError::DuplicateContentLength))
                } else {
                    match parse_usize_spec(trim(t.subrange(k + 1, t.len() as int))) {
                        None => (content_length, HeaderStep::Failed(FrameError::InvalidContentLength)),
                        Some(n) => if n > MAX_MESSAGE_BYTES {
                            (content_length, HeaderStep::Failed(FrameError::MessageTooLarge))
                        } else {
                            (Some(n as usize), HeaderStep::Continue)
                        },
                    }
                }
            } else {
                (content_length, HeaderStep::Continue)
            },
        }
    }
}

/// What `std::str::from_utf8` makes of bytes: their text when they are
/// valid UTF-8.
pub uninterp spec fn utf8_text(bytes: Seq<u8>) -> Option<Seq<char>>;

/// Decodes bytes with `std::str::from_utf8`.
#[verifier::external_body]
fn decode_utf8(bytes: &[u8]) -> (r: Option<String>)
    ensures
        opt_view(r) == utf8_text(bytes@),
{
    match std::str::from_utf8(bytes) {
        Ok(text) => Some(text.to_string()),
        Err(_) => None,
    }
}

/// One header line of bytes: the header's size so far grows by the line;
/// beyond the limit, or when the line is not UTF-8, the frame fails.
pub open spec fn line_step(header_bytes: int, content_length: Option<usize>, line: Seq<u8>) -> (
    int,
    Option<usize>,
    HeaderStep,
) {
    let hb = header_bytes + line.len();
    if hb > MAX_HEADER_BYTES {
        (hb, content_length, HeaderStep::Failed(FrameError::HeaderTooLarge))
    } else {
        match utf8_text(line) {
            None => (hb, content_length, HeaderStep::Failed(FrameError::HeaderNotUtf8)),
            Some(text) => {
                let (cl, step) = text_line_step(content_length, text);
                (hb, cl, step)
            },
        }
    }
}

/// Reads a frame's header line by line; the caller reads each line, at
/// most `line_limit` bytes up to and including a newline.
#[derive(Debug, Clone, Copy)]
pub struct HeaderReader {
    pub header_bytes: usize,
    pub content_length: Option<usize>,
}

impl HeaderReader {
    pub open spec fn wf(&self) -> bool {
        self.header_bytes <= MAX_HEADER_BYTES
    }

    pub fn new() -> (r: HeaderReader)
        ensures
            r.header_bytes == 0,
            r.content_length is None,
            r.wf(),
    {
        HeaderReader { header_bytes: 0, content_length: None }
    }

    /// How many bytes the next line may have: one more than the header
    /// still has room for, so that an overlong header is noticed.
    pub fn line_limit(&self) -> (r: usize)
        requires
            self.wf(),
        ensures
            r == MAX_HEADER_BYTES - self.header_bytes + 1,
    {
        MAX_HEADER_BYTES - self.header_bytes + 1
    }

    /// The input ended before the next line: a clean end between frames,
    /// else an incomplete header.
    pub fn on_eof(&self) -> (r: Option<FrameError>)
        ensures
            r == (if self.header_bytes == 0 {
                None
            } else {
                Some(FrameError::IncompleteHeader)
            }),
    {
        if self.header_bytes == 0 {
            None
        } else {
            Some(FrameError::IncompleteHeader)
        }
    }

    /// Takes a header line of text.
    pub fn on_text_line(&mut self, text: &str) -> (r: HeaderStep)
        ensures
            (final(self).content_length, r) == text_line_step(old(self).content_length, text@),
            final(self).header_bytes == old(self).header_bytes,
    {
        let raw = chars_of(text);
        let t = trim_chars(raw.as_slice());
        if t.len() == 0 {
            return match self.content_length {
                Some(n) => HeaderStep::Body(n),
                None => HeaderStep::Failed(FrameError::MissingContentLength),
            };
        }
        let k = match find_char(t.as_slice(), ':') {
            Some(k) => k,
            None => {
                proof {
                    lemma_index_of_char(t@, ':', t@.len() as int);
                }
                return HeaderStep::Failed(FrameError::MalformedHeader);
            },
        };
        proof {
            lemma_index_of_char(t@, ':', k as int);
        }
        let name = slice_chars(t.as_slice(), 0, k);
        let lower = ascii_lower_chars(name.as_slice());
        let expected = chars_of("content-length");
        if !chars_eq(lower.as_slice(), expected.as_slice()) {
            return HeaderStep::Continue;
        }
        if self.content_length.is_some() {
            return HeaderStep::Failed(FrameError::DuplicateContentLength);
        }
        let value = slice_chars(t.as_slice(), k + 1, t.len());
        let value = trim_chars(value.as_slice());
        match parse_usize(value.as_slice()) {
            None => HeaderStep::Failed(FrameError::InvalidContentLength),
            Some(n) => {
                if n > MAX_MESSAGE_BYTES {
                    HeaderStep::Failed(FrameError::MessageTooLarge)
                } else {
                    self.content_length = Some(n);
                    HeaderStep::Continue
                }
            },
        }
    }

    /// Takes a header line as read (it is not empty and within the limit).
    pub fn on_line(&mut self, line: &[u8]) -> (r: HeaderStep)
        requires
            old(self).wf(),
            0 < line@.len() <= MAX_HEADER_BYTES - old(self).header_bytes + 1,
        ensures
            (final(self).header_bytes as int, final(self).content_length, r) == line_step(
                old(self).header_bytes as int,
                old(self).content_length,
                line@,
            ),
    {
        self.header_bytes = self.header_bytes + line.len();
        if self.header_bytes > MAX_HEADER_BYTES {
            return HeaderStep::Failed(FrameError::HeaderTooLarge);
        }
        match decode_utf8(line) {
            None => HeaderStep::Failed(FrameError::HeaderNotUtf8),
            Some(text) => self.on_text_line(text.as_str()),
        }
    }
}

/// The header line that announces a body of `n` bytes, as a sender writes it.
pub open spec fn content_length_line(n: nat) -> Seq<char> {
    "Content-Length: "@ + decimal_spec(n) + "\r\n"@
}

/// A header as a sender writes it: `Content-Length: <n>` and a blank line.
pub fn frame_header(length: usize) -> (r: String)
    ensures
        r@ == content_length_line(length as nat) + "\r\n"@,
{
    let mut v: Vec<char> = Vec::new();
    push_str(&mut v, "Content-Length: ");
    let digits = decimal(length);
    let ghost before = v@;
    crate::text::push_all(&mut v, digits.as_slice());
    push_str(&mut v, "\r\n\r\n");
    proof {
        reveal_strlit("\r\n\r\n");
        reveal_strlit("\r\n");
        assert(v@ =~= content_length_line(length as nat) + "\r\n"@);
    }
    string_of(v.as_slice())
}

proof fn lemma_crlf_is_blank()
    ensures
        trim("\r\n"@).len() == 0,
{
    reveal_strlit("\r\n");
    let crlf = "\r\n"@;
    assert(is_whitespace(crlf[0]));
    assert(crlf.drop_first() =~= seq!['\n']);
    assert(is_whitespace(crlf.drop_first()[0]));
    assert(seq!['\n'].drop_first() =~= Seq::<char>::empty());
    assert(leading_ws(Seq::<char>::empty()) == 0);
    assert(leading_ws(seq!['\n']) == 1);
    assert(leading_ws(crlf) == 2);
}

proof fn lemma_header_line_trims(n: nat)
    ensures
        trim(content_length_line(n)) == "Content-Length: "@ + decimal_spec(n),
{
    reveal_strlit("Content-Length: ");
    reveal_strlit("\r\n");
    lemma_decimal_round_trip(n);
    let d = decimal_spec(n);
    let u = "Content-Length: "@ + d;
    let line = content_length_line(n);
    assert(line =~= u + "\r\n"@);
    assert(leading_ws(line) == 0);
    assert(trim_start(line) =~= line);
    assert(line.drop_last() =~= u.push('\r'));
    assert(u.push('\r').drop_last() =~= u);
    assert(u.last() == d.last());
    assert(is_digit(d.last()));
    assert(trailing_ws(u) == 0);
    assert(trailing_ws(u.push('\r')) == 1);
    assert(trailing_ws(line) == 2);
    assert(trim(line) =~= u);
}

proof fn lemma_header_name(n: nat)
    ensures
        index_of_char("Content-Length: "@ + decimal_spec(n), ':') == Some(14int),
        ascii_lower(("Content-Length: "@ + decimal_spec(n)).subrange(0, 14)) == "content-length"@,
{
    reveal_strlit("Content-Length: ");
    reveal_strlit("content-length");
    let u = "Content-Length: "@ + decimal_spec(n);
    assert forall|j: int| 0 <= j < 14 implies u[j] != ':' by {}
    assert(u[14] == ':');
    lemma_index_of_char(u, ':', 14);
    assert(ascii_lower(u.subrange(0, 14)) =~= "content-length"@);
}

proof fn lemma_header_value(n: nat)
    requires
        n <= MAX_MESSAGE_BYTES,
    ensures
        parse_usize_spec(
            trim(
                ("Content-Length: "@ + decimal_spec(n)).subrange(
                    15,
                    ("Content-Length: "@ + decimal_spec(n)).len() as int,
                ),
            ),
        ) == Some(n),
{
    reveal_strlit("Content-Length: ");
    lemma_decimal_round_trip(n);
    let d = decimal_spec(n);
    let u = "Content-Length: "@ + d;
    let value = u.subrange(15, u.len() as int);
    assert(value =~= seq![' '] + d);
    assert(value.drop_first() =~= d);
    assert(is_digit(d[0]));
    assert(is_digit(d.last()));
    assert(leading_ws(d) == 0);
    assert(leading_ws(value) == 1);
    assert(trim_start(value) =~= d);
    assert(trailing_ws(d) == 0);
    assert(trim(value) =~= d);
    assert(parse_usize_spec(d) == Some(n));
}

/// A header written by a sender is read back as the length it announces:
/// the `Content-Length` line records the length and the blank line after
/// it yields a body of that length.
pub proof fn lemma_frame_header_round_trip(n: nat)
    requires
        n <= MAX_MESSAGE_BYTES,
    ensures
        text_line_step(None, content_length_line(n)) == (Some(n as usize), HeaderStep::Continue),
        text_line_step(Some(n as usize), "\r\n"@) == (Some(n as usize), HeaderStep::Body(n as usize)),
{
    lemma_header_line_trims(n);
    lemma_header_name(n);
    lemma_header_value(n);
    lemma_crlf_is_blank();
    lemma_decimal_round_trip(n);
    reveal_strlit("Content-Length: ");
    assert(("Content-Length: "@ + decimal_spec(n)).len() > 0);
}

/// Where a line read from `j` ends when reading stops at `stop`: after
/// the first newline, else at `stop`.
pub open spec fn newline_end(input: Seq<u8>, j: int, stop: int) -> int
    decreases stop - j,
{
    if j >= stop {
        stop
    } else if input[j] == 10 {
        j + 1
    } else {
        newline_end(input, j + 1, stop)
    }
}

/// Where the next line read from `pos` ends when at most `limit` bytes
/// are read.
pub open spec fn line_end(input: Seq<u8>, pos: int, limit: int) -> int {
    let stop = if pos + limit < input.len() {
        pos + limit
    } else {
        input.len() as int
    };
    newline_end(input, pos, stop)
}

pub proof fn lemma_newline_end_bounds(input: Seq<u8>, j: int, stop: int)
    requires
        0 <= j < stop,
        stop <= input.len(),
    ensures
        j < newline_end(input, j, stop) <= stop,
    decreases stop - j,
{
    if input[j] != 10 {
        if j + 1 < stop {
            lemma_newline_end_bounds(input, j + 1, stop);
        } else {
            assert(newline_end(input, j + 1, stop) == stop);
        }
    }
}

/// What reading one frame from `pos` gives: the body and where the frame
/// ends, nothing at the end of the input, or why the frame is invalid.
pub open spec fn read_spec(input: Seq<u8>, pos: int, header_bytes: int, content_length: Option<usize>) -> Result<
    Option<(Seq<u8>, int)>,
    FrameError,
>
    decreases input.len() - pos,
{
    if pos >= input.len() || pos < 0 {
        if header_bytes == 0 {
            Ok(None)
        } else {
            Err(FrameError::IncompleteHeader)
        }
    } else if header_bytes > MAX_HEADER_BYTES {
        Err(FrameError::HeaderTooLarge)
    } else {
        let end = line_end(input, pos, MAX_HEADER_BYTES - header_bytes + 1);
        let (hb, cl, step) = line_step(header_bytes, content_length, input.subrange(pos, end));
        proof {
            let stop = if pos + MAX_HEADER_BYTES - header_bytes + 1 < input.len() {
                pos + MAX_HEADER_BYTES - header_bytes + 1
            } else {
                input.len() as int
            };
            lemma_newline_end_bounds(input, pos, stop);
        }
        match step {
            HeaderStep::Continue => read_spec(input, end, hb, cl),
            HeaderStep::Body(n) => if input.len() - end < n {
                Err(FrameError::IncompleteBody)
            } else {
                Ok(Some((input.subrange(end, end + n), end + n)))
            },
            HeaderStep::Failed(e) => Err(e),
        }
    }
}

fn find_line_end(input: &[u8], pos: usize, limit: usize) -> (r: usize)
    requires
        pos < input@.len(),
        limit >= 1,
    ensures
        r == line_end(input@, pos as int, limit as int),
        pos < r <= input@.len(),
        r - pos <= limit,
{
    let stop: usize = if limit < input.len() - pos {
        pos + limit
    } else {
        input.len()
    };
    let mut j: usize = pos;
    while j < stop
        invariant
            pos <= j <= stop,
            stop <= input@.len(),
            pos < input@.len(),
            limit >= 1,
            stop == (if pos + limit < input@.len() {
                pos + limit
            } else {
                input@.len() as int
            }),
            newline_end(input@, pos as int, stop as int) == newline_end(input@, j as int, stop as int),
        decreases stop - j,
    {
        if input[j] == 10 {
            proof {
                lemma_newline_end_bounds(input@, pos as int, stop as int);
            }
            return j + 1;
        }
        j = j + 1;
    }
    proof {
        lemma_newline_end_bounds(input@, pos as int, stop as int);
    }
    stop
}

/// Reads one frame from the start of `input`: its header lines, each read
/// as from a stream (up to a newline, and no further than the header
/// limit allows), then a body of the announced length. Gives the body and
/// how many bytes the frame took, nothing when the input is empty, or the
/// reason the frame is invalid.
pub fn read_message(input: &[u8]) -> (r: Result<Option<(Vec<u8>, usize)>, FrameError>)
    ensures
        match r {
            Ok(Some((body, used))) => read_spec(input@, 0, 0, None) == Ok::<Option<(Seq<u8>, int)>, FrameError>(Some((body@, used as int))),
            Ok(None) => read_spec(input@, 0, 0, None) == Ok::<Option<(Seq<u8>, int)>, FrameError>(None),
            Err(e) => read_spec(input@, 0, 0, None) == Err::<Option<(Seq<u8>, int)>, FrameError>(e),
        },
{
    let mut reader = HeaderReader::new();
    let mut pos: usize = 0;
    loop
        invariant
            pos <= input@.len(),
            reader.wf(),
            read_spec(input@, 0, 0, None) == read_spec(
                input@,
                pos as int,
                reader.header_bytes as int,
                reader.content_length,
            ),
        decreases input@.len() - pos,
    {
        if pos == input.len() {
            return match reader.on_eof() {
                None => Ok(None),
                Some(e) => Err(e),
            };
        }
        let limit = reader.line_limit();
        let end = find_line_end(input, pos, limit);
        let line = vstd::slice::slice_subrange(input, pos, end);
        let step = reader.on_line(line);
        match step {
            HeaderStep::Continue => {
                pos = end;
            },
            HeaderStep::Body(n) => {
                if input.len() - end < n {
                    return Err(FrameError::IncompleteBody);
                }
                let body = vstd::slice::slice_subrange(input, end, end + n);
                return Ok(Some((vstd::slice::slice_to_vec(body), end + n)));
            },
            HeaderStep::Failed(e) => {
                return Err(e);
            },
        }
    }
}

/// What a member of a JSON object is.
#[derive(Debug, Clone, Copy, PartialEq, Eq, Structural)]
pub enum MemberKind {
    Absent,
    Null,
    Bool,
    Number,
    Str,
    Array,
    Object,
}

/// What a request's `id` member is.
#[derive(Debug, Clone, Copy, PartialEq, Eq, Structural)]
pub enum IdKind {
    Absent,
    Null,
    Str,
    Number,
    Other,
}

/// What a request's `params` member is.
#[derive(Debug, Clone, Copy, PartialEq, Eq, Structural)]
pub enum ParamsKind {
    Absent,
    Null,
    Object,
    Array,
    Other,
}

/// The kind of member `key` when `body` decodes with
/// `serde_json::from_slice::<serde_json::Value>`; `None` when it does not.
pub uninterp spec fn json_member_kind(body: Seq<u8>, key: Seq<char>) -> Option<MemberKind>;

/// The string held by member `key` of the decoded `body`, if it holds one.
pub uninterp spec fn json_member_str(body: Seq<u8>, key: Seq<char>) -> Option<Seq<char>>;

/// The JSON text of member `key` of the decoded `body`, if present.
pub uninterp spec fn json_member_text(body: Seq<u8>, key: Seq<char>) -> Option<Seq<char>>;

/// Decodes `body` with `serde_json::from_slice` and tells the variant of
/// the member read with `Value::get` apart.
#[verifier::external_body]
fn member_kind(body: &[u8], key: &str) -> (r: Option<MemberKind>)
    ensures
        r == json_member_kind(body@, key@),
{
    let value: Value = serde_json::from_slice(body).ok()?;
    Some(match value.get(key) {
        None => MemberKind::Absent,
        Some(Value::Null) => MemberKind::Null,
        Some(Value::Bool(_)) => MemberKind::Bool,
        Some(Value::Number(_)) => MemberKind::Number,
        Some(Value::String(_)) => MemberKind::Str,
        Some(Value::Array(_)) => MemberKind::Array,
        Some(Value::Object(_)) => MemberKind::Object,
    })
}

/// Decodes `body` with `serde_json::from_slice` and reads member `key`
/// with `Value::get` and `Value::as_str`.
#[verifier::external_body]
fn member_str(body: &[u8], key: &str) -> (r: Option<String>)
    ensures
        opt_view(r) == json_member_str(body@, key@),
{
    let value: serde_json::Value = serde_json::from_slice(body).ok()?;
    value.get(key)?.as_str().map(|s| s.to_string())
}

/// Decodes `body` with `serde_json::from_slice` and writes member `key`,
/// read with `Value::get`, back as JSON text.
#[verifier::external_body]
fn member_text(body: &[u8], key: &str) -> (r: Option<String>)
    ensures
        opt_view(r) == json_member_text(body@, key@),
{
    let value: serde_json::Value = serde_json::from_slice(body).ok()?;
    value.get(key).map(|v| v.to_string())
}

/// What the dispatch reads of a decoded message: the `jsonrpc` and
/// `method` members when they are strings, the kind of `id` and its JSON
/// text, and the kind of `params`.
#[derive(Debug)]
pub struct Envelope {
    pub jsonrpc: Option<String>,
    pub method: Option<String>,
    pub id_kind: IdKind,
    pub id_text: String,
    pub params: ParamsKind,
}

pub type EnvelopeView = (Option<Seq<char>>, Option<Seq<char>>, IdKind, Seq<char>, ParamsKind);

pub open spec fn envelope_view(e: Envelope) -> EnvelopeView {
    (opt_view(e.jsonrpc), opt_view(e.method), e.id_kind, e.id_text@, e.params)
}

pub open spec fn id_kind_of(k: MemberKind) -> IdKind {
    match k {
        MemberKind::Absent => IdKind::Absent,
        MemberKind::Null => IdKind::Null,
        MemberKind::Str => IdKind::Str,
        MemberKind::Number => IdKind::Number,
        _ => IdKind::Other,
    }
}

pub open spec fn params_kind_of(k: MemberKind) -> ParamsKind {
    match k {
        MemberKind::Absent => ParamsKind::Absent,
        MemberKind::Null => ParamsKind::Null,
        MemberKind::Object => ParamsKind::Object,
        MemberKind::Array => ParamsKind::Array,
        _ => ParamsKind::Other,
    }
}

/// What a body holds for the dispatch; `None` when it is not JSON.
pub open spec fn json_envelope(body: Seq<u8>) -> Option<EnvelopeView> {
    match json_member_kind(body, "id"@) {
        None => None,
        Some(id) => Some(
            (
                json_member_str(body, "jsonrpc"@),
                json_member_str(body, "method"@),
                id_kind_of(id),
                match json_member_text(body, "id"@) {
                    Some(t) => t,
                    None => Seq::empty(),
                },
                match json_member_kind(body, "params"@) {
                    Some(p) => params_kind_of(p),
                    None => ParamsKind::Absent,
                },
            ),
        ),
    }
}

/// Reads what the dispatch needs of a body.
pub fn parse_envelope(body: &[u8]) -> (r: Option<Envelope>)
    ensures
        match r {
            Some(e) => json_envelope(body@) == Some(envelope_view(e)),
            None => json_envelope(body@) is None,
        },
{
    let id = match member_kind(body, "id") {
        Some(k) => k,
        None => return None,
    };
    let id_kind = match id {
        MemberKind::Absent => IdKind::Absent,
        MemberKind::Null => IdKind::Null,
        MemberKind::Str => IdKind::Str,
        MemberKind::Number => IdKind::Number,
        _ => IdKind::Other,
    };
    let params = match member_kind(body, "params") {
        Some(MemberKind::Absent) => ParamsKind::Absent,
        Some(MemberKind::Null) => ParamsKind::Null,
        Some(MemberKind::Object) => ParamsKind::Object,
        Some(MemberKind::Array) => ParamsKind::Array,
        Some(_) => ParamsKind::Other,
        None => ParamsKind::Absent,
    };
    let id_text = match member_text(body, "id") {
        Some(t) => t,
        None => String::new(),
    };
    Some(
        Envelope {
            jsonrpc: member_str(body, "jsonrpc"),
            method: member_str(body, "method"),
            id_kind,
            id_text,
            params,
        },
    )
}

/// How a message is answered: handed to a request or notification handler,
/// answered with an error (with the request's id, or without one), or
/// ignored.
#[derive(Debug, PartialEq, Eq)]
pub enum Dispatch {
    Request(String),
    Notification(String),
    Reject { with_id: bool, code: i32, message: String },
    Ignore,
}

pub type DispatchView = (u8, Seq<char>, bool, i32);

/// A dispatch as plain values: its variant (request, notification,
/// rejection, ignored), the method or error message, whether an error
/// carries the id, and the error code.
pub open spec fn dispatch_view(d: Dispatch) -> DispatchView {
    match d {
        Dispatch::Request(m) => (0, m@, false, 0),
        Dispatch::Notification(m) => (1, m@, false, 0),
        Dispatch::Reject { with_id, code, message } => (2, message@, with_id, code),
        Dispatch::Ignore => (3, Seq::empty(), false, 0i32),
    }
}

/// How a message is answered. An undecodable body is a parse error
/// (-32700); a message that is not JSON-RPC 2.0, has no method or has an id
/// that is neither null, a string nor a number is an invalid request
/// (-32600); params that are neither null, an object nor an array are
/// invalid params (-32602), answered only for requests; a request for a
/// method without a handler is answered "Method not found" (-32601); a
/// notification for a method without a handler is ignored.
pub open spec fn dispatch_spec(
    envelope: Option<EnvelopeView>,
    requests: Seq<Seq<char>>,
    notifications: Seq<Seq<char>>,
) -> DispatchView {
    match envelope {
        None => (2, "Parse error"@, false, -32700i32),
        Some(e) => {
            let (jsonrpc, method, id, _, params) = e;
            if jsonrpc != Some("2.0"@) || method is None || id == IdKind::Other {
                (2, "Invalid JSON-RPC request"@, false, -32600i32)
            } else if params == ParamsKind::Other {
                if id != IdKind::Absent {
                    (2, "Invalid params"@, true, -32602i32)
                } else {
                    (3, Seq::empty(), false, 0i32)
                }
            } else if id != IdKind::Absent {
                if requests.contains(method.unwrap()) {
                    (0, method.unwrap(), false, 0i32)
                } else {
                    (2, "Method not found: "@ + method.unwrap(), true, -32601i32)
                }
            } else if notifications.contains(method.unwrap()) {
                (1, method.unwrap(), false, 0i32)
            } else {
                (3, Seq::empty(), false, 0i32)
            }
        },
    }
}

fn is_version_2(v: &Option<String>) -> (r: bool)
    ensures
        r == (opt_view(*v) == Some("2.0"@)),
{
    match v {
        Some(s) => {
            let a = chars_of(s.as_str());
            let b = chars_of("2.0");
            chars_eq(a.as_slice(), b.as_slice())
        },
        None => false,
    }
}

fn has_method(methods: &Vec<String>, method: &str) -> (r: bool)
    ensures
        r == crate::path::views(methods@).contains(method@),
{
    crate::path::contains_path(methods, method)
}

/// Decides how a decoded message (`None`: the body was not JSON) is answered.
pub fn dispatch(envelope: &Option<Envelope>, requests: &Vec<String>, notifications: &Vec<String>) -> (r: Dispatch)
    ensures
        dispatch_view(r) == dispatch_spec(
            match envelope {
                Some(e) => Some(envelope_view(*e)),
                None => None,
            },
            crate::path::views(requests@),
            crate::path::views(notifications@),
        ),
{
    let e = match envelope {
        Some(e) => e,
        None => return Dispatch::Reject { with_id: false, code: -32700, message: "Parse error".to_string() },
    };
    let method = match &e.method {
        Some(m) => m,
        None => return Dispatch::Reject { with_id: false, code: -32600, message: "Invalid JSON-RPC request".to_string() },
    };
    if !is_version_2(&e.jsonrpc) || e.id_kind == IdKind::Other {
        return Dispatch::Reject { with_id: false, code: -32600, message: "Invalid JSON-RPC request".to_string() };
    }
    if e.params == ParamsKind::Other {
        if e.id_kind != IdKind::Absent {
            return Dispatch::Reject { with_id: true, code: -32602, message: "Invalid params".to_string() };
        }
        return Dispatch::Ignore;
    }
    if e.id_kind != IdKind::Absent {
        if has_method(requests, method.as_str()) {
            Dispatch::Request(method.clone())
        } else {
            let mut text: Vec<char> = Vec::new();
            push_str(&mut text, "Method not found: ");
            push_str(&mut text, method.as_str());
            Dispatch::Reject { with_id: true, code: -32601, message: string_of(text.as_slice()) }
        }
    } else if has_method(notifications, method.as_str()) {
        Dispatch::Notification(method.clone())
    } else {
        Dispatch::Ignore
    }
}

/// Reads a frame's body and decides how it is answered.
pub fn dispatch_body(body: &[u8], requests: &Vec<String>, notifications: &Vec<String>) -> (r: Dispatch)
    ensures
        dispatch_view(r) == dispatch_spec(json_envelope(body@), crate::path::views(requests@), crate::path::views(notifications@)),
{
    let envelope = parse_envelope(body);
    dispatch(&envelope, requests, notifications)
}

} // verus!
