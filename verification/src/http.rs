//! The launcher's HTTP/1.1 exchange with the local debug endpoint: the request it
//! sends, when a reply has fully arrived, and what body a reply carries.
use crate::text::{
    decimal, decimal_text, is_space, law_decimal_digits, lemma_trim_fixed, lemma_trim_start_skips,
    lower, trim_end, trim_start,
    chars_of, contains, contains_chars, eq_ignore_ascii_case, eq_ignore_ascii_case_chars, trim,
    trimmed,
};
use vstd::prelude::*;
use vstd::string::{StrSliceExecFns, StringExecFns};
use vstd::utf8::{decode_utf8, valid_utf8};

verus! {

/// The only host the launcher's HTTP requests go to: the loopback address on
/// which the app's debug endpoint listens.
pub const DEBUG_HOST: &'static str = "127.0.0.1";

/// The largest reply the launcher reads, in bytes.
pub const MAX_RESPONSE_BYTES: usize = 1048576;

/// How `usize::from_str` fails.
#[derive(Debug, PartialEq, Eq, Structural, Clone, Copy)]
pub enum IntError {
    Empty,
    InvalidDigit,
    PosOverflow,
}

/// The text of an `IntError`, as `usize::from_str` words it.
pub open spec fn int_error_text(e: IntError) -> Seq<char> {
    match e {
        IntError::Empty => "cannot parse integer from empty string"@,
        IntError::InvalidDigit => "invalid digit found in string"@,
        IntError::PosOverflow => "number too large to fit in target type"@,
    }
}

impl IntError {
    /// The error's text.
    pub fn message(&self) -> (r: String)
        ensures
            r@ == int_error_text(*self),
    {
        match self {
            IntError::Empty => String::from_str("cannot parse integer from empty string"),
            IntError::InvalidDigit => String::from_str("invalid digit found in string"),
            IntError::PosOverflow => String::from_str("number too large to fit in target type"),
        }
    }
}

/// Why a reply of the debug endpoint cannot be used.
#[derive(Debug)]
pub enum HttpError {
    /// No blank line ends the header block.
    MissingHeaderEnd,
    /// The header block is not UTF-8; the decoder's message.
    HeadersNotUtf8(String),
    /// The status line does not report 200; the status line.
    BadStatus(String),
    /// The `Content-Length` value is no decimal `usize`.
    BadContentLength(IntError),
    /// Fewer body bytes than `Content-Length` announces.
    IncompleteBody,
    /// The body is not UTF-8; the decoder's message.
    BodyNotUtf8(String),
    /// The reply grew past `MAX_RESPONSE_BYTES`.
    TooLarge,
}

/// An `HttpError` with its texts as character sequences.
pub enum HttpFault {
    MissingHeaderEnd,
    HeadersNotUtf8(Seq<char>),
    BadStatus(Seq<char>),
    BadContentLength(IntError),
    IncompleteBody,
    BodyNotUtf8(Seq<char>),
    TooLarge,
}

impl View for HttpError {
    type V = HttpFault;

    open spec fn view(&self) -> HttpFault {
        match self {
            HttpError::MissingHeaderEnd => HttpFault::MissingHeaderEnd,
            HttpError::HeadersNotUtf8(d) => HttpFault::HeadersNotUtf8(d@),
            HttpError::BadStatus(l) => HttpFault::BadStatus(l@),
            HttpError::BadContentLength(e) => HttpFault::BadContentLength(*e),
            HttpError::IncompleteBody => HttpFault::IncompleteBody,
            HttpError::BodyNotUtf8(d) => HttpFault::BodyNotUtf8(d@),
            HttpError::TooLarge => HttpFault::TooLarge,
        }
    }
}

/// The message the launcher shows for an `HttpError`.
pub open spec fn http_error_text(e: HttpFault) -> Seq<char> {
    match e {
        HttpFault::MissingHeaderEnd => "调试服务返回了无效 HTTP 响应"@,
        HttpFault::HeadersNotUtf8(d) => "调试服务响应头不是 UTF-8："@ + d,
        HttpFault::BadStatus(l) => "调试服务返回异常状态："@ + l,
        HttpFault::BadContentLength(k) => "调试服务 Content-Length 无效："@ + int_error_text(k),
        HttpFault::IncompleteBody => "调试服务响应正文不完整"@,
        HttpFault::BodyNotUtf8(d) => "调试服务正文不是 UTF-8："@ + d,
        HttpFault::TooLarge => "调试服务响应超过安全上限"@,
    }
}

impl HttpError {
    /// The message the launcher shows for this error.
    pub fn message(&self) -> (r: String)
        ensures
            r@ == http_error_text(self@),
    {
        match self {
            HttpError::MissingHeaderEnd => String::from_str("调试服务返回了无效 HTTP 响应"),
            HttpError::HeadersNotUtf8(d) => {
                let mut m = String::from_str("调试服务响应头不是 UTF-8：");
                m.append(d.as_str());
                m
            },
            HttpError::BadStatus(l) => {
                let mut m = String::from_str("调试服务返回异常状态：");
                m.append(l.as_str());
                m
            },
            HttpError::BadContentLength(k) => {
                let mut m = String::from_str("调试服务 Content-Length 无效：");
                let text = k.message();
                m.append(text.as_str());
                m
            },
            HttpError::IncompleteBody => String::from_str("调试服务响应正文不完整"),
            HttpError::BodyNotUtf8(d) => {
                let mut m = String::from_str("调试服务正文不是 UTF-8：");
                m.append(d.as_str());
                m
            },
            HttpError::TooLarge => String::from_str("调试服务响应超过安全上限"),
        }
    }
}

/// The index of the first `c` in `s`, or the length of `s` if there is none.
pub open spec fn index_of(s: Seq<char>, c: char) -> int
    decreases s.len(),
{
    if s.len() == 0 {
        0
    } else if s[0] == c {
        0
    } else {
        1 + index_of(s.drop_first(), c)
    }
}

pub proof fn lemma_index_of(s: Seq<char>, c: char)
    ensures
        0 <= index_of(s, c) <= s.len(),
        forall|j: int| 0 <= j < index_of(s, c) ==> s[j] != c,
        index_of(s, c) < s.len() ==> s[index_of(s, c)] == c,
    decreases s.len(),
{
    if s.len() > 0 && s[0] != c {
        lemma_index_of(s.drop_first(), c);
        assert forall|j: int| 0 <= j < index_of(s, c) implies s[j] != c by {
            if j > 0 {
                assert(s[j] == s.drop_first()[j - 1]);
            }
        }
    }
}

/// `m` is where the first `c` of `s` stands (or the length when none does).
pub proof fn lemma_index_of_is(s: Seq<char>, c: char, m: int)
    requires
        0 <= m <= s.len(),
        forall|j: int| 0 <= j < m ==> s[j] != c,
        m < s.len() ==> s[m] == c,
    ensures
        index_of(s, c) == m,
    decreases s.len(),
{
    if s.len() > 0 && s[0] != c {
        assert forall|j: int| 0 <= j < m - 1 implies s.drop_first()[j] != c by {
            assert(s.drop_first()[j] == s[j + 1]);
        }
        lemma_index_of_is(s.drop_first(), c, m - 1);
    }
}

/// A line without the carriage return that ends it.
pub open spec fn strip_cr(l: Seq<char>) -> Seq<char> {
    if l.len() > 0 && l.last() == '\r' {
        l.drop_last()
    } else {
        l
    }
}

/// The lines of `s` as `str::lines` gives them: split at `\n`, a `\r` right
/// before it dropped, no empty line after a final `\n`.
pub open spec fn lines(s: Seq<char>) -> Seq<Seq<char>>
    decreases s.len(),
{
    if s.len() == 0 {
        Seq::empty()
    } else {
        let k = index_of(s, '\n');
        if k >= s.len() {
            seq![s]
        } else {
            proof {
                lemma_index_of(s, '\n');
            }
            seq![strip_cr(s.subrange(0, k))] + lines(s.subrange(k + 1, s.len() as int))
        }
    }
}

/// The trimmed value of a header line whose trimmed name is `Content-Length`
/// in any case.
pub open spec fn length_value(line: Seq<char>) -> Option<Seq<char>> {
    let c = index_of(line, ':');
    if c >= line.len() {
        None
    } else if eq_ignore_ascii_case(trim(line.subrange(0, c)), "content-length"@) {
        Some(trim(line.subrange(c + 1, line.len() as int)))
    } else {
        None
    }
}

/// The value of the first `Content-Length` line among `ls`.
pub open spec fn first_length_value(ls: Seq<Seq<char>>) -> Option<Seq<char>>
    decreases ls.len(),
{
    if ls.len() == 0 {
        None
    } else {
        match length_value(ls[0]) {
            Some(v) => Some(v),
            None => first_length_value(ls.drop_first()),
        }
    }
}

/// The `Content-Length` value of a header block, whose first line is the
/// status line.
pub open spec fn length_field(headers: Seq<char>) -> Option<Seq<char>> {
    let ls = lines(headers);
    if ls.len() == 0 {
        None
    } else {
        first_length_value(ls.drop_first())
    }
}

pub open spec fn is_digit(c: char) -> bool {
    48 <= (c as u32) <= 57
}

pub open spec fn digit_value(c: char) -> nat {
    ((c as u32) - 48) as nat
}

/// Decimal digits read from the left onto `acc`, failing at the first
/// non-digit or at the first step past `usize::MAX`.
pub open spec fn fold_digits(d: Seq<char>, acc: nat) -> Result<nat, IntError>
    decreases d.len(),
{
    if d.len() == 0 {
        Ok(acc)
    } else if !is_digit(d[0]) {
        Err(IntError::InvalidDigit)
    } else if acc * 10 + digit_value(d[0]) > usize::MAX {
        Err(IntError::PosOverflow)
    } else {
        fold_digits(d.drop_first(), acc * 10 + digit_value(d[0]))
    }
}

/// `usize::from_str`: an optional `+`, then decimal digits.
pub open spec fn parse_usize(s: Seq<char>) -> Result<usize, IntError> {
    if s.len() == 0 {
        Err(IntError::Empty)
    } else if (s[0] == '+' || s[0] == '-') && s.len() == 1 {
        Err(IntError::InvalidDigit)
    } else {
        let d = if s[0] == '+' {
            s.drop_first()
        } else {
            s
        };
        match fold_digits(d, 0) {
            Ok(v) => Ok(v as usize),
            Err(e) => Err(e),
        }
    }
}

pub proof fn lemma_fold_digits_bound(d: Seq<char>, acc: nat)
    requires
        acc <= usize::MAX,
    ensures
        fold_digits(d, acc) matches Ok(v) ==> v <= usize::MAX,
    decreases d.len(),
{
    if d.len() > 0 && is_digit(d[0]) && acc * 10 + digit_value(d[0]) <= usize::MAX {
        lemma_fold_digits_bound(d.drop_first(), acc * 10 + digit_value(d[0]));
    }
}

/// What `Content-Length` says of a header block: absent, a length, or a bad value.
pub open spec fn content_length_of(headers: Seq<char>) -> Result<Option<usize>, IntError> {
    match length_field(headers) {
        None => Ok(None),
        Some(v) => match parse_usize(v) {
            Ok(n) => Ok(Some(n)),
            Err(e) => Err(e),
        },
    }
}

/// Reads a decimal `usize` as `usize::from_str` does.
pub fn parse_usize_chars(s: &[char]) -> (r: Result<usize, IntError>)
    ensures
        r == parse_usize(s@),
{
    let n = s.len();
    if n == 0 {
        return Err(IntError::Empty);
    }
    if (s[0] == '+' || s[0] == '-') && n == 1 {
        return Err(IntError::InvalidDigit);
    }
    let start: usize = if s[0] == '+' {
        1
    } else {
        0
    };
    let ghost d = if s@[0] == '+' {
        s@.drop_first()
    } else {
        s@
    };
    assert(d =~= s@.subrange(start as int, n as int));
    let mut acc: usize = 0;
    let mut i: usize = start;
    while i < n
        invariant
            start <= i <= n,
            n == s@.len(),
            d == s@.subrange(start as int, n as int),
            parse_usize(s@) == (match fold_digits(d, 0) {
                Ok(v) => Ok(v as usize),
                Err(e) => Err(e),
            }),
            fold_digits(d, 0) == fold_digits(s@.subrange(i as int, n as int), acc as nat),
        decreases n - i,
    {
        let c = s[i];
        let u = c as u32;
        assert(s@.subrange(i as int, n as int)[0] == c);
        assert(s@.subrange(i as int, n as int).drop_first() =~= s@.subrange(i + 1, n as int));
        if !(48 <= u && u <= 57) {
            return Err(IntError::InvalidDigit);
        }
        let dv: usize = (u - 48) as usize;
        match acc.checked_mul(10) {
            None => {
                return Err(IntError::PosOverflow);
            },
            Some(m) => match m.checked_add(dv) {
                None => {
                    return Err(IntError::PosOverflow);
                },
                Some(next) => {
                    acc = next;
                },
            },
        }
        i = i + 1;
    }
    assert(s@.subrange(n as int, n as int) =~= Seq::<char>::empty());
    proof {
        lemma_fold_digits_bound(d, 0);
    }
    Ok(acc)
}


/// The first `c` in `h[from..to]`, as an index into `h`; `to` when there is none.
fn find_char(h: &[char], from: usize, to: usize, c: char) -> (r: usize)
    requires
        from <= to <= h@.len(),
    ensures
        from <= r <= to,
        r - from == index_of(h@.subrange(from as int, to as int), c),
{
    let mut i = from;
    while i < to && h[i] != c
        invariant
            from <= i <= to <= h@.len(),
            forall|j: int| from <= j < i ==> h@[j] != c,
        decreases to - i,
    {
        i = i + 1;
    }
    proof {
        let s = h@.subrange(from as int, to as int);
        assert forall|j: int| 0 <= j < i - from implies s[j] != c by {
            assert(s[j] == h@[from + j]);
        }
        lemma_index_of_is(s, c, i - from);
    }
    i
}

/// `length_value` of the line `h[a..b]`.
fn length_value_of_line(h: &[char], a: usize, b: usize) -> (r: Option<Vec<char>>)
    requires
        a <= b <= h@.len(),
    ensures
        match r {
            Some(v) => length_value(h@.subrange(a as int, b as int)) == Some(v@),
            None => length_value(h@.subrange(a as int, b as int)) is None,
        },
{
    let ghost line = h@.subrange(a as int, b as int);
    let colon = find_char(h, a, b, ':');
    if colon >= b {
        return None;
    }
    let name = trimmed(&h[a..colon]);
    let key = chars_of("content-length");
    assert(line.subrange(0, colon - a) =~= h@.subrange(a as int, colon as int));
    if !eq_ignore_ascii_case_chars(name.as_slice(), key.as_slice()) {
        return None;
    }
    assert(line.subrange(colon - a + 1, line.len() as int) =~= h@.subrange(colon + 1, b as int));
    Some(trimmed(&h[colon + 1..b]))
}

/// The `Content-Length` value of the header block `h`.
fn find_length_field(h: &[char]) -> (r: Option<Vec<char>>)
    ensures
        match r {
            Some(v) => length_field(h@) == Some(v@),
            None => length_field(h@) is None,
        },
{
    let n = h.len();
    if n == 0 {
        return None;
    }
    let e0 = find_char(h, 0, n, '\n');
    assert(h@.subrange(0, n as int) =~= h@);
    if e0 >= n {
        return None;
    }
    let ghost rest0 = h@.subrange(e0 + 1, n as int);
    assert(lines(h@).drop_first() =~= lines(rest0));
    let mut p = e0 + 1;
    while p < n
        invariant
            p <= n == h@.len(),
            length_field(h@) == first_length_value(lines(h@.subrange(p as int, n as int))),
        decreases n - p,
    {
        let ghost s = h@.subrange(p as int, n as int);
        let e = find_char(h, p, n, '\n');
        let line_end = if e < n && e > p && h[e - 1] == '\r' {
            e - 1
        } else {
            e
        };
        proof {
            lemma_index_of(s, '\n');
            if e < n {
                assert(s.subrange(0, e - p) =~= h@.subrange(p as int, e as int));
                assert(strip_cr(s.subrange(0, e - p)) =~= h@.subrange(p as int, line_end as int));
                assert(s.subrange(e - p + 1, s.len() as int) =~= h@.subrange(e + 1, n as int));
                assert(lines(s).drop_first() =~= lines(h@.subrange(e + 1, n as int)));
            } else {
                assert(s =~= h@.subrange(p as int, line_end as int));
                assert(lines(s) == seq![s]);
            }
        }
        let v = length_value_of_line(h, p, line_end);
        if v.is_some() {
            return v;
        }
        if e >= n {
            assert(lines(s).drop_first() =~= Seq::<Seq<char>>::empty());
            assert(first_length_value(lines(s).drop_first()) is None);
            return None;
        }
        p = e + 1;
    }
    assert(h@.subrange(p as int, n as int) =~= Seq::<char>::empty());
    None
}

/// What the `Content-Length` header of the block says.
pub fn content_length(headers: &str) -> (r: Result<Option<usize>, HttpError>)
    ensures
        match content_length_of(headers@) {
            Ok(v) => r == Ok::<Option<usize>, HttpError>(v),
            Err(e) => r == Err::<Option<usize>, HttpError>(HttpError::BadContentLength(e)),
        },
{
    let h = chars_of(headers);
    match find_length_field(h.as_slice()) {
        None => Ok(None),
        Some(v) => match parse_usize_chars(v.as_slice()) {
            Ok(n) => Ok(Some(n)),
            Err(e) => Err(HttpError::BadContentLength(e)),
        },
    }
}


/// `\r\n\r\n` starts at `i`.
pub open spec fn blank_line_at(r: Seq<u8>, i: int) -> bool {
    &&& 0 <= i
    &&& i + 4 <= r.len()
    &&& r[i] == 13
    &&& r[i + 1] == 10
    &&& r[i + 2] == 13
    &&& r[i + 3] == 10
}

/// The first `\r\n\r\n` at or after `i`.
pub open spec fn header_end_from(r: Seq<u8>, i: nat) -> Option<int>
    decreases r.len() - i,
{
    if i + 4 > r.len() {
        None
    } else if blank_line_at(r, i as int) {
        Some(i as int)
    } else {
        header_end_from(r, i + 1)
    }
}

/// Where the header block ends: the first `\r\n\r\n` of the reply.
pub open spec fn header_end(r: Seq<u8>) -> Option<int> {
    header_end_from(r, 0)
}

pub proof fn lemma_header_end_from(r: Seq<u8>, i: nat)
    ensures
        match header_end_from(r, i) {
            Some(k) => i <= k && blank_line_at(r, k) && forall|j: int|
                i <= j < k ==> !blank_line_at(r, j),
            None => forall|j: int| i <= j ==> !blank_line_at(r, j),
        },
    decreases r.len() - i,
{
    if i + 4 <= r.len() && !blank_line_at(r, i as int) {
        lemma_header_end_from(r, i + 1);
    }
}

/// The header block ends at the first blank line, and nowhere if there is none.
pub proof fn lemma_header_end(r: Seq<u8>)
    ensures
        match header_end(r) {
            Some(k) => blank_line_at(r, k) && forall|j: int| 0 <= j < k ==> !blank_line_at(r, j),
            None => forall|j: int| !blank_line_at(r, j),
        },
{
    lemma_header_end_from(r, 0);
}

/// Where the header block of `response` ends, if it does.
pub fn find_header_end(response: &[u8]) -> (r: Option<usize>)
    ensures
        match r {
            Some(i) => header_end(response@) == Some(i as int),
            None => header_end(response@) is None,
        },
{
    let n = response.len();
    let mut i: usize = 0;
    while n >= 4 && i <= n - 4
        invariant
            n == response@.len(),
            header_end(response@) == header_end_from(response@, i as nat),
        decreases n - i,
    {
        if response[i] == 13 && response[i + 1] == 10 && response[i + 2] == 13 && response[i + 3]
            == 10 {
            return Some(i);
        }
        i = i + 1;
    }
    None
}

/// The message of the error that `std::str::from_utf8` gives for `bytes`.
pub uninterp spec fn utf8_error_text(bytes: Seq<u8>) -> Seq<char>;

/// `std::str::from_utf8`: succeeds exactly on valid UTF-8 and then yields the
/// characters that the bytes encode (as the standard library documents). On
/// other bytes the error's message is passed on; it is a function of the bytes
/// alone (where the valid prefix ends and how the next sequence fails), named
/// `utf8_error_text`, and its wording is not stated.
#[verifier::external_body]
fn utf8_str(bytes: &[u8]) -> (r: Result<&str, String>)
    ensures
        match r {
            Ok(s) => valid_utf8(bytes@) && s@ == decode_utf8(bytes@),
            Err(e) => !valid_utf8(bytes@) && e@ == utf8_error_text(bytes@),
        },
{
    match std::str::from_utf8(bytes) {
        Ok(text) => Ok(text),
        Err(error) => Err(format!("{error}")),
    }
}

/// Whether a reply has fully arrived: a header block, then as many body bytes
/// as `Content-Length` announces. Without that header it never counts as
/// complete; the reader then waits for the connection to end.
pub open spec fn response_complete(r: Seq<u8>) -> Result<bool, HttpFault> {
    match header_end(r) {
        None => Ok(false),
        Some(k) => {
            let hb = r.subrange(0, k);
            if !valid_utf8(hb) {
                Err(HttpFault::HeadersNotUtf8(utf8_error_text(hb)))
            } else {
                match content_length_of(decode_utf8(hb)) {
                    Err(e) => Err(HttpFault::BadContentLength(e)),
                    Ok(None) => Ok(false),
                    Ok(Some(n)) => Ok(r.len() >= k + 4 + n),
                }
            }
        },
    }
}

/// A completeness answer with its error as a model.
pub open spec fn complete_view(r: Result<bool, HttpError>) -> Result<bool, HttpFault> {
    match r {
        Ok(b) => Ok(b),
        Err(e) => Err(e@),
    }
}

/// Whether the reply bytes read so far make a whole reply.
pub fn http_response_complete(response: &[u8]) -> (r: Result<bool, HttpError>)
    ensures
        complete_view(r) == response_complete(response@),
{
    let header_end = match find_header_end(response) {
        None => {
            return Ok(false);
        },
        Some(k) => k,
    };
    proof {
        lemma_header_end(response@);
    }
    let headers = match utf8_str(&response[0..header_end]) {
        Err(detail) => {
            return Err(HttpError::HeadersNotUtf8(detail));
        },
        Ok(h) => h,
    };
    match content_length(headers) {
        Err(e) => Err(e),
        Ok(None) => Ok(false),
        Ok(Some(n)) => Ok(response.len() - (header_end + 4) >= n),
    }
}


/// The first line of a header block, empty if the block is.
pub open spec fn status_line(headers: Seq<char>) -> Seq<char> {
    let ls = lines(headers);
    if ls.len() == 0 {
        Seq::empty()
    } else {
        ls[0]
    }
}

/// The body cut to the announced length; none when it is shorter than that.
pub open spec fn announced_body(body: Seq<u8>, length: Option<usize>) -> Option<Seq<u8>> {
    match length {
        None => Some(body),
        Some(n) => if n <= body.len() {
            Some(body.subrange(0, n as int))
        } else {
            None
        },
    }
}

/// What the launcher makes of the reply `resp`: its body as text when the
/// status is 200, the headers are UTF-8, the body is as long as announced and
/// UTF-8; otherwise the first of these checks that fails.
pub open spec fn parse_result(resp: Seq<u8>) -> Result<Seq<char>, HttpFault> {
    match header_end(resp) {
        None => Err(HttpFault::MissingHeaderEnd),
        Some(k) => {
            let hb = resp.subrange(0, k);
            if !valid_utf8(hb) {
                Err(HttpFault::HeadersNotUtf8(utf8_error_text(hb)))
            } else {
                let h = decode_utf8(hb);
                if !contains(status_line(h), " 200 "@) {
                    Err(HttpFault::BadStatus(status_line(h)))
                } else {
                    let body = resp.subrange(k + 4, resp.len() as int);
                    match content_length_of(h) {
                        Err(e) => Err(HttpFault::BadContentLength(e)),
                        Ok(length) => match announced_body(body, length) {
                            None => Err(HttpFault::IncompleteBody),
                            Some(b) => if valid_utf8(b) {
                                Ok(decode_utf8(b))
                            } else {
                                Err(HttpFault::BodyNotUtf8(utf8_error_text(b)))
                            },
                        },
                    }
                }
            }
        },
    }
}

/// A body-or-error answer as a model.
pub open spec fn text_view(r: Result<String, HttpError>) -> Result<Seq<char>, HttpFault> {
    match r {
        Ok(t) => Ok(t@),
        Err(e) => Err(e@),
    }
}

/// The end of the status line of `h` (its `\r` left out).
fn status_line_end(h: &[char]) -> (r: usize)
    ensures
        r <= h@.len(),
        h@.subrange(0, r as int) == status_line(h@),
{
    let n = h.len();
    if n == 0 {
        assert(h@.subrange(0, 0) =~= Seq::<char>::empty());
        return 0;
    }
    let e = find_char(h, 0, n, '\n');
    assert(h@.subrange(0, n as int) =~= h@);
    proof {
        lemma_index_of(h@, '\n');
    }
    if e < n && e > 0 && h[e - 1] == '\r' {
        assert(strip_cr(h@.subrange(0, e as int)) =~= h@.subrange(0, e - 1));
        e - 1
    } else {
        assert(strip_cr(h@.subrange(0, e as int)) =~= h@.subrange(0, e as int) || e == n);
        e
    }
}

/// The body of a complete 200 reply of the debug endpoint, as text.
pub fn parse_http_response(response: &[u8]) -> (r: Result<String, HttpError>)
    ensures
        text_view(r) == parse_result(response@),
{
    let header_end = match find_header_end(response) {
        None => {
            return Err(HttpError::MissingHeaderEnd);
        },
        Some(k) => k,
    };
    proof {
        lemma_header_end(response@);
    }
    assert(blank_line_at(response@, header_end as int));
    let total = response.len();
    assert(header_end + 4 <= total);
    let headers = match utf8_str(&response[0..header_end]) {
        Err(detail) => {
            return Err(HttpError::HeadersNotUtf8(detail));
        },
        Ok(h) => h,
    };
    let hc = chars_of(headers);
    let status_end = status_line_end(hc.as_slice());
    let ok_marker = chars_of(" 200 ");
    if !contains_chars(&hc.as_slice()[0..status_end], ok_marker.as_slice()) {
        let line = headers.substring_char(0, status_end);
        return Err(HttpError::BadStatus(String::from_str(line)));
    }
    let body = &response[header_end + 4..total];
    let limited: &[u8] = match content_length(headers) {
        Err(e) => {
            return Err(e);
        },
        Ok(None) => body,
        Ok(Some(n)) => {
            if n <= body.len() {
                &body[0..n]
            } else {
                return Err(HttpError::IncompleteBody);
            }
        },
    };
    match utf8_str(limited) {
        Err(detail) => Err(HttpError::BodyNotUtf8(detail)),
        Ok(text) => Ok(String::from_str(text)),
    }
}


/// The reply bytes read so far, never more than `MAX_RESPONSE_BYTES`.
pub struct ResponseBuffer {
    bytes: Vec<u8>,
}

impl View for ResponseBuffer {
    type V = Seq<u8>;

    closed spec fn view(&self) -> Seq<u8> {
        self.bytes@
    }
}

impl ResponseBuffer {
    #[verifier::type_invariant]
    spec fn bounded(self) -> bool {
        self.bytes@.len() <= MAX_RESPONSE_BYTES
    }

    /// An empty buffer.
    pub fn new() -> (b: Self)
        ensures
            b@ == Seq::<u8>::empty(),
    {
        ResponseBuffer { bytes: Vec::new() }
    }

    /// The bytes read so far.
    pub fn as_bytes(&self) -> (r: &[u8])
        ensures
            r@ == self@,
    {
        self.bytes.as_slice()
    }

    /// Whether nothing has been read yet.
    pub fn is_empty(&self) -> (r: bool)
        ensures
            r == (self@.len() == 0),
    {
        self.bytes.len() == 0
    }

    /// Adds the bytes of one read. A read that would take the reply past
    /// `MAX_RESPONSE_BYTES` is refused and leaves the buffer as it was;
    /// otherwise the bytes are appended and the answer says whether the reply
    /// is now complete.
    pub fn push_chunk(&mut self, chunk: &[u8]) -> (r: Result<bool, HttpError>)
        ensures
            final(self)@.len() <= MAX_RESPONSE_BYTES,
            old(self)@.len() + chunk@.len() > MAX_RESPONSE_BYTES ==> {
                &&& complete_view(r) == Err::<bool, HttpFault>(HttpFault::TooLarge)
                &&& final(self)@ == old(self)@
            },
            old(self)@.len() + chunk@.len() <= MAX_RESPONSE_BYTES ==> {
                &&& final(self)@ == old(self)@ + chunk@
                &&& complete_view(r) == response_complete(final(self)@)
            },
    {
        proof {
            use_type_invariant(&*self);
        }
        if chunk.len() > MAX_RESPONSE_BYTES - self.bytes.len() {
            return Err(HttpError::TooLarge);
        }
        let mut bytes = Vec::new();
        std::mem::swap(&mut bytes, &mut self.bytes);
        let ghost before = bytes@;
        let n = chunk.len();
        for i in 0..n
            invariant
                n == chunk@.len(),
                bytes@ == before + chunk@.take(i as int),
        {
            bytes.push(chunk[i]);
            assert(chunk@.take(i + 1) =~= chunk@.take(i as int).push(chunk@[i as int]));
        }
        assert(chunk@.take(n as int) =~= chunk@);
        self.bytes = bytes;
        http_response_complete(self.bytes.as_slice())
    }

    /// The body of the reply read so far, as `parse_http_response` gives it.
    pub fn finish(&self) -> (r: Result<String, HttpError>)
        ensures
            text_view(r) == parse_result(self@),
    {
        parse_http_response(self.bytes.as_slice())
    }
}


/// The request for `path` on the debug endpoint at `DEBUG_HOST` and `port`, asking the
/// server to close the connection after its reply.
pub open spec fn get_request(path: Seq<char>, port: u16) -> Seq<char> {
    "GET "@ + path + " HTTP/1.1\r\nHost: "@ + DEBUG_HOST@ + ":"@ + decimal(port as nat)
        + "\r\nConnection: close\r\n\r\n"@
}

/// The text of the GET request for `path` at the loopback debug `port`.
pub fn get_request_text(path: &str, port: u16) -> (r: String)
    ensures
        r@ == get_request(path@, port),
{
    let mut request = String::from_str("GET ");
    request.append(path);
    request.append(" HTTP/1.1\r\nHost: ");
    request.append(DEBUG_HOST);
    request.append(":");
    let digits = decimal_text(port as u64);
    request.append(digits.as_str());
    request.append("\r\nConnection: close\r\n\r\n");
    request
}


proof fn lemma_header_end_extends(r: Seq<u8>, more: Seq<u8>, i: nat, k: int)
    requires
        i <= k,
        header_end_from(r, i) == Some(k),
    ensures
        header_end_from(r + more, i) == Some(k),
    decreases k - i,
{
    lemma_header_end_from(r, i);
    let rm = r + more;
    assert(rm.subrange(0, r.len() as int) =~= r);
    if blank_line_at(r, i as int) {
        assert(blank_line_at(rm, i as int));
    } else {
        assert(!blank_line_at(rm, i as int)) by {
            if i + 4 <= r.len() {
                assert(rm[i as int] == r[i as int]);
                assert(rm[(i + 1) as int] == r[(i + 1) as int]);
                assert(rm[(i + 2) as int] == r[(i + 2) as int]);
                assert(rm[(i + 3) as int] == r[(i + 3) as int]);
            }
        }
        lemma_header_end_extends(r, more, i + 1, k);
    }
}

/// A reply once complete stays complete whatever bytes follow it: the reader may
/// stop at the first read after which `http_response_complete` says so.
pub proof fn law_completion_survives_more_bytes(r: Seq<u8>, more: Seq<u8>)
    requires
        response_complete(r) == Ok::<bool, HttpFault>(true),
    ensures
        response_complete(r + more) == Ok::<bool, HttpFault>(true),
{
    let k = header_end(r)->0;
    lemma_header_end_from(r, 0);
    lemma_header_end_extends(r, more, 0, k);
    assert((r + more).subrange(0, k) =~= r.subrange(0, k));
}

/// A reply that `http_response_complete` calls complete is never refused by
/// `parse_http_response` for a missing header end, bad headers or a short body.
pub proof fn law_complete_reply_is_whole(r: Seq<u8>)
    requires
        response_complete(r) == Ok::<bool, HttpFault>(true),
    ensures
        !(parse_result(r) matches Err(HttpFault::MissingHeaderEnd)),
        !(parse_result(r) matches Err(HttpFault::HeadersNotUtf8(_))),
        !(parse_result(r) matches Err(HttpFault::BadContentLength(_))),
        !(parse_result(r) matches Err(HttpFault::IncompleteBody)),
{
    lemma_header_end(r);
    let k = header_end(r)->0;
    let body = r.subrange(k + 4, r.len() as int);
    assert(body.len() == r.len() - (k + 4));
}

/// A reply whose body is shorter than its `Content-Length` is not complete, and
/// `parse_http_response` refuses it as incomplete once its status is 200.
pub proof fn law_truncated_reply_is_refused(r: Seq<u8>)
    requires
        header_end(r) matches Some(k) && k + 4 <= r.len(),
        valid_utf8(r.subrange(0, header_end(r)->0)),
        content_length_of(decode_utf8(r.subrange(0, header_end(r)->0))) matches Ok(Some(n))
            && r.len() < header_end(r)->0 + 4 + n,
    ensures
        response_complete(r) == Ok::<bool, HttpFault>(false),
        contains(status_line(decode_utf8(r.subrange(0, header_end(r)->0))), " 200 "@)
            ==> parse_result(r) == Err::<Seq<char>, HttpFault>(HttpFault::IncompleteBody),
{
    lemma_header_end(r);
    let k = header_end(r)->0;
    let body = r.subrange(k + 4, r.len() as int);
    assert(body.len() == r.len() - (k + 4));
}

proof fn lemma_fold_push(s: Seq<char>, c: char, acc: nat)
    ensures
        fold_digits(s.push(c), acc) == (match fold_digits(s, acc) {
            Ok(v) => if !is_digit(c) {
                Err(IntError::InvalidDigit)
            } else if v * 10 + digit_value(c) > usize::MAX {
                Err(IntError::PosOverflow)
            } else {
                Ok(v * 10 + digit_value(c))
            },
            Err(e) => Err(e),
        }),
    decreases s.len(),
{
    if s.len() == 0 {
        assert(s.push(c).drop_first() =~= Seq::<char>::empty());
        assert(s.push(c)[0] == c);
        assert(fold_digits(s, acc) == Ok::<nat, IntError>(acc));
        if is_digit(c) && acc * 10 + digit_value(c) <= usize::MAX {
            assert(fold_digits(Seq::<char>::empty(), acc * 10 + digit_value(c)) == Ok::<nat, IntError>(
                acc * 10 + digit_value(c),
            ));
        }
    } else {
        assert(s.push(c)[0] == s[0]);
        assert(s.push(c).drop_first() =~= s.drop_first().push(c));
        if is_digit(s[0]) && acc * 10 + digit_value(s[0]) <= usize::MAX {
            lemma_fold_push(s.drop_first(), c, acc * 10 + digit_value(s[0]));
        }
    }
}

proof fn lemma_fold_decimal(n: nat)
    requires
        n <= usize::MAX,
    ensures
        fold_digits(decimal(n), 0) == Ok::<nat, IntError>(n),
    decreases n,
{
    law_decimal_digits(n);
    let d = decimal(n);
    if n < 10 {
        assert(d =~= Seq::<char>::empty().push(d[0]));
        lemma_fold_push(Seq::<char>::empty(), d[0], 0);
    } else {
        lemma_fold_decimal(n / 10);
        assert(d =~= decimal(n / 10).push(d.last()));
        lemma_fold_push(decimal(n / 10), d.last(), 0);
        assert((n / 10) * 10 + n % 10 == n);
    }
}

/// The decimal text of a number, as the launcher writes ports and lengths,
/// reads back as that number.
pub proof fn law_decimal_reads_back(n: nat)
    requires
        n <= usize::MAX,
    ensures
        parse_usize(decimal(n)) == Ok::<usize, IntError>(n as usize),
{
    law_decimal_digits(n);
    lemma_fold_decimal(n);
    assert(decimal(n)[0] != '+' && decimal(n)[0] != '-');
}

proof fn lemma_lines_split(a: Seq<char>, b: Seq<char>)
    requires
        !a.contains('\n'),
    ensures
        lines(a + seq!['\n'] + b) == seq![strip_cr(a)] + lines(b),
{
    let s = a + seq!['\n'] + b;
    assert forall|j: int| 0 <= j < a.len() implies s[j] != '\n' by {
        assert(s[j] == a[j]);
        if a[j] == '\n' {
            assert(a.contains('\n'));
        }
    }
    assert(s[a.len() as int] == '\n');
    lemma_index_of_is(s, '\n', a.len() as int);
    assert(s.subrange(0, a.len() as int) =~= a);
    assert(s.subrange(a.len() as int + 1, s.len() as int) =~= b);
}

/// A header block whose line after the status line is `Content-Length:`
/// followed by blanks or tabs (none, as Chromium writes it, or some) and the
/// decimal text of `n` announces exactly `n` body bytes, whatever the status
/// line and whatever lines follow: the value is all that follows the colon,
/// with only the white space around it left out.
pub proof fn law_content_length_is_the_value_after_the_colon(
    status: Seq<char>,
    gap: Seq<char>,
    n: nat,
    rest: Seq<char>,
)
    requires
        n <= usize::MAX,
        !status.contains('\n'),
        forall|i: int| 0 <= i < gap.len() ==> #[trigger] gap[i] == ' ' || gap[i] == '\t',
    ensures
        content_length_of(status + "\r\nContent-Length:"@ + gap + decimal(n) + "\r\n"@ + rest)
            == Ok::<Option<usize>, IntError>(Some(n as usize)),
{
    reveal_strlit("\r\nContent-Length:");
    reveal_strlit("\r\n");
    reveal_strlit("Content-Length:");
    reveal_strlit("content-length");
    law_decimal_digits(n);
    law_decimal_reads_back(n);
    let d = decimal(n);
    let name = "Content-Length"@;
    reveal_strlit("Content-Length");
    let line = "Content-Length:"@ + gap + d;
    let h = status + "\r\nContent-Length:"@ + gap + d + "\r\n"@ + rest;
    let a = status.push('\r');
    let b = line.push('\r') + seq!['\n'] + rest;
    assert(h =~= a + seq!['\n'] + b);
    assert(!a.contains('\n')) by {
        if a.contains('\n') {
            let j = choose|j: int| 0 <= j < a.len() && a[j] == '\n';
            assert(j < status.len());
            assert(status[j] == a[j]);
        }
    }
    assert(!line.push('\r').contains('\n')) by {
        if line.push('\r').contains('\n') {
            let j = choose|j: int| 0 <= j < line.push('\r').len() && line.push('\r')[j] == '\n';
            if j >= 15 && j < 15 + gap.len() {
                assert(line.push('\r')[j] == gap[j - 15]);
            } else if j >= 15 + gap.len() && j < line.len() {
                assert(line.push('\r')[j] == d[j - 15 - gap.len()]);
            }
        }
    }
    lemma_lines_split(a, b);
    lemma_lines_split(line.push('\r'), rest);
    assert(strip_cr(line.push('\r')) =~= line);
    let ls = lines(h);
    assert(ls.drop_first() =~= seq![line] + lines(rest));
    assert(ls.drop_first()[0] == line);
    // the line's name and value
    assert forall|j: int| 0 <= j < 14 implies line[j] != ':' by {
        assert(line[j] == name[j]);
    }
    assert(line[14] == ':');
    lemma_index_of_is(line, ':', 14);
    assert(line.subrange(0, 14) =~= name);
    lemma_trim_fixed(name);
    assert(lower(name) =~= lower("content-length"@));
    assert(line.subrange(15, line.len() as int) =~= gap + d);
    assert forall|i: int| 0 <= i < gap.len() implies is_space(#[trigger] gap[i]) by {
        assert(gap[i] == ' ' || gap[i] == '\t');
    }
    lemma_trim_start_skips(gap, d);
    assert(!is_space(d[0]));
    assert(!is_space(d.last()));
    lemma_trim_fixed(d);
    assert(trim_start(d) == d);
    assert(length_value(line) == Some(d));
}

} // verus!
