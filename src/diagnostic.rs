//! Reading the evaluator's diagnostics: the error message, and the place in the
//! source that a `line N)` marker points at.

use vstd::prelude::*;

use crate::error::{KarabinerPklError, Span};
use crate::text::{find_sub, find_substring, trim, trimmed};
use vstd::utf8::encode_utf8;

verus! {

/// The end of the banner that opens an evaluator error report.
pub open spec fn banner() -> Seq<char> {
    "Error ––"@
}

/// The second line of a text, when it has one: a line ends at a newline, and a
/// final newline does not begin another line.
pub open spec fn second_line(s: Seq<char>) -> Option<Seq<char>> {
    match find_sub(s, "\n"@) {
        Some(i) => {
            let rest = s.subrange(i + 1, s.len() as int);
            if rest.len() == 0 {
                None
            } else {
                match find_sub(rest, "\n"@) {
                    Some(j) => Some(rest.take(j)),
                    None => Some(rest),
                }
            }
        },
        None => None,
    }
}

/// The message of an evaluator error report: the paragraph after the banner,
/// trimmed, without a trailing `(line N)` location. Without a banner, the
/// report's second line, trimmed, or a generic message when it has none.
pub open spec fn error_message_of(s: Seq<char>) -> Seq<char> {
    match find_sub(s, banner()) {
        Some(i) => {
            let rest = s.subrange(i + banner().len(), s.len() as int);
            let para = match find_sub(rest, "\n\n"@) {
                Some(j) => rest.take(j),
                None => rest,
            };
            let m = trim(para);
            match find_sub(m, "(line "@) {
                Some(k) => trim(m.take(k)),
                None => m,
            }
        },
        None => match second_line(s) {
            Some(l) => trim(l),
            None => "Compilation failed"@,
        },
    }
}

/// Extracts the message of an evaluator error report.
pub fn error_message(stderr: &str) -> (r: String)
    ensures
        r@ == error_message_of(stderr@),
{
    let banner = "Error ––";
    proof {
        reveal_strlit("Error ––");
    }
    match find_substring(stderr, banner) {
        Some(i) => {
            let n = stderr.unicode_len();
            let b = banner.unicode_len();
            let rest = stderr.substring_char(i + b, n);
            let para = match find_substring(rest, "\n\n") {
                Some(j) => rest.substring_char(0, j),
                None => rest,
            };
            proof {
                assert(rest@.take(para@.len() as int) =~= para@);
            }
            let m = trimmed(para);
            match find_substring(m.as_str(), "(line ") {
                Some(k) => {
                    let head = m.as_str().substring_char(0, k);
                    assert(head@ =~= m@.take(k as int));
                    trimmed(head)
                },
                None => m,
            }
        },
        None => {
            proof {
                reveal_strlit("\n");
            }
            match find_substring(stderr, "\n") {
                Some(i) => {
                    let n = stderr.unicode_len();
                    let rest = stderr.substring_char(i + 1, n);
                    if rest.unicode_len() == 0 {
                        "Compilation failed".to_string()
                    } else {
                        let line = match find_substring(rest, "\n") {
                            Some(j) => rest.substring_char(0, j),
                            None => rest,
                        };
                        proof {
                            assert(rest@.take(line@.len() as int) =~= line@);
                        }
                        trimmed(line)
                    }
                },
                None => "Compilation failed".to_string(),
            }
        },
    }
}

pub open spec fn is_digit(c: char) -> bool {
    '0' <= c <= '9'
}

/// A non-empty string of decimal digits.
pub open spec fn all_digits(d: Seq<char>) -> bool {
    d.len() > 0 && forall|i: int| 0 <= i < d.len() ==> is_digit(#[trigger] d[i])
}

/// The value of a string of decimal digits.
pub open spec fn digits_value(s: Seq<char>) -> int
    decreases s.len(),
{
    if s.len() == 0 {
        0
    } else {
        digits_value(s.drop_last()) * 10 + (s.last() as int - '0' as int)
    }
}

/// The line number that a string of digits names, when it is one and fits in a `usize`.
pub open spec fn line_number_of(d: Seq<char>) -> Option<int> {
    if all_digits(d) && digits_value(d) <= usize::MAX {
        Some(digits_value(d))
    } else {
        None
    }
}

/// The value of a prefix of a string of digits is at most that of the whole.
pub proof fn lemma_digits_value_grows(s: Seq<char>, k: int)
    requires
        0 <= k <= s.len(),
        forall|i: int| 0 <= i < s.len() ==> is_digit(#[trigger] s[i]),
    ensures
        0 <= digits_value(s.take(k)) <= digits_value(s),
    decreases s.len(),
{
    if s.len() > 0 {
        if k == s.len() {
            assert(s.take(k) =~= s);
            lemma_digits_value_grows(s.drop_last(), s.len() - 1);
            assert(s.drop_last().take(s.len() - 1) =~= s.drop_last());
        } else {
            lemma_digits_value_grows(s.drop_last(), k);
            assert(s.drop_last().take(k) =~= s.take(k));
            lemma_digits_value_grows(s.drop_last(), s.len() - 1);
            assert(s.drop_last().take(s.len() - 1) =~= s.drop_last());
        }
    } else {
        assert(s.take(k) =~= s);
    }
}

/// The value of a non-empty string of decimal digits, when it is at most `bound`.
pub fn parse_digits(d: &str, bound: u64) -> (r: Option<u64>)
    ensures
        match r {
            Some(v) => all_digits(d@) && v == digits_value(d@) && v <= bound,
            None => !(all_digits(d@) && digits_value(d@) <= bound),
        },
{
    let n = d.unicode_len();
    if n == 0 {
        return None;
    }
    let mut acc: u64 = 0;
    let mut i: usize = 0;
    while i < n
        invariant
            n == d@.len(),
            0 <= i <= n,
            forall|t: int| 0 <= t < i ==> is_digit(#[trigger] d@[t]),
            acc as int == digits_value(d@.take(i as int)),
            acc <= bound,
        decreases n - i,
    {
        let c = d.get_char(i);
        if !('0' <= c && c <= '9') {
            return None;
        }
        let k = (c as u32 - '0' as u32) as u64;
        assert(d@.take(i + 1).drop_last() =~= d@.take(i as int));
        if k > bound || acc > (bound - k) / 10 {
            proof {
                if k <= bound {
                    assert(acc * 10 + k > bound) by (nonlinear_arith)
                        requires
                            acc > (bound - k) / 10,
                            k <= 9,
                    ;
                }
                if forall|t: int| 0 <= t < n ==> is_digit(#[trigger] d@[t]) {
                    lemma_digits_value_grows(d@, i + 1);
                }
            }
            return None;
        }
        proof {
            assert(acc * 10 + k <= bound) by (nonlinear_arith)
                requires
                    acc <= (bound - k) / 10,
                    k <= bound,
            ;
        }
        acc = acc * 10 + k;
        i = i + 1;
    }
    assert(d@.take(n as int) =~= d@);
    Some(acc)
}

/// Reads a string of decimal digits as a line number.
pub fn parse_line_number(digits: &str) -> (r: Option<usize>)
    ensures
        match line_number_of(digits@) {
            Some(n) => r matches Some(x) && x as int == n,
            None => r is None,
        },
{
    let bound = usize::MAX as u64;
    assert(bound == usize::MAX);
    match parse_digits(digits, bound) {
        Some(v) => Some(v as usize),
        None => None,
    }
}

/// The first newline at or after `i`, or the end of `s`.
pub open spec fn next_newline(s: Seq<u8>, i: int) -> int
    decreases s.len() - i,
{
    if i < 0 || i >= s.len() {
        s.len() as int
    } else if s[i] == 10u8 {
        i
    } else {
        next_newline(s, i + 1)
    }
}

/// Where line `n` begins, counting the line that begins at `o` as line 1.
pub open spec fn line_start_from(s: Seq<u8>, n: int, o: int) -> Option<int>
    decreases n,
{
    if n <= 1 {
        Some(o)
    } else {
        let e = next_newline(s, o);
        if e >= s.len() {
            None
        } else {
            line_start_from(s, n - 1, e + 1)
        }
    }
}

/// The offset and length of line `n` of `s`, counting from 1, when it has one.
pub open spec fn line_span_of(s: Seq<u8>, n: int) -> Option<(int, int)> {
    if n < 1 {
        None
    } else {
        match line_start_from(s, n, 0) {
            Some(o) => Some((o, next_newline(s, o) - o)),
            None => None,
        }
    }
}

/// The view of a span as offset and length.
pub open spec fn span_view(sp: Option<Span>) -> Option<(int, int)> {
    match sp {
        Some(x) => Some((x.offset as int, x.len as int)),
        None => None,
    }
}

proof fn lemma_next_newline_bounds(s: Seq<u8>, i: int)
    requires
        0 <= i <= s.len(),
    ensures
        i <= next_newline(s, i) <= s.len(),
    decreases s.len() - i,
{
    if i < s.len() && s[i] != 10u8 {
        lemma_next_newline_bounds(s, i + 1);
    }
}

fn scan_newline(s: &[u8], o: usize) -> (r: usize)
    requires
        o <= s@.len(),
    ensures
        r as int == next_newline(s@, o as int),
{
    let mut j = o;
    while j < s.len() && s[j] != 10u8
        invariant
            o <= j <= s@.len(),
            next_newline(s@, o as int) == next_newline(s@, j as int),
        decreases s@.len() - j,
    {
        j = j + 1;
    }
    j
}

/// The span of line `line` of `source`, counting from 1.
pub fn line_span(source: &[u8], line: usize) -> (r: Option<Span>)
    ensures
        span_view(r) == line_span_of(source@, line as int),
{
    if line == 0 {
        return None;
    }
    let mut o: usize = 0;
    let mut k: usize = 1;
    while k < line
        invariant
            1 <= k <= line,
            0 <= o <= source@.len(),
            line_start_from(source@, line as int, 0) == line_start_from(
                source@,
                line - k + 1,
                o as int,
            ),
        decreases line - k,
    {
        let e = scan_newline(source, o);
        proof {
            lemma_next_newline_bounds(source@, o as int);
        }
        if e >= source.len() {
            return None;
        }
        o = e + 1;
        k = k + 1;
    }
    let e = scan_newline(source, o);
    proof {
        lemma_next_newline_bounds(source@, o as int);
    }
    Some(Span { offset: o, len: e - o })
}

/// What the evaluator's diagnostics regex finds in a text: the digits of its
/// first `line N)` marker.
pub uninterp spec fn line_marker_of(s: Seq<char>) -> Option<Seq<char>>;

/// Relies on `regex::Regex::captures`: the digits captured by the first match of
/// `line (\d+)\)` in `text`.
#[verifier::external_body]
fn line_marker(text: &str) -> (r: Option<String>)
    ensures
        match r {
            Some(d) => line_marker_of(text@) == Some(d@),
            None => line_marker_of(text@) is None,
        },
{
    let re = regex::Regex::new(r"line (\d+)\)").unwrap();
    re.captures(text).and_then(|c| c.get(1)).map(|m| m.as_str().to_string())
}

/// The place in `source` that the marker digits `marker` point at, if any.
pub open spec fn marker_span(source: Seq<u8>, marker: Option<Seq<char>>) -> Option<(int, int)> {
    match marker {
        Some(d) => match line_number_of(d) {
            Some(n) => line_span_of(source, n),
            None => None,
        },
        None => None,
    }
}

/// The span of the line that the digits of a `line N)` marker name.
pub fn span_for_marker(source: &[u8], marker: Option<&str>) -> (r: Option<Span>)
    ensures
        span_view(r) == marker_span(
            source@,
            match marker {
                Some(d) => Some(d@),
                None => None,
            },
        ),
{
    match marker {
        Some(d) => match parse_line_number(d) {
            Some(n) => line_span(source, n),
            None => None,
        },
        None => None,
    }
}

/// Reads an evaluator error report: its message, and the span of the source line
/// that its first `line N)` marker names.
pub fn parse_pkl_error(stderr: &str, source: &[u8]) -> (r: (String, Option<Span>))
    ensures
        r.0@ == error_message_of(stderr@),
        span_view(r.1) == marker_span(source@, line_marker_of(stderr@)),
{
    let message = error_message(stderr);
    let marker = line_marker(stderr);
    let span = match &marker {
        Some(d) => span_for_marker(source, Some(d.as_str())),
        None => span_for_marker(source, None),
    };
    (message, span)
}

/// The error for a failed evaluation: the report's message, the source text, and
/// the place in it that the report names.
pub fn compile_failure(stderr: &str, source_code: String) -> (r: KarabinerPklError)
    ensures
        r matches KarabinerPklError::PklCompileError { help, source_code: sc, span } && help@
            == error_message_of(stderr@) && sc@ == source_code@ && span_view(span) == marker_span(
            encode_utf8(source_code@),
            line_marker_of(stderr@),
        ),
{
    let (help, span) = parse_pkl_error(stderr, source_code.as_str().as_bytes());
    KarabinerPklError::PklCompileError { help, source_code, span }
}

} // verus!
