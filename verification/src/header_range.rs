//! The `Range` request header: a single range `unit=start-end`, either bound
//! of which may be left out.

use crate::decimal::{decimal_value, is_digit, parse_decimal, unsigned_body};
use crate::headers::{all_visible_ascii, ascii_text, header_value_bytes, header_value_to_str};
use crate::text::chars_of;
use hyper::header::HeaderValue;
use vstd::prelude::*;
use vstd::slice::slice_subrange;

verus! {

/// A parsed `Range` header.
#[derive(Debug, Clone, PartialEq, Eq)]
pub struct HeaderRange {
    /// The range unit, as written.
    pub units: String,
    /// The first byte asked for; zero where the header names none.
    pub start: u64,
    /// The last byte asked for, inclusive; `None` asks for everything up to
    /// the end of the resource.
    pub end: Option<u64>,
}

/// Why a `Range` header was refused.
#[derive(Debug, Clone, Copy, PartialEq, Eq)]
pub enum RangeParseError {
    /// The header value holds bytes other than visible ASCII.
    NotVisibleAscii,
    /// The value lists more than one range.
    MultipleRangesUnsupported,
    /// The value does not hold exactly one `=`.
    MalformedSeparator,
    /// The part behind `=` does not hold exactly one `-`.
    MalformedHyphen,
    /// The first bound is not an unsigned decimal number.
    InvalidStart,
    /// The last bound is not an unsigned decimal number.
    InvalidEnd,
    /// The last bound lies before the first.
    EndBeforeStart,
}

/// What a [`HeaderRange`] holds, as plain values.
pub struct RangeSpec {
    pub units: Seq<char>,
    pub start: u64,
    pub end: Option<u64>,
}

impl View for HeaderRange {
    type V = RangeSpec;

    open spec fn view(&self) -> RangeSpec {
        RangeSpec { units: self.units@, start: self.start, end: self.end }
    }
}

impl RangeSpec {
    /// A range with a last bound does not end before it starts.
    pub open spec fn well_formed(self) -> bool {
        self.end matches Some(end) ==> self.start <= end
    }
}

/// `c` stands in `s` at index `i` and nowhere else.
pub open spec fn sole_occurrence(s: Seq<char>, c: char, i: int) -> bool {
    &&& 0 <= i < s.len()
    &&& s[i] == c
    &&& forall|j: int| 0 <= j < s.len() && j != i ==> s[j] != c
}

/// `c` stands in `s` exactly once, so that `c` splits `s` in two.
pub open spec fn occurs_once(s: Seq<char>, c: char) -> bool {
    exists|i: int| sole_occurrence(s, c, i)
}

/// Where the one `c` of `s` stands.
pub open spec fn position_of(s: Seq<char>, c: char) -> int {
    choose|i: int| sole_occurrence(s, c, i)
}

/// What the two bounds of a range expression denote, `first` and `last` being
/// the text on either side of the hyphen.
pub open spec fn parse_bounds(units: Seq<char>, first: Seq<char>, last: Seq<char>) -> Result<
    RangeSpec,
    RangeParseError,
> {
    if first.len() > 0 && decimal_value(first) is None {
        Err(RangeParseError::InvalidStart)
    } else if last.len() > 0 && decimal_value(last) is None {
        Err(RangeParseError::InvalidEnd)
    } else {
        let start = if first.len() == 0 {
            0u64
        } else {
            decimal_value(first).unwrap()
        };
        let end = if last.len() == 0 {
            None
        } else {
            decimal_value(last)
        };
        if end is Some && end.unwrap() < start {
            Err(RangeParseError::EndBeforeStart)
        } else {
            Ok(RangeSpec { units, start, end })
        }
    }
}

/// What the text of a `Range` header denotes.
pub open spec fn parse_range(text: Seq<char>) -> Result<RangeSpec, RangeParseError> {
    if text.contains(',') {
        Err(RangeParseError::MultipleRangesUnsupported)
    } else if !occurs_once(text, '=') {
        Err(RangeParseError::MalformedSeparator)
    } else {
        let eq = position_of(text, '=');
        let expr = text.subrange(eq + 1, text.len() as int);
        if !occurs_once(expr, '-') {
            Err(RangeParseError::MalformedHyphen)
        } else {
            let hyphen = position_of(expr, '-');
            parse_bounds(
                text.subrange(0, eq),
                expr.subrange(0, hyphen),
                expr.subrange(hyphen + 1, expr.len() as int),
            )
        }
    }
}

/// What the bytes of a `Range` header value denote: they have to be visible
/// ASCII, and the text that they spell is parsed.
pub open spec fn parse_range_bytes(bytes: Seq<u8>) -> Result<RangeSpec, RangeParseError> {
    if all_visible_ascii(bytes) {
        parse_range(ascii_text(bytes))
    } else {
        Err(RangeParseError::NotVisibleAscii)
    }
}

/// Whether `c` stands anywhere in `chars`.
fn contains_char(chars: &[char], c: char) -> (found: bool)
    ensures
        found == chars@.contains(c),
{
    let mut i: usize = 0;
    while i < chars.len()
        invariant
            i <= chars@.len(),
            forall|j: int| 0 <= j < i ==> chars@[j] != c,
        decreases chars@.len() - i,
    {
        if chars[i] == c {
            return true;
        }
        i += 1;
    }
    false
}

/// The index of `c` in `chars` where it stands there exactly once.
fn find_sole(chars: &[char], c: char) -> (at: Option<usize>)
    ensures
        match at {
            Some(i) => sole_occurrence(chars@, c, i as int) && position_of(chars@, c) == i,
            None => !occurs_once(chars@, c),
        },
{
    let mut found: Option<usize> = None;
    let mut i: usize = 0;
    while i < chars.len()
        invariant
            i <= chars@.len(),
            match found {
                Some(k) => k < i && chars@[k as int] == c && forall|j: int|
                    0 <= j < i && j != k ==> chars@[j] != c,
                None => forall|j: int| 0 <= j < i ==> chars@[j] != c,
            },
        decreases chars@.len() - i,
    {
        if chars[i] == c {
            if found.is_some() {
                let ghost k = found.unwrap() as int;
                assert forall|p: int| !sole_occurrence(chars@, c, p) by {
                    if sole_occurrence(chars@, c, p) {
                        assert(chars@[k] == c && chars@[i as int] == c);
                    }
                }
                return None;
            }
            found = Some(i);
        }
        i += 1;
    }
    proof {
        match found {
            Some(k) => {
                assert(sole_occurrence(chars@, c, k as int));
                let p = position_of(chars@, c);
                assert(sole_occurrence(chars@, c, p));
            },
            None => {
                assert forall|p: int| !sole_occurrence(chars@, c, p) by {}
            },
        }
    }
    found
}

impl HeaderRange {
    /// Parses the value of a `Range` header that names a single range,
    /// `unit=start-end`.
    pub fn from_header_value(header_value: &HeaderValue) -> (result: Result<
        HeaderRange,
        RangeParseError,
    >)
        ensures
            match result {
                Ok(range) => parse_range_bytes(header_value_bytes(*header_value)) == Ok::<
                    RangeSpec,
                    RangeParseError,
                >(range@) && range@.well_formed(),
                Err(error) => parse_range_bytes(header_value_bytes(*header_value)) == Err::<
                    RangeSpec,
                    RangeParseError,
                >(error),
            },
    {
        match header_value_to_str(header_value) {
            Ok(text) => HeaderRange::parse(text),
            Err(_) => Err(RangeParseError::NotVisibleAscii),
        }
    }

    /// Parses the text of a `Range` header that names a single range,
    /// `unit=start-end`. A missing `start` is zero, a missing `end` leaves the
    /// range open.
    pub fn parse(text: &str) -> (result: Result<HeaderRange, RangeParseError>)
        ensures
            match result {
                Ok(range) => parse_range(text@) == Ok::<RangeSpec, RangeParseError>(range@)
                    && range@.well_formed(),
                Err(error) => parse_range(text@) == Err::<RangeSpec, RangeParseError>(error),
            },
    {
        let chars = chars_of(text);
        let all = chars.as_slice();
        if contains_char(all, ',') {
            return Err(RangeParseError::MultipleRangesUnsupported);
        }
        let eq = match find_sole(all, '=') {
            Some(eq) => eq,
            None => {
                return Err(RangeParseError::MalformedSeparator);
            },
        };
        assert(eq < all.len());
        let expr = slice_subrange(all, eq + 1, all.len());
        let hyphen = match find_sole(expr, '-') {
            Some(hyphen) => hyphen,
            None => {
                return Err(RangeParseError::MalformedHyphen);
            },
        };
        let first = slice_subrange(expr, 0, hyphen);
        let last = slice_subrange(expr, hyphen + 1, expr.len());
        let start = if first.len() == 0 {
            0
        } else {
            match parse_decimal(first) {
                Some(start) => start,
                None => {
                    return Err(RangeParseError::InvalidStart);
                },
            }
        };
        let end = if last.len() == 0 {
            None
        } else {
            match parse_decimal(last) {
                Some(end) => Some(end),
                None => {
                    return Err(RangeParseError::InvalidEnd);
                },
            }
        };
        if let Some(end) = end {
            if end < start {
                return Err(RangeParseError::EndBeforeStart);
            }
        }
        let units = String::from_str(text.substring_char(0, eq));
        Ok(HeaderRange { units, start, end })
    }
}

/// None of the characters that structure a range stands in `s`: no comma,
/// no `=` and no hyphen.
pub open spec fn is_plain(s: Seq<char>) -> bool {
    !s.contains(',') && !s.contains('=') && !s.contains('-')
}

/// Text that denotes a number holds none of the characters that structure a
/// range.
pub proof fn lemma_decimal_is_plain(s: Seq<char>)
    requires
        decimal_value(s) is Some,
    ensures
        s.len() > 0,
        is_plain(s),
{
    let body = unsigned_body(s);
    assert forall|i: int| 0 <= i < s.len() implies s[i] != ',' && s[i] != '=' && s[i] != '-' by {
        if s[0] == '+' {
            if i > 0 {
                assert(is_digit(body[i - 1]));
            }
        } else {
            assert(is_digit(body[i]));
        }
    }
}

/// A range whose unit holds neither comma nor `=`, and whose bounds are
/// plain, is read as its three parts.
pub proof fn lemma_parse_range_parts(units: Seq<char>, first: Seq<char>, last: Seq<char>)
    requires
        !units.contains(','),
        !units.contains('='),
        is_plain(first),
        is_plain(last),
    ensures
        parse_range(units + seq!['='] + first + seq!['-'] + last) == parse_bounds(
            units,
            first,
            last,
        ),
{
    let expr = first + seq!['-'] + last;
    let text = units + seq!['='] + first + seq!['-'] + last;
    let eq = units.len() as int;
    let hyphen = first.len() as int;
    assert(text =~= units + seq!['='] + expr);
    assert forall|i: int| 0 <= i < expr.len() implies expr[i] != ',' && expr[i] != '=' && (i
        != hyphen ==> expr[i] != '-') by {
        if i < hyphen {
            assert(first.contains(first[i]));
        } else if i > hyphen {
            assert(last.contains(last[i - hyphen - 1]));
        }
    }
    assert forall|i: int| 0 <= i < text.len() implies text[i] != ',' && (i != eq ==> text[i]
        != '=') by {
        if i < eq {
            assert(units.contains(units[i]));
        } else if i > eq {
            assert(text[i] == expr[i - eq - 1]);
        }
    }
    assert(sole_occurrence(text, '=', eq));
    assert(position_of(text, '=') == eq);
    assert(text.subrange(0, eq) =~= units);
    assert(text.subrange(eq + 1, text.len() as int) =~= expr);
    assert(sole_occurrence(expr, '-', hyphen));
    assert(position_of(expr, '-') == hyphen);
    assert(expr.subrange(0, hyphen) =~= first);
    assert(expr.subrange(hyphen + 1, expr.len() as int) =~= last);
}

/// A range that parsing yields does not end before it starts.
pub proof fn lemma_parsed_range_well_formed(text: Seq<char>)
    ensures
        parse_range(text) matches Ok(range) ==> range.well_formed(),
{
}

/// Of a header `bytes=A-B` with `A <= B`, parsing yields the range from `A`
/// to `B`, whatever digits spell the two numbers.
pub proof fn lemma_parse_closed_range(first: Seq<char>, last: Seq<char>, a: u64, b: u64)
    requires
        decimal_value(first) == Some(a),
        decimal_value(last) == Some(b),
        a <= b,
    ensures
        parse_range("bytes="@ + first + "-"@ + last) == Ok::<RangeSpec, RangeParseError>(
            RangeSpec { units: "bytes"@, start: a, end: Some(b) },
        ),
{
    lemma_bytes_prefix();
    lemma_decimal_is_plain(first);
    lemma_decimal_is_plain(last);
    lemma_parse_range_parts("bytes"@, first, last);
}

/// Of a header `bytes=A-`, parsing yields the open range from `A`.
pub proof fn lemma_parse_open_range(first: Seq<char>, a: u64)
    requires
        decimal_value(first) == Some(a),
    ensures
        parse_range("bytes="@ + first + "-"@) == Ok::<RangeSpec, RangeParseError>(
            RangeSpec { units: "bytes"@, start: a, end: None },
        ),
{
    lemma_bytes_prefix();
    lemma_decimal_is_plain(first);
    lemma_parse_range_parts("bytes"@, first, Seq::empty());
    assert("bytes="@ + first + "-"@ =~= "bytes"@ + seq!['='] + first + seq!['-'] + Seq::empty());
}

/// Of a header `bytes=-B`, parsing yields the range from zero to `B`.
pub proof fn lemma_parse_range_without_start(last: Seq<char>, b: u64)
    requires
        decimal_value(last) == Some(b),
    ensures
        parse_range("bytes=-"@ + last) == Ok::<RangeSpec, RangeParseError>(
            RangeSpec { units: "bytes"@, start: 0, end: Some(b) },
        ),
{
    lemma_bytes_prefix();
    reveal_strlit("bytes=-");
    reveal_strlit("bytes");
    lemma_decimal_is_plain(last);
    lemma_parse_range_parts("bytes"@, Seq::empty(), last);
    assert("bytes=-"@ + last =~= "bytes"@ + seq!['='] + Seq::empty() + seq!['-'] + last);
}

/// A header `bytes=A-B` with `B < A` is refused.
pub proof fn lemma_parse_end_before_start(first: Seq<char>, last: Seq<char>, a: u64, b: u64)
    requires
        decimal_value(first) == Some(a),
        decimal_value(last) == Some(b),
        b < a,
    ensures
        parse_range("bytes="@ + first + "-"@ + last) == Err::<RangeSpec, RangeParseError>(
            RangeParseError::EndBeforeStart,
        ),
{
    lemma_bytes_prefix();
    lemma_decimal_is_plain(first);
    lemma_decimal_is_plain(last);
    lemma_parse_range_parts("bytes"@, first, last);
}

/// What the literals of the laws above spell.
proof fn lemma_bytes_prefix()
    ensures
        "bytes="@ == "bytes"@ + seq!['='],
        "-"@ == seq!['-'],
        !"bytes"@.contains(','),
        !"bytes"@.contains('='),
{
    reveal_strlit("bytes=");
    reveal_strlit("bytes");
    reveal_strlit("-");
    assert("bytes="@ =~= "bytes"@ + seq!['=']);
    assert("-"@ =~= seq!['-']);
}

} // verus!
