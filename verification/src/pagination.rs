//! Page numbers and sizes of list endpoints, and the page envelope they answer with.
use vstd::prelude::*;

use crate::text::{all_space, chars_of, is_blank};

verus! {

/// The `page` and `per_page` query parameters, each possibly absent.
#[derive(Clone, Debug, Default)]
pub struct PaginationQuery {
    pub page: Option<u64>,
    pub per_page: Option<u64>,
}

/// The page number a query asks for: `page`, at least 1; 1 when absent.
pub open spec fn page_of(q: PaginationQuery) -> u64 {
    match q.page {
        Some(p) => if p < 1 { 1 } else { p },
        None => 1,
    }
}

/// The page size a query asks for: `per_page` clamped to `1..=100`; 20 when absent.
pub open spec fn per_page_of(q: PaginationQuery) -> u64 {
    match q.per_page {
        Some(n) => if n < 1 { 1 } else if n > 100 { 100 } else { n },
        None => 20,
    }
}

impl PaginationQuery {
    /// The requested page number, never below 1.
    pub fn page(&self) -> (p: u64)
        ensures
            p == page_of(*self),
            1 <= p,
    {
        match self.page {
            Some(p) => if p < 1 { 1 } else { p },
            None => 1,
        }
    }

    /// The requested page size, between 1 and 100.
    pub fn per_page(&self) -> (n: u64)
        ensures
            n == per_page_of(*self),
            1 <= n <= 100,
    {
        match self.per_page {
            Some(n) => if n < 1 { 1 } else if n > 100 { 100 } else { n },
            None => 20,
        }
    }
}

/// A query-string value as it arrives: a JSON number, a text, or nothing usable.
#[derive(Clone, Debug)]
pub enum OptionalNumber {
    Number(u64),
    Text(String),
    Empty,
}

/// Why a query-string value is not a page number.
#[derive(Clone, Debug, PartialEq, Eq, Structural)]
pub enum NumberError {
    /// The text is not a sequence of decimal digits, with an optional leading `+`.
    Invalid,
    /// The digits denote a number above `u64::MAX`.
    TooLarge,
}

pub open spec fn is_digit(c: char) -> bool {
    '0' <= c && c <= '9'
}

pub open spec fn digit_value(c: char) -> int {
    c as int - '0' as int
}

/// The number that the decimal digits `s` denote.
pub open spec fn decimal_value(s: Seq<char>) -> int
    decreases s.len(),
{
    if s.len() == 0 {
        0
    } else {
        decimal_value(s.drop_last()) * 10 + digit_value(s.last())
    }
}

/// The digits of `s`, after its optional leading `+`.
pub open spec fn digits_part(s: Seq<char>) -> Seq<char> {
    if s.len() > 0 && s[0] == '+' {
        s.drop_first()
    } else {
        s
    }
}

/// What `str::parse::<u64>` gives for `s`.
pub open spec fn parsed_u64(s: Seq<char>) -> Result<u64, NumberError> {
    let d = digits_part(s);
    if d.len() == 0 || exists|i: int| 0 <= i < d.len() && !is_digit(#[trigger] d[i]) {
        Err(NumberError::Invalid)
    } else if decimal_value(d) > u64::MAX {
        Err(NumberError::TooLarge)
    } else {
        Ok(decimal_value(d) as u64)
    }
}

proof fn lemma_decimal_grows(s: Seq<char>, c: char)
    requires
        is_digit(c),
        forall|i: int| 0 <= i < s.len() ==> is_digit(#[trigger] s[i]),
    ensures
        decimal_value(s.push(c)) >= decimal_value(s),
        decimal_value(s) >= 0,
    decreases s.len(),
{
    assert(s.push(c).drop_last() == s);
    if s.len() > 0 {
        lemma_decimal_grows(s.drop_last(), s.last());
    }
}

/// `str::parse::<u64>`: decimal digits with an optional leading `+`, up to `u64::MAX`.
pub fn parse_u64(text: &str) -> (r: Result<u64, NumberError>)
    ensures
        r == parsed_u64(text@),
{
    let cs = chars_of(text);
    let start: usize = if cs.len() > 0 && cs[0] == '+' { 1 } else { 0 };
    let ghost d = digits_part(text@);
    assert(d == cs@.skip(start as int));
    if start == cs.len() {
        assert(d.len() == 0);
        return Err(NumberError::Invalid);
    }
    let mut i = start;
    while i < cs.len()
        invariant
            start <= i <= cs@.len(),
            d == cs@.skip(start as int),
            d == digits_part(text@),
            cs@ == text@,
            forall|k: int| 0 <= k < i - start ==> is_digit(#[trigger] d[k]),
        decreases cs@.len() - i,
    {
        if !('0' <= cs[i] && cs[i] <= '9') {
            assert(!is_digit(d[i - start]));
            return Err(NumberError::Invalid);
        }
        i = i + 1;
    }
    let mut value: u64 = 0;
    let mut too_large = false;
    let mut j = start;
    while j < cs.len()
        invariant
            start <= j <= cs@.len(),
            d == cs@.skip(start as int),
            d == digits_part(text@),
            cs@ == text@,
            forall|k: int| 0 <= k < d.len() ==> is_digit(#[trigger] d[k]),
            !too_large ==> value == decimal_value(d.take(j - start)),
            too_large ==> decimal_value(d.take(j - start)) > u64::MAX,
        decreases cs@.len() - j,
    {
        let c = cs[j];
        proof {
            assert(d.take(j + 1 - start) == d.take(j - start).push(c));
            assert(c == d[j - start]);
            assert forall|k: int| 0 <= k < d.take(j - start).len() implies is_digit(#[trigger] d.take(j - start)[k]) by {
                assert(d.take(j - start)[k] == d[k]);
            }
            lemma_decimal_grows(d.take(j - start), c);
            assert(d.take(j + 1 - start).drop_last() == d.take(j - start));
        }
        let digit = (c as u32 - '0' as u32) as u64;
        assert(digit == digit_value(c));
        if !too_large {
            if value > (u64::MAX - digit) / 10 {
                assert(value * 10 + digit > u64::MAX) by (nonlinear_arith)
                    requires
                        value > (u64::MAX - digit) / 10,
                        digit <= 9,
                ;
                too_large = true;
            } else {
                assert(value * 10 + digit <= u64::MAX) by (nonlinear_arith)
                    requires
                        value <= (u64::MAX - digit) / 10,
                        digit <= 9,
                ;
                value = value * 10 + digit;
            }
        }
        j = j + 1;
    }
    assert(d.take(d.len() as int) == d);
    if too_large {
        Err(NumberError::TooLarge)
    } else {
        Ok(value)
    }
}

/// What a query-string value means as an optional page number: a blank text is absent,
/// any other text must parse as a `u64`.
pub open spec fn optional_number_value(raw: Option<OptionalNumber>) -> Result<Option<u64>, NumberError> {
    match raw {
        Some(OptionalNumber::Number(v)) => Ok(Some(v)),
        Some(OptionalNumber::Text(t)) => if all_space(t@) {
            Ok(None)
        } else {
            match parsed_u64(t@) {
                Ok(v) => Ok(Some(v)),
                Err(e) => Err(e),
            }
        },
        Some(OptionalNumber::Empty) => Ok(None),
        None => Ok(None),
    }
}

/// Reads an optional page number from a query-string value.
pub fn optional_u64(raw: Option<OptionalNumber>) -> (r: Result<Option<u64>, NumberError>)
    ensures
        r == optional_number_value(raw),
{
    match raw {
        Some(OptionalNumber::Number(v)) => Ok(Some(v)),
        Some(OptionalNumber::Text(t)) => {
            if is_blank(t.as_str()) {
                Ok(None)
            } else {
                match parse_u64(t.as_str()) {
                    Ok(v) => Ok(Some(v)),
                    Err(e) => Err(e),
                }
            }
        },
        Some(OptionalNumber::Empty) => Ok(None),
        None => Ok(None),
    }
}

/// The counters that accompany a page of results.
#[derive(Clone, Debug)]
pub struct PageMeta {
    pub page: u64,
    pub per_page: u64,
    pub total: u64,
    pub total_pages: u64,
}

/// One page of results.
#[derive(Clone, Debug)]
pub struct Page<T> {
    pub data: Vec<T>,
    pub meta: PageMeta,
}

impl<T> Page<T> {
    /// A page holding `data`, with the given counters.
    pub fn new(data: Vec<T>, page: u64, per_page: u64, total: u64, total_pages: u64) -> (p: Self)
        ensures
            p.data@ == data@,
            p.meta.page == page,
            p.meta.per_page == per_page,
            p.meta.total == total,
            p.meta.total_pages == total_pages,
    {
        Page { data, meta: PageMeta { page, per_page, total, total_pages } }
    }
}

} // verus!
