use vstd::prelude::*;
use vstd::string::StrSliceExecFns;

use crate::datetime::{date_valid, datetime_valid, Date, DateTime};

verus! {

/// Whether `c` is a decimal digit.
pub open spec fn is_digit(c: char) -> bool {
    0x30 <= (c as u32) && (c as u32) <= 0x39
}

/// The value of the decimal digit `c`.
pub open spec fn digit_val(c: char) -> int {
    (c as u32) - 0x30
}

/// Whether `s` is a well-formed date in the fixed format `YYYY-MM-DD`
/// with `dsep` as the separator, denoting a valid calendar date.
pub open spec fn is_date_str_sep(s: Seq<char>, dsep: char) -> bool {
    &&& s.len() == 10
    &&& is_digit(s[0]) && is_digit(s[1]) && is_digit(s[2]) && is_digit(s[3])
    &&& s[4] == dsep
    &&& is_digit(s[5]) && is_digit(s[6])
    &&& s[7] == dsep
    &&& is_digit(s[8]) && is_digit(s[9])
    &&& date_valid(date_of_str(s))
}

/// Whether `s` is a well-formed date in the fixed format `YYYY-MM-DD`.
pub open spec fn is_date_str(s: Seq<char>) -> bool {
    is_date_str_sep(s, '-')
}

/// The date denoted by the first ten characters of `s` (digit positions
/// of the fixed formats `YYYY-MM-DD` and `YYYY-MM-DD HH:MM:SS`).
pub open spec fn date_of_str(s: Seq<char>) -> Date {
    Date {
        year: (digit_val(s[0]) * 1000 + digit_val(s[1]) * 100 + digit_val(s[2]) * 10 + digit_val(
            s[3],
        )) as u16,
        month: (digit_val(s[5]) * 10 + digit_val(s[6])) as u8,
        day: (digit_val(s[8]) * 10 + digit_val(s[9])) as u8,
    }
}

/// Whether `s` is a well-formed timestamp of the fixed 19-character shape
/// `YYYY.MM.DD|HH:MM:SS`, where `.` stands for `dsep` and `|` for `msep`,
/// denoting a valid instant.
pub open spec fn is_datetime_str_sep(s: Seq<char>, dsep: char, msep: char) -> bool {
    &&& s.len() == 19
    &&& is_digit(s[0]) && is_digit(s[1]) && is_digit(s[2]) && is_digit(s[3])
    &&& s[4] == dsep
    &&& is_digit(s[5]) && is_digit(s[6])
    &&& s[7] == dsep
    &&& is_digit(s[8]) && is_digit(s[9])
    &&& s[10] == msep
    &&& is_digit(s[11]) && is_digit(s[12])
    &&& s[13] == ':'
    &&& is_digit(s[14]) && is_digit(s[15])
    &&& s[16] == ':'
    &&& is_digit(s[17]) && is_digit(s[18])
    &&& datetime_valid(datetime_of_str(s))
}

/// The instant denoted by a 19-character timestamp string.
pub open spec fn datetime_of_str(s: Seq<char>) -> DateTime {
    DateTime {
        date: date_of_str(s),
        hour: (digit_val(s[11]) * 10 + digit_val(s[12])) as u8,
        minute: (digit_val(s[14]) * 10 + digit_val(s[15])) as u8,
        second: (digit_val(s[17]) * 10 + digit_val(s[18])) as u8,
    }
}

/// The digit value at position `i` of `s`, or `None` if the character
/// there is not a digit.
fn digit_at(s: &str, i: usize) -> (r: Option<u8>)
    requires
        i < s@.len(),
    ensures
        match r {
            Some(v) => is_digit(s@[i as int]) && v as int == digit_val(s@[i as int]) && v <= 9,
            None => !is_digit(s@[i as int]),
        },
{
    let c = s.get_char(i);
    let u = c as u32;
    if 0x30 <= u && u <= 0x39 {
        Some((u - 0x30) as u8)
    } else {
        None
    }
}

/// Whether the character at position `i` of `s` is exactly `c`.
fn char_at_is(s: &str, i: usize, c: char) -> (r: bool)
    requires
        i < s@.len(),
    ensures
        r == (s@[i as int] == c),
{
    s.get_char(i) == c
}

/// Parse a date in the fixed format `YYYY-MM-DD` with `dsep` in place of
/// `-`, starting at position `at` of `s` (ten characters are read).
fn parse_date_at(s: &str, at: usize, dsep: char) -> (r: Option<Date>)
    requires
        at + 10 <= s@.len(),
        at + 10 <= usize::MAX,
    ensures
        match r {
            Some(d) => {
                &&& is_date_str_sep(s@.subrange(at as int, at + 10), dsep)
                &&& d == date_of_str(s@.subrange(at as int, at + 10))
            },
            None => !is_date_str_sep(s@.subrange(at as int, at + 10), dsep),
        },
{
    let ghost sub = s@.subrange(at as int, at + 10);
    let (y0, y1, y2, y3) = match (
        digit_at(s, at),
        digit_at(s, at + 1),
        digit_at(s, at + 2),
        digit_at(s, at + 3),
    ) {
        (Some(a), Some(b), Some(c), Some(d)) => (a, b, c, d),
        _ => {
            return None;
        },
    };
    if !char_at_is(s, at + 4, dsep) {
        return None;
    }
    let (m0, m1) = match (digit_at(s, at + 5), digit_at(s, at + 6)) {
        (Some(a), Some(b)) => (a, b),
        _ => {
            return None;
        },
    };
    if !char_at_is(s, at + 7, dsep) {
        return None;
    }
    let (dd0, dd1) = match (digit_at(s, at + 8), digit_at(s, at + 9)) {
        (Some(a), Some(b)) => (a, b),
        _ => {
            return None;
        },
    };
    let d = Date {
        year: y0 as u16 * 1000 + y1 as u16 * 100 + y2 as u16 * 10 + y3 as u16,
        month: m0 * 10 + m1,
        day: dd0 * 10 + dd1,
    };
    assert(d == date_of_str(sub));
    if d.is_valid() {
        Some(d)
    } else {
        None
    }
}

/// Parse a date in the fixed format `YYYY-MM-DD`.
pub fn parse_date(s: &str) -> (r: Option<Date>)
    ensures
        match r {
            Some(d) => is_date_str(s@) && d == date_of_str(s@),
            None => !is_date_str(s@),
        },
{
    let n = s.unicode_len();
    if n != 10 {
        return None;
    }
    assert(s@.subrange(0, 10) =~= s@);
    parse_date_at(s, 0, '-')
}

/// Parse a timestamp of the fixed 19-character shape `YYYY.MM.DD|HH:MM:SS`,
/// with `dsep` for `.` and `msep` for `|`.
fn parse_datetime_sep(s: &str, dsep: char, msep: char) -> (r: Option<DateTime>)
    ensures
        match r {
            Some(dt) => is_datetime_str_sep(s@, dsep, msep) && dt == datetime_of_str(s@),
            None => !is_datetime_str_sep(s@, dsep, msep),
        },
{
    let n = s.unicode_len();
    if n != 19 {
        return None;
    }
    let date = match parse_date_at(s, 0, dsep) {
        Some(d) => d,
        None => {
            assert(!is_datetime_str_sep(s@, dsep, msep)) by {
                let sub = s@.subrange(0, 10);
                if is_datetime_str_sep(s@, dsep, msep) {
                    assert(date_of_str(sub) == date_of_str(s@));
                    assert(is_date_str_sep(sub, dsep));
                }
            }
            return None;
        },
    };
    if !char_at_is(s, 10, msep) {
        return None;
    }
    let (h0, h1) = match (digit_at(s, 11), digit_at(s, 12)) {
        (Some(a), Some(b)) => (a, b),
        _ => {
            return None;
        },
    };
    if !char_at_is(s, 13, ':') {
        return None;
    }
    let (m0, m1) = match (digit_at(s, 14), digit_at(s, 15)) {
        (Some(a), Some(b)) => (a, b),
        _ => {
            return None;
        },
    };
    if !char_at_is(s, 16, ':') {
        return None;
    }
    let (s0, s1) = match (digit_at(s, 17), digit_at(s, 18)) {
        (Some(a), Some(b)) => (a, b),
        _ => {
            return None;
        },
    };
    let dt = DateTime { date, hour: h0 * 10 + h1, minute: m0 * 10 + m1, second: s0 * 10 + s1 };
    assert(date_of_str(s@.subrange(0, 10)) == date_of_str(s@));
    assert(dt == datetime_of_str(s@));
    if dt.hour < 24 && dt.minute < 60 && dt.second < 60 {
        assert(datetime_valid(dt));
        Some(dt)
    } else {
        None
    }
}

/// Parse a capture timestamp as embedded metadata writes it:
/// `YYYY:MM:DD HH:MM:SS`.
pub fn parse_exif_datetime(s: &str) -> (r: Option<DateTime>)
    ensures
        match r {
            Some(dt) => is_datetime_str_sep(s@, ':', ' ') && dt == datetime_of_str(s@),
            None => !is_datetime_str_sep(s@, ':', ' '),
        },
{
    parse_datetime_sep(s, ':', ' ')
}

/// Whether `c` is one of the whitespace characters trimmed off a
/// command-line value.
pub open spec fn is_space(c: char) -> bool {
    c == ' ' || c == '\t' || c == '\n' || c == '\r'
}

/// `s` without its leading whitespace.
pub open spec fn trim_start_seq(s: Seq<char>) -> Seq<char>
    decreases s.len(),
{
    if s.len() > 0 && is_space(s.first()) {
        trim_start_seq(s.drop_first())
    } else {
        s
    }
}

/// `s` without its trailing whitespace.
pub open spec fn trim_end_seq(s: Seq<char>) -> Seq<char>
    decreases s.len(),
{
    if s.len() > 0 && is_space(s.last()) {
        trim_end_seq(s.drop_last())
    } else {
        s
    }
}

/// `s` without leading and trailing whitespace.
pub open spec fn trim_seq(s: Seq<char>) -> Seq<char> {
    trim_end_seq(trim_start_seq(s))
}

proof fn lemma_trim_start_subrange(s: Seq<char>, lo: int)
    requires
        0 <= lo <= s.len(),
        forall|j: int| 0 <= j < lo ==> is_space(s[j]),
        lo == s.len() || !is_space(s[lo]),
    ensures
        trim_start_seq(s) == s.subrange(lo, s.len() as int),
    decreases lo,
{
    if lo == 0 {
        if s.len() == 0 || !is_space(s.first()) {
            assert(s.subrange(0, s.len() as int) =~= s);
        }
    } else {
        assert(is_space(s.first()));
        assert(trim_start_seq(s) == trim_start_seq(s.drop_first()));
        let d = s.drop_first();
        assert(forall|j: int| 0 <= j < lo - 1 ==> is_space(d[j]));
        lemma_trim_start_subrange(d, lo - 1);
        assert(d.subrange(lo - 1, d.len() as int) =~= s.subrange(lo, s.len() as int));
    }
}

proof fn lemma_trim_end_subrange(s: Seq<char>, hi: int)
    requires
        0 <= hi <= s.len(),
        forall|j: int| hi <= j < s.len() ==> is_space(s[j]),
        hi == 0 || !is_space(s[hi - 1]),
    ensures
        trim_end_seq(s) == s.subrange(0, hi),
    decreases s.len(),
{
    if hi == s.len() {
        if s.len() == 0 || !is_space(s.last()) {
            assert(s.subrange(0, s.len() as int) =~= s);
        } else {
            assert(!is_space(s[hi - 1]) && is_space(s[s.len() - 1]));
        }
    } else {
        assert(is_space(s.last()));
        assert(trim_end_seq(s) == trim_end_seq(s.drop_last()));
        let d = s.drop_last();
        assert(d =~= s.subrange(0, s.len() - 1));
        lemma_trim_end_subrange(d, hi);
        assert(d.subrange(0, hi) =~= s.subrange(0, hi));
    }
}

/// Whether the character at position `i` of `s` is trimmed whitespace.
fn space_at(s: &str, i: usize) -> (r: bool)
    requires
        i < s@.len(),
    ensures
        r == is_space(s@[i as int]),
{
    let c = s.get_char(i);
    c == ' ' || c == '\t' || c == '\n' || c == '\r'
}

/// The position of the first character of `s` that is not whitespace.
fn first_non_space(s: &str) -> (lo: usize)
    ensures
        lo <= s@.len(),
        forall|j: int| 0 <= j < lo ==> is_space(s@[j]),
        lo == s@.len() || !is_space(s@[lo as int]),
{
    let n = s.unicode_len();
    let mut i: usize = 0;
    while i < n
        invariant
            i <= n,
            n == s@.len(),
            forall|j: int| 0 <= j < i ==> is_space(s@[j]),
        decreases n - i,
    {
        if !space_at(s, i) {
            return i;
        }
        i = i + 1;
    }
    n
}

/// The position right after the last character of `s` at or past `lo`
/// that is not whitespace.
fn end_non_space(s: &str, lo: usize) -> (hi: usize)
    requires
        lo <= s@.len(),
    ensures
        lo <= hi <= s@.len(),
        forall|j: int| hi <= j < s@.len() ==> is_space(s@[j]),
        hi == lo || !is_space(s@[hi - 1]),
{
    let n = s.unicode_len();
    let mut i: usize = n;
    while i > lo
        invariant
            lo <= i <= n,
            n == s@.len(),
            forall|j: int| i <= j < n ==> is_space(s@[j]),
        decreases i,
    {
        if !space_at(s, i - 1) {
            return i;
        }
        i = i - 1;
    }
    lo
}

/// `s` without leading and trailing whitespace.
pub fn trim(s: &str) -> (r: &str)
    ensures
        r@ == trim_seq(s@),
{
    let n = s.unicode_len();
    let lo = first_non_space(s);
    let hi = end_non_space(s, lo);
    proof {
        lemma_trim_start_subrange(s@, lo as int);
        let t = s@.subrange(lo as int, n as int);
        lemma_trim_end_subrange(t, hi - lo);
        assert(t.subrange(0, hi - lo) =~= s@.subrange(lo as int, hi as int));
    }
    s.substring_char(lo, hi)
}

/// The timestamp denoted by a command-line time bound: its value trimmed
/// of whitespace, then read as `YYYY-MM-DDTHH:MM:SS`, or as `YYYY-MM-DD`
/// taken at midnight.
pub open spec fn spec_parse_arg(s: Seq<char>) -> Option<DateTime> {
    let t = trim_seq(s);
    if is_datetime_str_sep(t, '-', 'T') {
        Some(datetime_of_str(t))
    } else if is_date_str(t) {
        Some(DateTime { date: date_of_str(t), hour: 0, minute: 0, second: 0 })
    } else {
        None
    }
}

/// Parse a command-line time bound: `YYYY-MM-DDTHH:MM:SS`, or
/// `YYYY-MM-DD` taken at midnight. Surrounding whitespace is ignored.
pub fn parse_date_or_datetime(input: &str) -> (r: Option<DateTime>)
    ensures
        r == spec_parse_arg(input@),
{
    let t = trim(input);
    match parse_iso_datetime(t) {
        Some(dt) => Some(dt),
        None => match parse_date(t) {
            Some(d) => Some(DateTime { date: d, hour: 0, minute: 0, second: 0 }),
            None => None,
        },
    }
}

/// Parse a timestamp as given on the command line: `YYYY-MM-DDTHH:MM:SS`.
pub fn parse_iso_datetime(s: &str) -> (r: Option<DateTime>)
    ensures
        match r {
            Some(dt) => is_datetime_str_sep(s@, '-', 'T') && dt == datetime_of_str(s@),
            None => !is_datetime_str_sep(s@, '-', 'T'),
        },
{
    parse_datetime_sep(s, '-', 'T')
}

} // verus!
