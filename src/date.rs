use vstd::prelude::*;
use crate::text::{
    all_digits, decimal_value, digit_value, i32_of_text, is_digit, parse_i32, parse_u8, push_char,
    signed_value, split_spec, split_str, u8_of_text, unsigned_value,
};

verus! {

/// A day of the proleptic Gregorian calendar, written `YYYY-MM-DD` in content files.
#[derive(Debug, Clone, Copy, PartialEq, Eq, Structural)]
pub struct CalendarDate {
    pub year: i32,
    pub month: u8,
    pub day: u8,
}

/// Why a date text was refused.
#[derive(Debug, Clone, Copy, PartialEq, Eq, Structural)]
pub enum DateError {
    /// The text does not hold exactly three fields separated by `-`.
    WrongFieldCount,
    /// A field is not a number of the expected range.
    InvalidNumber,
    /// The numbers do not name a day of the calendar.
    InvalidDate,
}

pub open spec fn is_leap_year(year: int) -> bool {
    year % 4 == 0 && (year % 100 != 0 || year % 400 == 0)
}

pub open spec fn days_in_month(month: int, leap: bool) -> int {
    if month == 2 {
        if leap {
            29
        } else {
            28
        }
    } else if month == 4 || month == 6 || month == 9 || month == 11 {
        30
    } else {
        31
    }
}

/// The dates that the `time` crate can hold: years -9999 to 9999, and days that exist.
pub open spec fn is_valid_date(year: int, month: int, day: int) -> bool {
    &&& -9999 <= year <= 9999
    &&& 1 <= month <= 12
    &&& 1 <= day <= days_in_month(month, is_leap_year(year))
}

impl CalendarDate {
    pub open spec fn is_valid(self) -> bool {
        is_valid_date(self.year as int, self.month as int, self.day as int)
    }
}

/// Relies on `time::Date::from_calendar_date`: it accepts a year, month and day exactly
/// when the year lies in -9999..=9999 and the day exists in that month, and the date it
/// builds reports the same three parts.
#[verifier::external_body]
fn checked_calendar_date(year: i32, month: u8, day: u8) -> (r: Option<CalendarDate>)
    requires
        1 <= month <= 12,
    ensures
        r is Some <==> is_valid_date(year as int, month as int, day as int),
        r is Some ==> r->0 == (CalendarDate { year, month, day }),
{
    let month = time::Month::try_from(month).ok()?;
    time::Date::from_calendar_date(year, month, day).ok().map(
        |d| CalendarDate { year: d.year(), month: d.month() as u8, day: d.day() },
    )
}

/// Builds a date from its parts, where they name a day of the calendar.
pub fn calendar_date(year: i32, month: u8, day: u8) -> (r: Option<CalendarDate>)
    ensures
        r is Some <==> is_valid_date(year as int, month as int, day as int),
        r is Some ==> r->0 == (CalendarDate { year, month, day }),
{
    if month < 1 || month > 12 {
        return None;
    }
    checked_calendar_date(year, month, day)
}

pub open spec fn digit_char(d: nat) -> char {
    ((d + 48) as u8) as char
}

/// The decimal numeral of `n`, without leading zeros.
pub open spec fn decimal_text(n: nat) -> Seq<char>
    decreases n,
{
    if n < 10 {
        seq![digit_char(n)]
    } else {
        decimal_text(n / 10).push(digit_char(n % 10))
    }
}

/// The numeral of `v`, with a leading `-` where it is negative.
pub open spec fn signed_text(v: int) -> Seq<char> {
    if v < 0 {
        seq!['-'] + decimal_text((-v) as nat)
    } else {
        decimal_text(v as nat)
    }
}

pub open spec fn zeros(n: nat) -> Seq<char> {
    Seq::new(n, |i: int| '0')
}

/// `s` with zeros put before it until it is `width` characters long (`{:0>width}`).
pub open spec fn zero_pad(s: Seq<char>, width: nat) -> Seq<char> {
    if s.len() >= width {
        s
    } else {
        zeros((width - s.len()) as nat) + s
    }
}

/// The text of a date: `{:0>4}-{:0>2}-{:0>2}` of its year, month and day.
pub open spec fn date_text(d: CalendarDate) -> Seq<char> {
    zero_pad(signed_text(d.year as int), 4) + seq!['-'] + zero_pad(decimal_text(d.month as nat), 2)
        + seq!['-'] + zero_pad(decimal_text(d.day as nat), 2)
}

/// What reading `s` as a date gives: three `-`-separated numbers that name a day.
pub open spec fn date_of_text(s: Seq<char>) -> Result<CalendarDate, DateError> {
    let fields = split_spec(s, '-');
    if fields.len() != 3 {
        Err(DateError::WrongFieldCount)
    } else {
        match (i32_of_text(fields[0]), u8_of_text(fields[1]), u8_of_text(fields[2])) {
            (Some(y), Some(m), Some(d)) => if is_valid_date(y as int, m as int, d as int) {
                Ok(CalendarDate { year: y, month: m, day: d })
            } else {
                Err(DateError::InvalidDate)
            },
            _ => Err(DateError::InvalidNumber),
        }
    }
}

fn digit(d: u32) -> (c: char)
    requires
        d < 10,
    ensures
        c == digit_char(d as nat),
{
    (d as u8 + 48) as char
}

fn decimal_len(n: u32) -> (r: usize)
    ensures
        r == decimal_text(n as nat).len(),
        n < 10 ==> r <= 1,
        n < 100 ==> r <= 2,
        n < 1000 ==> r <= 3,
        n < 10000 ==> r <= 4,
        n < 100000 ==> r <= 5,
        n < 1000000 ==> r <= 6,
        n < 10000000 ==> r <= 7,
        n < 100000000 ==> r <= 8,
        n < 1000000000 ==> r <= 9,
        r <= 10,
    decreases n,
{
    if n < 10 {
        1
    } else {
        let r = decimal_len(n / 10);
        r + 1
    }
}

fn push_decimal(out: &mut String, n: u32)
    ensures
        final(out)@ == old(out)@ + decimal_text(n as nat),
    decreases n,
{
    if n >= 10 {
        push_decimal(out, n / 10);
    }
    push_char(out, digit(n % 10));
    proof {
        if n < 10 {
            assert(decimal_text(n as nat) == seq![digit_char(n as nat)]);
        }
    }
    assert(final(out)@ =~= old(out)@ + decimal_text(n as nat));
}

fn push_zeros(out: &mut String, count: usize)
    ensures
        final(out)@ == old(out)@ + zeros(count as nat),
{
    let mut i: usize = 0;
    while i < count
        invariant
            i <= count,
            out@ == old(out)@ + zeros(i as nat),
        decreases count - i,
    {
        push_char(out, '0');
        assert(old(out)@ + zeros((i + 1) as nat) =~= (old(out)@ + zeros(i as nat)).push('0'));
        i = i + 1;
    }
}

/// Appends the numeral of `n` (with `-` before it where `negative`), padded with zeros
/// to `width` characters.
fn push_padded(out: &mut String, negative: bool, n: u32, width: usize)
    ensures
        final(out)@ == old(out)@ + zero_pad(
            if negative {
                seq!['-'] + decimal_text(n as nat)
            } else {
                decimal_text(n as nat)
            },
            width as nat,
        ),
{
    let len = decimal_len(n);
    let text_len: usize = if negative {
        len + 1
    } else {
        len
    };
    if text_len < width {
        push_zeros(out, width - text_len);
    }
    if negative {
        push_char(out, '-');
    }
    push_decimal(out, n);
    let ghost t = if negative {
        seq!['-'] + decimal_text(n as nat)
    } else {
        decimal_text(n as nat)
    };
    assert(t.len() == text_len);
    if text_len < width {
        assert(out@ =~= old(out)@ + zero_pad(t, width as nat));
    } else {
        assert(out@ =~= old(out)@ + zero_pad(t, width as nat));
    }
}

impl CalendarDate {
    /// Writes the date as `YYYY-MM-DD`, each part padded with zeros.
    pub fn to_text(&self) -> (r: String)
        ensures
            r@ == date_text(*self),
    {
        let mut out = String::new();
        let negative = self.year < 0;
        let magnitude: u32 = if negative {
            (0 - (self.year as i64)) as u32
        } else {
            self.year as u32
        };
        push_padded(&mut out, negative, magnitude, 4);
        push_char(&mut out, '-');
        push_padded(&mut out, false, self.month as u32, 2);
        push_char(&mut out, '-');
        push_padded(&mut out, false, self.day as u32, 2);
        proof {
            assert(signed_text(self.year as int) == (if negative {
                seq!['-'] + decimal_text(magnitude as nat)
            } else {
                decimal_text(magnitude as nat)
            }));
        }
        assert(out@ =~= date_text(*self));
        out
    }

    /// Reads a date written `YYYY-MM-DD`.
    pub fn parse(s: &str) -> (r: Result<CalendarDate, DateError>)
        ensures
            r == date_of_text(s@),
    {
        let fields = split_str(s, '-');
        let ghost views = fields@.map_values(|p: &str| p@);
        if fields.len() != 3 {
            return Err(DateError::WrongFieldCount);
        }
        assert(views[0] == fields@[0]@);
        assert(views[1] == fields@[1]@);
        assert(views[2] == fields@[2]@);
        let year = parse_i32(fields[0]);
        let month = parse_u8(fields[1]);
        let day = parse_u8(fields[2]);
        match (year, month, day) {
            (Some(y), Some(m), Some(d)) => match calendar_date(y, m, d) {
                Some(date) => Ok(date),
                None => Err(DateError::InvalidDate),
            },
            _ => Err(DateError::InvalidNumber),
        }
    }
}

proof fn lemma_decimal_text(n: nat)
    ensures
        decimal_text(n).len() >= 1,
        all_digits(decimal_text(n)),
        decimal_value(decimal_text(n)) == n,
    decreases n,
{
    let t = decimal_text(n);
    if n >= 10 {
        lemma_decimal_text(n / 10);
        let p = decimal_text(n / 10);
        assert(t.drop_last() =~= p);
        assert(digit_value(digit_char(n % 10)) == n % 10);
        assert(decimal_value(t) == decimal_value(p) * 10 + digit_value(t.last()));
        assert((n / 10) * 10 + n % 10 == n) by (nonlinear_arith);
        assert forall|i: int| 0 <= i < t.len() implies is_digit(#[trigger] t[i]) by {
            if i < p.len() {
                assert(t[i] == p[i]);
            }
        }
    } else {
        assert(t.drop_last() =~= Seq::<char>::empty());
        assert(digit_value(digit_char(n)) == n);
        assert(decimal_value(t.drop_last()) == 0);
        assert(decimal_value(t) == decimal_value(t.drop_last()) * 10 + digit_value(t.last()));
    }
}

proof fn lemma_zeros_value(k: nat, s: Seq<char>)
    ensures
        decimal_value(zeros(k) + s) == decimal_value(s),
        all_digits(s) ==> all_digits(zeros(k) + s),
    decreases s.len() + k,
{
    let z = zeros(k) + s;
    if s.len() > 0 {
        lemma_zeros_value(k, s.drop_last());
        assert(z.drop_last() =~= zeros(k) + s.drop_last());
        assert(z.last() == s.last());
    } else if k > 0 {
        lemma_zeros_value((k - 1) as nat, s);
        assert(z.drop_last() =~= zeros((k - 1) as nat) + s);
        assert(z.last() == '0');
    } else {
        assert(z =~= Seq::<char>::empty());
    }
    if all_digits(s) {
        assert forall|i: int| 0 <= i < z.len() implies is_digit(#[trigger] z[i]) by {
            if i >= k {
                assert(z[i] == s[i - k]);
            }
        }
    }
}

/// Facts on a padded numeral: digits only, read back as the number it writes.
proof fn lemma_padded_numeral(n: nat, width: nat)
    ensures
        ({
            let t = zero_pad(decimal_text(n), width);
            &&& t.len() >= 1
            &&& all_digits(t)
            &&& is_digit(t[0])
            &&& unsigned_value(t) == Some(n)
            &&& signed_value(t) == Some(n as int)
        }),
{
    lemma_decimal_text(n);
    let d = decimal_text(n);
    let t = zero_pad(d, width);
    if d.len() < width {
        lemma_zeros_value((width - d.len()) as nat, d);
    }
    assert(is_digit(t[0]));
    assert(t[0] != '+' && t[0] != '-');
}

proof fn lemma_no_digit_is_dash(t: Seq<char>)
    requires
        all_digits(t),
    ensures
        forall|i: int| 0 <= i < t.len() ==> t[i] != '-',
{
    assert forall|i: int| 0 <= i < t.len() implies t[i] != '-' by {
        assert(is_digit(t[i]));
    }
}

proof fn lemma_split_single(s: Seq<char>, sep: char)
    requires
        forall|i: int| 0 <= i < s.len() ==> s[i] != sep,
    ensures
        split_spec(s, sep) == seq![s],
    decreases s.len(),
{
    if s.len() > 0 {
        lemma_split_single(s.drop_last(), sep);
        assert(s.drop_last().push(s.last()) =~= s);
        assert(split_spec(s, sep) =~= seq![s]);
    } else {
        assert(s =~= Seq::<char>::empty());
    }
}

proof fn lemma_split_append(p: Seq<char>, q: Seq<char>, sep: char)
    requires
        forall|i: int| 0 <= i < q.len() ==> q[i] != sep,
    ensures
        split_spec(p + seq![sep] + q, sep) == split_spec(p, sep).push(q),
    decreases q.len(),
{
    let w = p + seq![sep] + q;
    if q.len() > 0 {
        lemma_split_append(p, q.drop_last(), sep);
        assert(w.drop_last() =~= p + seq![sep] + q.drop_last());
        assert(w.last() == q.last());
        assert(q.drop_last().push(q.last()) =~= q);
        assert(split_spec(w, sep) =~= split_spec(p, sep).push(q));
    } else {
        assert(w.drop_last() =~= p);
        assert(q =~= Seq::<char>::empty());
    }
}

/// Writing a date and reading the text back gives the same date, for every valid date
/// whose year is not negative. (A negative year is written with a leading `-`, which
/// then reads as one more field separator.)
pub proof fn lemma_date_text_round_trip(d: CalendarDate)
    requires
        d.is_valid(),
        d.year >= 0,
    ensures
        date_of_text(date_text(d)) == Ok::<CalendarDate, DateError>(d),
{
    let y = zero_pad(decimal_text(d.year as nat), 4);
    let m = zero_pad(decimal_text(d.month as nat), 2);
    let a = zero_pad(decimal_text(d.day as nat), 2);
    assert(signed_text(d.year as int) == decimal_text(d.year as nat));
    lemma_padded_numeral(d.year as nat, 4);
    lemma_padded_numeral(d.month as nat, 2);
    lemma_padded_numeral(d.day as nat, 2);
    lemma_no_digit_is_dash(y);
    lemma_no_digit_is_dash(m);
    lemma_no_digit_is_dash(a);
    lemma_split_single(y, '-');
    lemma_split_append(y, m, '-');
    lemma_split_append(y + seq!['-'] + m, a, '-');
    assert(date_text(d) == y + seq!['-'] + m + seq!['-'] + a);
    let fields = split_spec(date_text(d), '-');
    assert(fields =~= seq![y, m, a]);
    assert(i32_of_text(y) == Some(d.year));
    assert(u8_of_text(m) == Some(d.month));
    assert(u8_of_text(a) == Some(d.day));
}

} // verus!
