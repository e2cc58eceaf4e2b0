//! Date, time-of-day and duration values as the jolpica-f1 API reports them, and the parsers for
//! the text formats it uses for them.

use vstd::prelude::*;

use crate::text::{
    all_digits, chars_of, decimal_of_digits, decimal_value, digit_groups, lemma_decimal_value_bound,
    lemma_digit_groups_shape, pow10, separators, split_digit_groups, DigitGroup, decimal_text, u32_to_text,
    lemma_digit_groups_after_separator, lemma_digit_groups_of_digits,
};

verus! {

/// `a / b` rounded toward zero, as Rust's integer division rounds, for a positive `b`.
pub open spec fn trunc_div(a: int, b: int) -> int {
    if a >= 0 {
        a / b
    } else {
        -((-a) / b)
    }
}

/// `true` when a span of `ms` milliseconds has a whole number of seconds that fits in `i64`,
/// the range of the durations of this crate.
pub open spec fn millis_in_range(ms: int) -> bool {
    i64::MIN <= trunc_div(ms, 1000) <= i64::MAX
}

/// A signed span of time with millisecond resolution, e.g. a lap time or a race duration.
#[derive(PartialEq, Eq, Structural, Clone, Copy, Debug, Hash)]
pub struct Duration {
    millis: i128,
}

impl Duration {
    /// The length of this span, in milliseconds.
    pub closed spec fn ms(self) -> int {
        self.millis as int
    }

    #[verifier::type_invariant]
    spec fn well_formed(self) -> bool {
        millis_in_range(self.millis as int)
    }

    /// The empty span of time.
    pub fn zero() -> (d: Duration)
        ensures
            d.ms() == 0,
    {
        Duration { millis: 0 }
    }

    /// A span of `milliseconds` milliseconds.
    pub fn milliseconds(milliseconds: i64) -> (d: Duration)
        ensures
            d.ms() == milliseconds,
    {
        Duration { millis: milliseconds as i128 }
    }

    /// The number of whole milliseconds, rounded toward zero.
    pub fn whole_milliseconds(&self) -> (r: i128)
        ensures
            r == self.ms(),
    {
        self.millis
    }

    /// The number of whole seconds, rounded toward zero.
    pub fn whole_seconds(&self) -> (r: i64)
        ensures
            r == trunc_div(self.ms(), 1000),
    {
        proof {
            use_type_invariant(self);
        }
        if self.millis >= 0 {
            (self.millis / 1000) as i64
        } else {
            -((-self.millis) / 1000) as i64
        }
    }

    /// The number of whole minutes, rounded toward zero.
    pub fn whole_minutes(&self) -> (r: i64)
        ensures
            r == trunc_div(self.ms(), 60_000),
    {
        proof {
            use_type_invariant(self);
        }
        if self.millis >= 0 {
            (self.millis / 60_000) as i64
        } else {
            -((-self.millis) / 60_000) as i64
        }
    }

    /// The number of whole hours, rounded toward zero.
    pub fn whole_hours(&self) -> (r: i64)
        ensures
            r == trunc_div(self.ms(), 3_600_000),
    {
        proof {
            use_type_invariant(self);
        }
        if self.millis >= 0 {
            (self.millis / 3_600_000) as i64
        } else {
            -((-self.millis) / 3_600_000) as i64
        }
    }

    /// The milliseconds left over after the whole seconds, with the sign of the span.
    pub fn subsec_milliseconds(&self) -> (r: i16)
        ensures
            r == self.ms() - trunc_div(self.ms(), 1000) * 1000,
    {
        proof {
            use_type_invariant(self);
        }
        if self.millis >= 0 {
            (self.millis % 1000) as i16
        } else {
            -((-self.millis) % 1000) as i16
        }
    }

    /// `self - rhs`, or `None` when the difference is out of the range of durations.
    pub fn checked_sub(self, rhs: Duration) -> (r: Option<Duration>)
        ensures
            r is Some <==> millis_in_range(self.ms() - rhs.ms()),
            r matches Some(d) ==> d.ms() == self.ms() - rhs.ms(),
    {
        proof {
            use_type_invariant(&self);
            use_type_invariant(&rhs);
        }
        let diff = self.millis - rhs.millis;
        if diff >= 0 {
            if diff / 1000 <= i64::MAX as i128 {
                Some(Duration { millis: diff })
            } else {
                None
            }
        } else {
            if (-diff) / 1000 <= i64::MAX as i128 + 1 {
                Some(Duration { millis: diff })
            } else {
                None
            }
        }
    }

    /// `true` when `self` is a strictly shorter span than `rhs`.
    pub fn is_shorter_than(&self, rhs: &Duration) -> (r: bool)
        ensures
            r == (self.ms() < rhs.ms()),
    {
        self.millis < rhs.millis
    }
}

/// `true` when `seconds` fits in `i64`, the range of whole seconds of a [`Duration`].
pub open spec fn fits_i64(seconds: int) -> bool {
    i64::MIN <= seconds <= i64::MAX
}

/// Construct a [`Duration`] from a number of hours, minutes, seconds, and milliseconds.
///
/// The parts are added up in that order; each part, and each partial sum, must stay within the
/// range of whole seconds of a [`Duration`].
pub fn duration_hms_ms(hours: i64, minutes: i64, seconds: i64, milliseconds: i64) -> (d: Duration)
    requires
        fits_i64(hours * 3600),
        fits_i64(minutes * 60),
        fits_i64(hours * 3600 + minutes * 60),
        fits_i64(hours * 3600 + minutes * 60 + seconds),
        fits_i64(hours * 3600 + minutes * 60 + seconds + trunc_div(milliseconds as int, 1000)),
    ensures
        d.ms() == hours * 3_600_000 + minutes * 60_000 + seconds * 1000 + milliseconds,
{
    let total: i128 = hours as i128 * 3_600_000 + minutes as i128 * 60_000 + seconds as i128 * 1000
        + milliseconds as i128;
    proof {
        let secs = hours * 3600 + minutes * 60 + seconds;
        assert(total == secs * 1000 + milliseconds);
        lemma_trunc_div_shift(secs, milliseconds as int);
    }
    Duration { millis: total }
}

/// Construct a [`Duration`] from a number of minutes, seconds, and milliseconds.
pub fn duration_m_s_ms(minutes: i64, seconds: i64, milliseconds: i64) -> (d: Duration)
    requires
        fits_i64(minutes * 60),
        fits_i64(minutes * 60 + seconds),
        fits_i64(minutes * 60 + seconds + trunc_div(milliseconds as int, 1000)),
    ensures
        d.ms() == minutes * 60_000 + seconds * 1000 + milliseconds,
{
    duration_hms_ms(0, minutes, seconds, milliseconds)
}

/// Construct a [`Duration`] from a number of seconds and milliseconds.
pub fn duration_s_ms(seconds: i64, milliseconds: i64) -> (d: Duration)
    requires
        fits_i64(seconds + trunc_div(milliseconds as int, 1000)),
    ensures
        d.ms() == seconds * 1000 + milliseconds,
{
    duration_hms_ms(0, 0, seconds, milliseconds)
}

/// Construct a [`Duration`] from a number of milliseconds.
pub fn duration_millis(milliseconds: i64) -> (d: Duration)
    ensures
        d.ms() == milliseconds,
{
    Duration::milliseconds(milliseconds)
}

/// Adding a span of milliseconds to whole seconds never takes the whole seconds of the total
/// beyond the sum of the whole seconds of both: it lies between zero and that sum.
proof fn lemma_trunc_div_shift(secs: int, ms: int)
    ensures
        ({
            let t = secs + trunc_div(ms, 1000);
            let w = trunc_div(secs * 1000 + ms, 1000);
            (t >= 0 ==> 0 <= w <= t) && (t <= 0 ==> t <= w <= 0)
        }),
{
    let q = trunc_div(ms, 1000);
    let r = ms - q * 1000;
    assert(-1000 < r < 1000 && (ms >= 0 ==> r >= 0) && (ms < 0 ==> r <= 0));
    let t = secs + q;
    let total = secs * 1000 + ms;
    assert(total == t * 1000 + r);
}


/// A time of day, e.g. the start time of a session, with whole-second resolution.
#[derive(PartialEq, Eq, Structural, Clone, Copy, Debug, Hash)]
pub struct Time {
    /// Hour of the day, `0..24`.
    pub hour: u8,
    /// Minute of the hour, `0..60`.
    pub minute: u8,
    /// Second of the minute, `0..60`.
    pub second: u8,
}

/// A calendar date, e.g. the date of a race.
#[derive(PartialEq, Eq, Structural, Clone, Copy, Debug, Hash)]
pub struct Date {
    /// Calendar year, e.g. `2023`.
    pub year: i32,
    /// Month of the year, `1..=12`.
    pub month: u8,
    /// Day of the month, `1..=31`.
    pub day: u8,
}

/// A date and an optional time of day, e.g. the date and start time of a session.
#[derive(PartialEq, Eq, Structural, Clone, Copy, Debug, Hash)]
pub struct DateTime {
    /// The date component of the date-time.
    pub date: Date,
    /// The optional time component of the date-time.
    pub time: Option<Time>,
}

/// A field of one or two digits below sixty, as minutes and seconds are written: `[0-5]?\d`.
pub open spec fn is_sixty_field(g: Seq<char>) -> bool {
    1 <= g.len() <= 2 && decimal_value(g) < 60
}

/// A fraction of a second written with one to three digits.
pub open spec fn is_fraction_field(g: Seq<char>) -> bool {
    1 <= g.len() <= 3
}

/// Milliseconds of a fraction of a second written with one to three digits, read as the digits
/// after a decimal point: `"4"` is 400, `"04"` is 40, `"004"` is 4.
pub open spec fn fraction_millis(g: Seq<char>) -> int {
    if g.len() == 1 {
        (decimal_value(g) * 100) as int
    } else if g.len() == 2 {
        (decimal_value(g) * 10) as int
    } else {
        decimal_value(g) as int
    }
}

/// Milliseconds of a duration written `[H:][M:]S.F` (as lap and race times are), where `H` has
/// one or two digits, `M` and `S` are below sixty, `F` has one to three digits and `S` is
/// always present; with a single colon the field before it counts minutes, of one or two digits.
/// `None` when the text has another form.
pub open spec fn duration_text_millis(s: Seq<char>) -> Option<int> {
    let g = digit_groups(s);
    let p = separators(s);
    if p == seq!['.'] {
        if is_sixty_field(g[0]) && is_fraction_field(g[1]) {
            Some(decimal_value(g[0]) * 1000 + fraction_millis(g[1]))
        } else {
            None
        }
    } else if p == seq![':', '.'] {
        if 1 <= g[0].len() <= 2 && is_sixty_field(g[1]) && is_fraction_field(g[2]) {
            Some(decimal_value(g[0]) * 60_000 + decimal_value(g[1]) * 1000 + fraction_millis(g[2]))
        } else {
            None
        }
    } else if p == seq![':', ':', '.'] {
        if 1 <= g[0].len() <= 2 && is_sixty_field(g[1]) && is_sixty_field(g[2]) && is_fraction_field(g[3]) {
            Some(
                decimal_value(g[0]) * 3_600_000 + decimal_value(g[1]) * 60_000 + decimal_value(g[2])
                    * 1000 + fraction_millis(g[3]),
            )
        } else {
            None
        }
    } else {
        None
    }
}

/// A fraction written with one to three digits counts its value times ten to the power of the
/// digits it lacks of three: the digits after a decimal point, e.g. `"86"` is 860 ms.
proof fn lemma_fraction_as_decimal_point(f: Seq<char>)
    requires
        1 <= f.len() <= 3,
    ensures
        fraction_millis(f) == decimal_value(f) * pow10((3 - f.len()) as nat),
{
    assert(pow10(0) == 1);
    assert(pow10(1) == 10);
    assert(pow10(2) == 100);
    let v = decimal_value(f);
    if f.len() == 1 {
        assert(((3 - f.len()) as nat) == 2);
        assert(v * pow10(2) == v * 100);
    } else if f.len() == 2 {
        assert(((3 - f.len()) as nat) == 1);
        assert(v * pow10(1) == v * 10);
    } else {
        assert(((3 - f.len()) as nat) == 0);
        assert(v * pow10(0) == v);
    }
}

/// A duration written `S.F`, with seconds `S` below sixty in one or two digits and a fraction
/// `F` of one to three digits, lasts `S` seconds plus the fraction read as the digits after a
/// decimal point, e.g. `"58.86"` is 58 860 ms.
pub proof fn law_duration_seconds(sec: Seq<char>, f: Seq<char>)
    requires
        all_digits(sec),
        all_digits(f),
        1 <= sec.len() <= 2,
        decimal_value(sec) < 60,
        1 <= f.len() <= 3,
    ensures
        duration_text_millis(sec + seq!['.'] + f) == Some(
            (decimal_value(sec) * 1000 + decimal_value(f) * pow10((3 - f.len()) as nat)) as int,
        ),
{
    lemma_digit_groups_of_digits(sec);
    lemma_digit_groups_after_separator(sec, '.', f);
    assert(sec + seq!['.'] + f =~= sec.push('.') + f);
    assert(seq![sec].push(f) =~= seq![sec, f]);
    assert(Seq::<char>::empty().push('.') =~= seq!['.']);
    lemma_fraction_as_decimal_point(f);
}

/// A duration written `M:S.F`, with minutes `M` of one or two digits, seconds `S` below sixty in
/// one or two digits and a fraction `F` of one to three digits, lasts `M` minutes and `S`
/// seconds plus the fraction read as the digits after a decimal point.
pub proof fn law_duration_minutes_seconds(min: Seq<char>, sec: Seq<char>, f: Seq<char>)
    requires
        all_digits(min),
        all_digits(sec),
        all_digits(f),
        1 <= min.len() <= 2,
        1 <= sec.len() <= 2,
        decimal_value(sec) < 60,
        1 <= f.len() <= 3,
    ensures
        duration_text_millis(min + seq![':'] + sec + seq!['.'] + f) == Some(
            (decimal_value(min) * 60_000 + decimal_value(sec) * 1000 + decimal_value(f) * pow10(
                (3 - f.len()) as nat,
            )) as int,
        ),
{
    lemma_digit_groups_of_digits(min);
    lemma_digit_groups_after_separator(min, ':', sec);
    lemma_digit_groups_after_separator(min.push(':') + sec, '.', f);
    assert(min + seq![':'] + sec + seq!['.'] + f =~= (min.push(':') + sec).push('.') + f);
    assert(seq![min].push(sec).push(f) =~= seq![min, sec, f]);
    assert(Seq::<char>::empty().push(':').push('.') =~= seq![':', '.']);
    lemma_fraction_as_decimal_point(f);
}

/// A duration written `H:M:S.F`, with hours `H` of one or two digits, minutes `M` and seconds
/// `S` below sixty in one or two digits and a fraction `F` of one to three digits, lasts `H`
/// hours, `M` minutes and `S` seconds plus the fraction read as the digits after a decimal
/// point, e.g. `"1:43:58.86"` is 6 238 860 ms.
pub proof fn law_duration_hours_minutes_seconds(
    hours: Seq<char>,
    min: Seq<char>,
    sec: Seq<char>,
    f: Seq<char>,
)
    requires
        all_digits(hours),
        all_digits(min),
        all_digits(sec),
        all_digits(f),
        1 <= hours.len() <= 2,
        1 <= min.len() <= 2,
        decimal_value(min) < 60,
        1 <= sec.len() <= 2,
        decimal_value(sec) < 60,
        1 <= f.len() <= 3,
    ensures
        duration_text_millis(hours + seq![':'] + min + seq![':'] + sec + seq!['.'] + f) == Some(
            (decimal_value(hours) * 3_600_000 + decimal_value(min) * 60_000 + decimal_value(sec)
                * 1000 + decimal_value(f) * pow10((3 - f.len()) as nat)) as int,
        ),
{
    lemma_digit_groups_of_digits(hours);
    lemma_digit_groups_after_separator(hours, ':', min);
    lemma_digit_groups_after_separator(hours.push(':') + min, ':', sec);
    lemma_digit_groups_after_separator((hours.push(':') + min).push(':') + sec, '.', f);
    assert(hours + seq![':'] + min + seq![':'] + sec + seq!['.'] + f =~= ((hours.push(':') + min).push(
        ':',
    ) + sec).push('.') + f);
    assert(seq![hours].push(min).push(sec).push(f) =~= seq![hours, min, sec, f]);
    assert(Seq::<char>::empty().push(':').push(':').push('.') =~= seq![':', ':', '.']);
    lemma_fraction_as_decimal_point(f);
}

/// A delta written `+S.F`, with seconds `S` of one to three digits and a fraction `F` of one to
/// three digits, is `S` seconds plus the fraction read as the digits after a decimal point, e.g.
/// `"+2.5"` is 2 500 ms.
pub proof fn law_delta_seconds(sec: Seq<char>, f: Seq<char>)
    requires
        all_digits(sec),
        all_digits(f),
        1 <= sec.len() <= 3,
        1 <= f.len() <= 3,
    ensures
        delta_text_millis(seq!['+'] + sec + seq!['.'] + f) == Some(
            (decimal_value(sec) * 1000 + decimal_value(f) * pow10((3 - f.len()) as nat)) as int,
        ),
{
    let e = Seq::<char>::empty();
    lemma_digit_groups_of_digits(e);
    lemma_digit_groups_after_separator(e, '+', sec);
    lemma_digit_groups_after_separator(e.push('+') + sec, '.', f);
    assert(seq!['+'] + sec + seq!['.'] + f =~= (e.push('+') + sec).push('.') + f);
    assert(seq![e].push(sec).push(f) =~= seq![e, sec, f]);
    assert(e.push('+').push('.') =~= seq!['+', '.']);
    lemma_fraction_as_decimal_point(f);
}

/// A delta written `+M:S.F`, with minutes `M` of one or two digits, seconds `S` of one to three
/// digits and a fraction `F` of one to three digits, is `M` minutes and `S` seconds plus the
/// fraction read as the digits after a decimal point, e.g. `"+1:14.24"` is 74 240 ms.
pub proof fn law_delta_minutes_seconds(min: Seq<char>, sec: Seq<char>, f: Seq<char>)
    requires
        all_digits(min),
        all_digits(sec),
        all_digits(f),
        1 <= min.len() <= 2,
        1 <= sec.len() <= 3,
        1 <= f.len() <= 3,
    ensures
        delta_text_millis(seq!['+'] + min + seq![':'] + sec + seq!['.'] + f) == Some(
            (decimal_value(min) * 60_000 + decimal_value(sec) * 1000 + decimal_value(f) * pow10(
                (3 - f.len()) as nat,
            )) as int,
        ),
{
    let e = Seq::<char>::empty();
    lemma_digit_groups_of_digits(e);
    lemma_digit_groups_after_separator(e, '+', min);
    lemma_digit_groups_after_separator(e.push('+') + min, ':', sec);
    lemma_digit_groups_after_separator((e.push('+') + min).push(':') + sec, '.', f);
    assert(seq!['+'] + min + seq![':'] + sec + seq!['.'] + f =~= ((e.push('+') + min).push(':')
        + sec).push('.') + f);
    assert(seq![e].push(min).push(sec).push(f) =~= seq![e, min, sec, f]);
    assert(e.push('+').push(':').push('.') =~= seq!['+', ':', '.']);
    lemma_fraction_as_decimal_point(f);
}

/// Milliseconds of a delta time written `+[M:]S.F`, as gaps to a race leader are, where `M` has
/// one or two digits, `S` one to three digits and `F` one to three digits, e.g. `"+1:14.240"` or
/// `"+103.588"`. `None` when the text has another form.
pub open spec fn delta_text_millis(s: Seq<char>) -> Option<int> {
    let g = digit_groups(s);
    let p = separators(s);
    if p == seq!['+', '.'] {
        if g[0].len() == 0 && 1 <= g[1].len() <= 3 && is_fraction_field(g[2]) {
            Some(decimal_value(g[1]) * 1000 + fraction_millis(g[2]))
        } else {
            None
        }
    } else if p == seq!['+', ':', '.'] {
        if g[0].len() == 0 && 1 <= g[1].len() <= 2 && 1 <= g[2].len() <= 3 && is_fraction_field(
            g[3],
        ) {
            Some(decimal_value(g[1]) * 60_000 + decimal_value(g[2]) * 1000 + fraction_millis(g[3]))
        } else {
            None
        }
    } else {
        None
    }
}

/// The time of day written `HH:MM:SSZ`, e.g. `"11:00:00Z"`, with exactly two digits per field,
/// an hour below 24 and minutes and seconds below 60. `None` when the text has another form.
pub open spec fn time_text_value(s: Seq<char>) -> Option<Time> {
    let g = digit_groups(s);
    let p = separators(s);
    if p == seq![':', ':', 'Z'] && g[0].len() == 2 && g[1].len() == 2 && g[2].len() == 2
        && g[3].len() == 0 && decimal_value(g[0]) < 24 && decimal_value(g[1]) < 60
        && decimal_value(g[2]) < 60 {
        Some(
            Time {
                hour: decimal_value(g[0]) as u8,
                minute: decimal_value(g[1]) as u8,
                second: decimal_value(g[2]) as u8,
            },
        )
    } else {
        None
    }
}

/// The message of a text that is no duration.
pub open spec fn invalid_duration_message(raw: Seq<char>) -> Seq<char> {
    "Invalid duration: \""@ + raw + "\""@
}

/// The message of a text that is no delta time.
pub open spec fn invalid_delta_message(raw: Seq<char>) -> Seq<char> {
    "Invalid delta time: \""@ + raw + "\""@
}

/// The message of a text that is no time of day.
pub open spec fn invalid_time_message(raw: Seq<char>) -> Seq<char> {
    "Invalid time: \""@ + raw + "\""@
}

/// `prefix`, then `raw`, then a closing double quote.
fn quoted_message(prefix: &str, raw: &str) -> (m: String)
    ensures
        m@ == prefix@ + raw@ + "\""@,
{
    let mut m = String::from_str(prefix);
    m.append(raw);
    m.append("\"");
    m
}

/// Milliseconds of a fraction of a second given by one to three digits.
fn fraction_group_millis(g: DigitGroup) -> (r: u64)
    requires
        1 <= g.len <= 3,
        g.value < 1000,
    ensures
        g.len == 1 ==> r == g.value * 100,
        g.len == 2 ==> r == g.value * 10,
        g.len == 3 ==> r == g.value,
{
    if g.len == 1 {
        g.value * 100
    } else if g.len == 2 {
        g.value * 10
    } else {
        g.value
    }
}

/// Whether `str::parse::<i64>` reads `s`, of one to three characters: an optional sign, then at
/// least one ASCII digit.
pub open spec fn short_integer_text(s: Seq<char>) -> bool {
    &&& 1 <= s.len() <= 3
    &&& if s[0] == '+' || s[0] == '-' {
        s.len() >= 2 && all_digits(s.skip(1))
    } else {
        all_digits(s)
    }
}

/// Milliseconds of a `[subseconds]` text: its integer value, scaled by ten for each character it
/// is shorter than three, e.g. `"12"` is 120; the digits of a fraction of a second give
/// [`fraction_millis`].
pub open spec fn subsecond_millis(s: Seq<char>) -> int {
    let signed = s[0] == '+' || s[0] == '-';
    let digits = if signed {
        s.skip(1)
    } else {
        s
    };
    let value = if s[0] == '-' {
        -(decimal_value(digits) as int)
    } else {
        decimal_value(digits) as int
    };
    value * pow10((3 - s.len()) as nat)
}

/// Parse a `[subseconds]` string into milliseconds, e.g. `"123"` -> `123`, `"12"` -> `120`, etc.
pub fn parse_subsecond_into_milli(subsec_str: &str) -> (r: i64)
    requires
        short_integer_text(subsec_str@),
    ensures
        r == subsecond_millis(subsec_str@),
        all_digits(subsec_str@) ==> r == fraction_millis(subsec_str@),
{
    let cs = chars_of(subsec_str);
    let signed = cs[0] == '+' || cs[0] == '-';
    let mut digits = chars_of(subsec_str);
    if signed {
        digits.remove(0);
    }
    let ghost ds = if signed { subsec_str@.skip(1) } else { subsec_str@ };
    assert(digits@ =~= ds);
    let v = decimal_of_digits(&digits);
    proof {
        lemma_decimal_value_bound(digits@);
        reveal_with_fuel(pow10, 4);
    }
    let value: i64 = if cs[0] == '-' { -(v as i64) } else { v as i64 };
    let ghost signed_value = if subsec_str@[0] == '-' { -(decimal_value(ds) as int) } else { decimal_value(ds) as int };
    assert(value == signed_value);
    assert(subsecond_millis(subsec_str@) == signed_value * pow10((3 - subsec_str@.len()) as nat));
    if cs.len() == 1 {
        proof {
            let k = pow10((3 - subsec_str@.len()) as nat);
            assert(k == 100);
            assert(signed_value * k == signed_value * 100) by (nonlinear_arith)
                requires
                    k == 100,
            ;
        }
        value * 100
    } else if cs.len() == 2 {
        proof {
            let k = pow10((3 - subsec_str@.len()) as nat);
            assert(k == 10);
            assert(signed_value * k == signed_value * 10) by (nonlinear_arith)
                requires
                    k == 10,
            ;
        }
        value * 10
    } else {
        proof {
            let k = pow10((3 - subsec_str@.len()) as nat);
            assert(k == 1);
            assert(signed_value * k == signed_value * 1) by (nonlinear_arith)
                requires
                    k == 1,
            ;
        }
        value
    }
}

/// Parse a [`Time`] from a string in the format `HH:MM:SSZ`, e.g. `11:00:00Z`.
/// This format represents times of day in the jolpica-f1 API, e.g. the start time of an event.
pub fn parse_time(raw_str: &str) -> (r: Result<Time, String>)
    ensures
        match time_text_value(raw_str@) {
            Some(t) => r == Ok::<Time, String>(t),
            None => r matches Err(m) && m@ == invalid_time_message(raw_str@),
        },
{
    let cs = chars_of(raw_str);
    let (g, p) = split_digit_groups(&cs);
    proof {
        lemma_digit_groups_shape(raw_str@);
    }
    if p.len() == 3 && p[0] == ':' && p[1] == ':' && p[2] == 'Z' && g[0].len == 2 && g[1].len == 2
        && g[2].len == 2 && g[3].len == 0 && g[0].value < 24 && g[1].value < 60 && g[2].value < 60 {
        assert(separators(raw_str@) =~= seq![':', ':', 'Z']);
        Ok(Time { hour: g[0].value as u8, minute: g[1].value as u8, second: g[2].value as u8 })
    } else {
        proof {
            if separators(raw_str@) == seq![':', ':', 'Z'] {
                assert(p@[0] == ':' && p@[1] == ':' && p@[2] == 'Z');
            }
        }
        Err(quoted_message("Invalid time: \"", raw_str))
    }
}

/// Parse a [`Duration`] from a string in the format `H:MM:SS.SSS`, e.g. `"2:05:05.152"`.
/// This format represents durations in the jolpica-f1 API, i.e. the duration of a lap or race.
/// The parsing is permissive, allowing the `[hour]` and `[minute]` components to be omitted, and
/// all other components to have fewer than the maximum number of digits.
pub fn parse_duration(raw_str: &str) -> (r: Result<Duration, String>)
    ensures
        match duration_text_millis(raw_str@) {
            Some(ms) => r matches Ok(d) && d.ms() == ms,
            None => r matches Err(m) && m@ == invalid_duration_message(raw_str@),
        },
{
    let cs = chars_of(raw_str);
    let (g, p) = split_digit_groups(&cs);
    let ghost gs = digit_groups(raw_str@);
    proof {
        lemma_digit_groups_shape(raw_str@);
        lemma_group_values_small(raw_str@, g@);
    }
    if p.len() == 1 && p[0] == '.' {
        assert(separators(raw_str@) =~= seq!['.']);
        if 1 <= g[0].len && g[0].len <= 2 && g[0].value < 60 && 1 <= g[1].len && g[1].len <= 3 {
            let ms = g[0].value * 1000 + fraction_group_millis(g[1]);
            return Ok(Duration { millis: ms as i128 });
        }
    } else if p.len() == 2 && p[0] == ':' && p[1] == '.' {
        assert(separators(raw_str@) =~= seq![':', '.']);
        if 1 <= g[0].len && g[0].len <= 2 && 1 <= g[1].len && g[1].len <= 2 && g[1].value < 60
            && 1 <= g[2].len && g[2].len <= 3 {
            let ms = g[0].value * 60_000 + g[1].value * 1000 + fraction_group_millis(g[2]);
            return Ok(Duration { millis: ms as i128 });
        }
    } else if p.len() == 3 && p[0] == ':' && p[1] == ':' && p[2] == '.' {
        assert(separators(raw_str@) =~= seq![':', ':', '.']);
        if 1 <= g[0].len && g[0].len <= 2 && 1 <= g[1].len && g[1].len <= 2 && g[1].value < 60
            && 1 <= g[2].len && g[2].len <= 2 && g[2].value < 60 && 1 <= g[3].len && g[3].len <= 3 {
            let ms = g[0].value * 3_600_000 + g[1].value * 60_000 + g[2].value * 1000
                + fraction_group_millis(g[3]);
            return Ok(Duration { millis: ms as i128 });
        }
    } else {
        proof {
            let sp = separators(raw_str@);
            if sp == seq!['.'] || sp == seq![':', '.'] || sp == seq![':', ':', '.'] {
                assert(sp.len() == p@.len());
                assert(sp[0] == p@[0]);
            }
        }
    }
    Err(quoted_message("Invalid duration: \"", raw_str))
}

/// Parse a [`Duration`] from a string in one of the following formats: `+SSS.SSS` OR `+M:SS.SSS`,
/// for example `+0.4`, `+1.882`, `+21.217`, `+89.241`, `+103.796`, `+1:14.240`, etc.
/// These formats represent delta times in the jolpica-f1 API, i.e. differences between times.
pub fn parse_delta(raw_str: &str) -> (r: Result<Duration, String>)
    ensures
        match delta_text_millis(raw_str@) {
            Some(ms) => r matches Ok(d) && d.ms() == ms,
            None => r matches Err(m) && m@ == invalid_delta_message(raw_str@),
        },
{
    let cs = chars_of(raw_str);
    let (g, p) = split_digit_groups(&cs);
    proof {
        lemma_digit_groups_shape(raw_str@);
        lemma_group_values_small(raw_str@, g@);
    }
    if p.len() == 2 && p[0] == '+' && p[1] == '.' {
        assert(separators(raw_str@) =~= seq!['+', '.']);
        if g[0].len == 0 && 1 <= g[1].len && g[1].len <= 3 && 1 <= g[2].len && g[2].len <= 3 {
            let ms = g[1].value * 1000 + fraction_group_millis(g[2]);
            return Ok(Duration { millis: ms as i128 });
        }
    } else if p.len() == 3 && p[0] == '+' && p[1] == ':' && p[2] == '.' {
        assert(separators(raw_str@) =~= seq!['+', ':', '.']);
        if g[0].len == 0 && 1 <= g[1].len && g[1].len <= 2 && 1 <= g[2].len && g[2].len <= 3
            && 1 <= g[3].len && g[3].len <= 3 {
            let ms = g[1].value * 60_000 + g[2].value * 1000 + fraction_group_millis(g[3]);
            return Ok(Duration { millis: ms as i128 });
        }
    } else {
        proof {
            let sp = separators(raw_str@);
            if sp == seq!['+', '.'] || sp == seq!['+', ':', '.'] {
                assert(sp.len() == p@.len());
                assert(sp[0] == p@[0] && sp[1] == p@[1]);
            }
        }
    }
    Err(quoted_message("Invalid delta time: \"", raw_str))
}

/// The digit groups of at most three digits found by [`split_digit_groups`] hold values below
/// a thousand.
proof fn lemma_group_values_small(s: Seq<char>, g: Seq<DigitGroup>)
    requires
        g.len() == digit_groups(s).len(),
        forall|k: int| 0 <= k < g.len() ==> (#[trigger] g[k]).describes(digit_groups(s)[k]),
    ensures
        forall|k: int| 0 <= k < g.len() && g[k].len <= 3 ==> #[trigger] g[k].value < 1000,
{
    lemma_digit_groups_shape(s);
    assert forall|k: int| 0 <= k < g.len() && g[k].len <= 3 implies #[trigger] g[k].value < 1000 by {
        lemma_decimal_value_bound(digit_groups(s)[k]);
        reveal_with_fuel(pow10, 4);
    }
}


/// The duration of the best qualifying lap set by a driver in a qualifying session, e.g. Q1, Q2,
/// etc. A lap time is represented by [`QualifyingTime::Time`]. If a driver took part in a
/// qualifying session but did not set a lap time, then [`QualifyingTime::NoTimeSet`].
#[derive(PartialEq, Eq, Structural, Clone, Copy, Debug)]
pub enum QualifyingTime {
    /// The duration of the best qualifying lap set by a driver in a qualifying session.
    Time(Duration),
    /// The driver took part in a qualifying session but did not set a lap time.
    NoTimeSet,
}

impl QualifyingTime {
    /// Returns `true` if the driver set a lap time in a qualifying session.
    pub fn has_time(&self) -> (r: bool)
        ensures
            r == (*self is Time),
    {
        matches!(self, QualifyingTime::Time(_))
    }

    /// Returns `true` if the driver took part in a qualifying session but did not set a lap time.
    pub fn no_time_set(&self) -> (r: bool)
        ensures
            r == (*self is NoTimeSet),
    {
        matches!(self, QualifyingTime::NoTimeSet)
    }

    /// Returns the lap time, as [`Duration`], if the driver set a lap time in a qualifying session.
    /// There is none to return when the driver set no lap time.
    pub fn time(&self) -> (r: &Duration)
        requires
            *self is Time,
        ensures
            *r == self->Time_0,
    {
        match self {
            QualifyingTime::Time(time) => time,
            QualifyingTime::NoTimeSet => {
                assert(false);
                unreached()
            },
        }
    }

    /// Reads a qualifying time as the API writes it: the empty text when no time was set, else a
    /// lap time in the format of [`parse_duration`].
    pub fn from_text(raw_str: &str) -> (r: Result<QualifyingTime, String>)
        ensures
            raw_str@.len() == 0 ==> r == Ok::<QualifyingTime, String>(QualifyingTime::NoTimeSet),
            raw_str@.len() > 0 ==> match duration_text_millis(raw_str@) {
                Some(ms) => r matches Ok(QualifyingTime::Time(d)) && d.ms() == ms,
                None => r matches Err(m) && m@ == invalid_duration_message(raw_str@),
            },
    {
        if raw_str.is_empty() {
            Ok(QualifyingTime::NoTimeSet)
        } else {
            match parse_duration(raw_str) {
                Ok(d) => Ok(QualifyingTime::Time(d)),
                Err(e) => Err(e),
            }
        }
    }
}

/// The full race duration for a single driver, including a delta to the race leader/P1.
/// This is only present if a driver finished in the lead lap, if their race status is `"Finished"`.
#[derive(PartialEq, Eq, Structural, Clone, Copy, Debug)]
pub struct RaceTime {
    /// Total race duration for the driver.
    total: Duration,
    /// Delta to the leader's race duration, which is zero for the leader/P1's [`RaceTime`].
    delta: Duration,
}

impl RaceTime {
    /// The total race duration.
    pub closed spec fn total_view(self) -> Duration {
        self.total
    }

    /// The delta to the leader's race duration.
    pub closed spec fn delta_view(self) -> Duration {
        self.delta
    }

    /// A delta is either zero, for the leader, or shorter than the total duration.
    #[verifier::type_invariant]
    spec fn well_formed(self) -> bool {
        self.delta.ms() == 0 || self.delta.ms() < self.total.ms()
    }

    /// Construct a [`RaceTime`] for the leader/P1, i.e. with a zero delta to the leader's time.
    pub fn lead(total: Duration) -> (r: RaceTime)
        ensures
            r.total_view() == total,
            r.delta_view().ms() == 0,
    {
        RaceTime { total, delta: Duration::zero() }
    }

    /// Construct a [`RaceTime`] for a driver other than the leader/P1, with a delta that is
    /// shorter than the total.
    pub fn with_delta(total: Duration, delta: Duration) -> (r: RaceTime)
        requires
            delta.ms() < total.ms(),
        ensures
            r.total_view() == total,
            r.delta_view() == delta,
    {
        RaceTime { total, delta }
    }

    /// Returns `true` if this [`RaceTime`] is for the leader/P1, i.e. with a zero delta.
    pub fn is_lead(&self) -> (r: bool)
        ensures
            r == (self.delta_view().ms() == 0),
    {
        self.delta.whole_milliseconds() == 0
    }

    /// Get the total race duration for a driver, as [`Duration`].
    pub fn total(&self) -> (r: &Duration)
        ensures
            *r == self.total_view(),
    {
        &self.total
    }

    /// Get the delta to the leader/P1's race duration, as [`Duration`]. It's zero for the leader.
    pub fn delta(&self) -> (r: &Duration)
        ensures
            *r == self.delta_view(),
            r.ms() == 0 || r.ms() < self.total_view().ms(),
    {
        proof {
            use_type_invariant(self);
        }
        &self.delta
    }

    /// Builds the race time that the API reports as a total in `millis` and a `time` text: the
    /// leader's total race time (which must match `millis`), or a delta to the leader written with
    /// a leading `'+'` (which must be less than `millis`).
    pub fn from_millis_and_time(millis: u32, time: &str) -> (r: Result<RaceTime, String>)
        ensures
            time@.len() == 0 ==> (r matches Err(m) && m@ == empty_race_time_message()),
            time@.len() > 0 && time@[0] == '+' ==> match delta_text_millis(time@) {
                None => r matches Err(m) && m@ == invalid_delta_message(time@),
                Some(d) => if d >= millis {
                    r matches Err(m) && m@ == delta_too_long_message(time@, millis)
                } else {
                    r matches Ok(t) && t.total_view().ms() == millis && t.delta_view().ms() == d
                },
            },
            time@.len() > 0 && time@[0] != '+' ==> match duration_text_millis(time@) {
                None => r matches Err(m) && m@ == invalid_duration_message(time@),
                Some(d) => if d != millis {
                    r matches Err(m) && m@ == total_mismatch_message(time@, millis)
                } else {
                    r matches Ok(t) && t.total_view().ms() == millis && t.delta_view().ms() == 0
                },
            },
    {
        if time.is_empty() {
            return Err(String::from_str("Unexpected empty 'time' in RaceTime"));
        }
        let cs = chars_of(time);
        let has_delta = cs[0] == '+';
        let total = Duration::milliseconds(millis as i64);
        let parsed = if has_delta {
            parse_delta(time)
        } else {
            parse_duration(time)
        };
        let delta = match parsed {
            Ok(d) => d,
            Err(e) => return Err(e),
        };
        if has_delta {
            if delta.whole_milliseconds() >= millis as i128 {
                return Err(
                    race_time_message("Delta 'time: ", time, "' must be less than 'millis: ", millis),
                );
            }
            Ok(RaceTime::with_delta(total, delta))
        } else {
            if delta.whole_milliseconds() != millis as i128 {
                return Err(race_time_message("Non-delta 'time: ", time, "' must match 'millis: ", millis));
            }
            Ok(RaceTime::lead(total))
        }
    }
}

/// The message of an empty race time text.
pub open spec fn empty_race_time_message() -> Seq<char> {
    "Unexpected empty 'time' in RaceTime"@
}

/// The message of a leader's time that does not match the total in milliseconds.
pub open spec fn total_mismatch_message(time: Seq<char>, millis: u32) -> Seq<char> {
    "Non-delta 'time: "@ + time + "' must match 'millis: "@ + decimal_text(millis as nat) + "'"@
}

/// The message of a delta longer than the total in milliseconds.
pub open spec fn delta_too_long_message(time: Seq<char>, millis: u32) -> Seq<char> {
    "Delta 'time: "@ + time + "' must be less than 'millis: "@ + decimal_text(millis as nat)
        + "'"@
}

/// `head`, `time`, `middle`, the digits of `millis` and a closing quote.
fn race_time_message(head: &str, time: &str, middle: &str, millis: u32) -> (m: String)
    ensures
        m@ == head@ + time@ + middle@ + decimal_text(millis as nat) + "'"@,
{
    let mut m = String::from_str(head);
    m.append(time);
    m.append(middle);
    let digits = u32_to_text(millis);
    m.append(digits.as_str());
    m.append("'");
    m
}

} // verus!
