//! Character-level helpers shared by the parsers and formatters of this crate.

use vstd::prelude::*;

verus! {

/// `true` for the ASCII decimal digits `'0'..='9'`.
pub open spec fn is_digit(c: char) -> bool {
    '0' <= c && c <= '9'
}

/// Numeric value of an ASCII decimal digit.
pub open spec fn digit_value(c: char) -> nat {
    (c as int - '0' as int) as nat
}

/// Value of a sequence of decimal digits, most significant digit first; `0` when empty.
pub open spec fn decimal_value(s: Seq<char>) -> nat
    decreases s.len(),
{
    if s.len() == 0 {
        0
    } else {
        decimal_value(s.drop_last()) * 10 + digit_value(s.last())
    }
}

/// `true` when every character of `s` is an ASCII decimal digit.
pub open spec fn all_digits(s: Seq<char>) -> bool {
    forall|i: int| 0 <= i < s.len() ==> is_digit(#[trigger] s[i])
}

/// Collects the characters of a string slice, in order.
pub fn chars_of(s: &str) -> (r: Vec<char>)
    ensures
        r@ == s@,
{
    let mut v: Vec<char> = Vec::new();
    for c in it: s.chars()
        invariant
            v@ == it.seq().take(it.index() as int),
    {
        v.push(c);
    }
    v
}


/// The maximal runs of ASCII digits of `s`, in order: the pieces left between its non-digit
/// characters, including the empty ones. There is always one more run than separators.
pub open spec fn digit_groups(s: Seq<char>) -> Seq<Seq<char>>
    decreases s.len(),
{
    if s.len() == 0 {
        seq![Seq::empty()]
    } else {
        let g = digit_groups(s.drop_last());
        if is_digit(s.last()) {
            g.update(g.len() - 1, g.last().push(s.last()))
        } else {
            g.push(Seq::empty())
        }
    }
}

/// The non-digit characters of `s`, in order.
pub open spec fn separators(s: Seq<char>) -> Seq<char>
    decreases s.len(),
{
    if s.len() == 0 {
        Seq::empty()
    } else if is_digit(s.last()) {
        separators(s.drop_last())
    } else {
        separators(s.drop_last()).push(s.last())
    }
}

/// Every digit group is made of digits, and there is one more group than separators.
pub proof fn lemma_digit_groups_shape(s: Seq<char>)
    ensures
        digit_groups(s).len() == separators(s).len() + 1,
        forall|k: int| 0 <= k < digit_groups(s).len() ==> all_digits(#[trigger] digit_groups(s)[k]),
    decreases s.len(),
{
    if s.len() > 0 {
        lemma_digit_groups_shape(s.drop_last());
        let g = digit_groups(s.drop_last());
        if is_digit(s.last()) {
            assert forall|k: int| 0 <= k < digit_groups(s).len() implies all_digits(
                #[trigger] digit_groups(s)[k],
            ) by {
                if k == g.len() - 1 {
                    let n = g.last().push(s.last());
                    assert forall|i: int| 0 <= i < n.len() implies is_digit(#[trigger] n[i]) by {
                        if i < g.last().len() {
                            assert(all_digits(g[g.len() - 1]));
                        }
                    }
                }
            }
        }
    }
}

/// Appending digits to a text extends its last digit group and adds no separator.
pub proof fn lemma_digit_groups_append_digits(a: Seq<char>, d: Seq<char>)
    requires
        all_digits(d),
    ensures
        digit_groups(a + d) == digit_groups(a).update(
            digit_groups(a).len() - 1,
            digit_groups(a).last() + d,
        ),
        separators(a + d) == separators(a),
    decreases d.len(),
{
    lemma_digit_groups_shape(a);
    if d.len() == 0 {
        assert(a + d =~= a);
        assert(digit_groups(a).last() + d =~= digit_groups(a).last());
        assert(digit_groups(a).update(digit_groups(a).len() - 1, digit_groups(a).last())
            =~= digit_groups(a));
    } else {
        let d0 = d.drop_last();
        assert(all_digits(d0)) by {
            assert forall|i: int| 0 <= i < d0.len() implies is_digit(#[trigger] d0[i]) by {
                assert(d0[i] == d[i]);
            }
        }
        lemma_digit_groups_append_digits(a, d0);
        assert((a + d).drop_last() =~= a + d0);
        assert((a + d).last() == d.last());
        assert(is_digit(d[d.len() - 1]));
        lemma_digit_groups_shape(a + d0);
        assert((digit_groups(a).last() + d0).push(d.last()) =~= digit_groups(a).last() + d);
        assert(digit_groups(a + d) =~= digit_groups(a).update(
            digit_groups(a).len() - 1,
            digit_groups(a).last() + d,
        ));
    }
}

/// A text, then a separator, then digits: the digit groups of the text followed by the digits,
/// and the separators of the text followed by the separator.
pub proof fn lemma_digit_groups_after_separator(a: Seq<char>, c: char, d: Seq<char>)
    requires
        !is_digit(c),
        all_digits(d),
    ensures
        digit_groups(a.push(c) + d) == digit_groups(a).push(d),
        separators(a.push(c) + d) == separators(a).push(c),
{
    assert(a.push(c).drop_last() =~= a);
    lemma_digit_groups_append_digits(a.push(c), d);
    assert(Seq::<char>::empty() + d =~= d);
    assert(digit_groups(a.push(c)).update(digit_groups(a.push(c)).len() - 1, Seq::<char>::empty() + d)
        =~= digit_groups(a).push(d));
}

/// The digit groups of a text of digits alone: the text itself, without separators.
pub proof fn lemma_digit_groups_of_digits(d: Seq<char>)
    requires
        all_digits(d),
    ensures
        digit_groups(d) == seq![d],
        separators(d) == Seq::<char>::empty(),
{
    lemma_digit_groups_append_digits(Seq::empty(), d);
    assert(Seq::<char>::empty() + d =~= d);
    assert(seq![Seq::<char>::empty()].update(0, Seq::<char>::empty() + d) =~= seq![d]);
}

/// Length and value of one digit group, as found by [`split_digit_groups`]. The value is kept
/// only for groups of at most nine digits.
#[derive(Clone, Copy, Debug)]
pub struct DigitGroup {
    pub len: usize,
    pub value: u64,
}

impl DigitGroup {
    /// `self` describes the digit run `g`.
    pub open spec fn describes(self, g: Seq<char>) -> bool {
        &&& self.len == g.len()
        &&& g.len() <= 9 ==> self.value == decimal_value(g)
    }
}

pub proof fn lemma_decimal_value_bound(s: Seq<char>)
    requires
        all_digits(s),
    ensures
        decimal_value(s) < pow10(s.len()),
    decreases s.len(),
{
    if s.len() > 0 {
        lemma_decimal_value_bound(s.drop_last());
        assert(is_digit(s[s.len() - 1]));
    }
}

/// `10` raised to `n`.
pub open spec fn pow10(n: nat) -> nat
    decreases n,
{
    if n == 0 {
        1
    } else {
        10 * pow10((n - 1) as nat)
    }
}

/// Splits `s` into its digit groups and separators; see [`digit_groups`] and [`separators`].
pub fn split_digit_groups(s: &Vec<char>) -> (r: (Vec<DigitGroup>, Vec<char>))
    ensures
        r.0@.len() == digit_groups(s@).len(),
        forall|k: int| 0 <= k < r.0@.len() ==> (#[trigger] r.0@[k]).describes(digit_groups(s@)[k]),
        r.1@ == separators(s@),
{
    let mut groups: Vec<DigitGroup> = Vec::new();
    groups.push(DigitGroup { len: 0, value: 0 });
    let mut seps: Vec<char> = Vec::new();
    let mut i: usize = 0;
    assert(s@.take(0) =~= Seq::<char>::empty());
    while i < s.len()
        invariant
            i <= s.len(),
            groups@.len() == digit_groups(s@.take(i as int)).len(),
            forall|k: int|
                0 <= k < groups@.len() ==> (#[trigger] groups@[k]).describes(
                    digit_groups(s@.take(i as int))[k],
                ),
            seps@ == separators(s@.take(i as int)),
        decreases s.len() - i,
    {
        let c = s[i];
        let ghost prev = s@.take(i as int);
        assert(s@.take(i + 1).drop_last() =~= prev);
        assert(s@.take(i + 1).last() == c);
        proof {
            lemma_digit_groups_shape(prev);
            lemma_digit_groups_shape(s@.take(i + 1));
        }
        if '0' <= c && c <= '9' {
            let last = groups.len() - 1;
            let g = groups[last];
            let d = (c as u64) - ('0' as u64);
            let ghost old_run = digit_groups(prev)[last as int];
            proof {
                lemma_decimal_value_bound(old_run);
            }
            let value = if g.len < 9 {
                assert(pow10(g.len as nat) <= 100_000_000) by {
                    reveal_with_fuel(pow10, 10);
                }
                g.value * 10 + d
            } else {
                g.value
            };
            let len = if g.len < usize::MAX { g.len + 1 } else { g.len };
            assert(g.len < usize::MAX) by {
                lemma_digit_groups_len_bound(prev, last as int);
            }
            groups.set(last, DigitGroup { len, value });
            proof {
                let new_run = old_run.push(c);
                assert(new_run.drop_last() =~= old_run);
            }
        } else {
            groups.push(DigitGroup { len: 0, value: 0 });
            seps.push(c);
        }
        i = i + 1;
    }
    assert(s@.take(s.len() as int) =~= s@);
    (groups, seps)
}

/// A digit group of `s` is never longer than `s` itself.
proof fn lemma_digit_groups_len_bound(s: Seq<char>, k: int)
    requires
        0 <= k < digit_groups(s).len(),
    ensures
        digit_groups(s)[k].len() <= s.len(),
    decreases s.len(),
{
    if s.len() > 0 {
        let g = digit_groups(s.drop_last());
        lemma_digit_groups_shape(s.drop_last());
        if k < g.len() {
            lemma_digit_groups_len_bound(s.drop_last(), k);
        }
    }
}


/// The character of a decimal digit value below ten.
pub open spec fn digit_char(d: nat) -> char {
    (('0' as nat) + d) as char
}

/// Shortest decimal text of `n`, as `u32`'s `Display` writes it, e.g. `"2023"`.
pub open spec fn decimal_text(n: nat) -> Seq<char>
    decreases n,
{
    if n < 10 {
        seq![digit_char(n)]
    } else {
        decimal_text(n / 10).push(digit_char(n % 10))
    }
}

/// The decimal text of a number is made of digits only.
pub proof fn lemma_decimal_text_digits(n: nat)
    ensures
        all_digits(decimal_text(n)),
    decreases n,
{
    if n >= 10 {
        lemma_decimal_text_digits(n / 10);
        let t = decimal_text(n / 10);
        assert forall|i: int| 0 <= i < t.push(digit_char(n % 10)).len() implies is_digit(
            #[trigger] t.push(digit_char(n % 10))[i],
        ) by {
            if i < t.len() {
                assert(t.push(digit_char(n % 10))[i] == t[i]);
            }
        }
    }
}

/// What `str::parse::<u32>` gives back for `s`: an optional `'+'` sign followed by at least one
/// ASCII digit, with a value that fits in `u32`.
pub open spec fn u32_text_value(s: Seq<char>) -> Option<u32> {
    let digits = if s.len() > 0 && s[0] == '+' {
        s.skip(1)
    } else {
        s
    };
    if digits.len() > 0 && all_digits(digits) && decimal_value(digits) <= u32::MAX {
        Some(decimal_value(digits) as u32)
    } else {
        None
    }
}

/// `String::push`: appends one character at the end of `s`.
#[verifier::external_body]
pub(crate) fn push_char(s: &mut String, c: char)
    ensures
        final(s)@ == old(s)@.push(c),
{
    s.push(c)
}

/// Builds the decimal text of `n`; the same text as `n.to_string()`.
pub fn u32_to_text(n: u32) -> (r: String)
    ensures
        r@ == decimal_text(n as nat),
    decreases n,
{
    if n < 10 {
        let mut s = String::new();
        push_char(&mut s, ('0' as u8 + n as u8) as char);
        assert(s@ =~= decimal_text(n as nat));
        s
    } else {
        let mut s = u32_to_text(n / 10);
        push_char(&mut s, ('0' as u8 + (n % 10) as u8) as char);
        s
    }
}

/// A longer run of digits is worth at least as much as any of its prefixes.
pub proof fn lemma_decimal_value_prefix(s: Seq<char>, k: int)
    requires
        0 <= k <= s.len(),
        all_digits(s),
    ensures
        decimal_value(s.take(k)) <= decimal_value(s),
    decreases s.len(),
{
    if k < s.len() {
        assert(s.drop_last().take(k) =~= s.take(k));
        lemma_decimal_value_prefix(s.drop_last(), k);
    } else {
        assert(s.take(k) =~= s);
    }
}

/// Parses `s` as `str::parse::<u32>` does, giving `None` where it gives an error.
pub fn parse_u32(s: &str) -> (r: Option<u32>)
    ensures
        r == u32_text_value(s@),
{
    let cs = chars_of(s);
    let n = cs.len();
    let start: usize = if n > 0 && cs[0] == '+' { 1 } else { 0 };
    let ghost digits = if s@.len() > 0 && s@[0] == '+' { s@.skip(1) } else { s@ };
    assert(digits =~= cs@.skip(start as int));
    if start >= n {
        return None;
    }
    let mut value: u64 = 0;
    let mut i: usize = start;
    assert(digits.take(0) =~= Seq::<char>::empty());
    while i < n
        invariant
            start <= i <= n,
            n == cs@.len(),
            cs@ == s@,
            digits =~= cs@.skip(start as int),
            digits == (if s@.len() > 0 && s@[0] == '+' { s@.skip(1) } else { s@ }),
            value <= u32::MAX,
            value == decimal_value(digits.take(i - start)),
            all_digits(digits.take(i - start)),
        decreases n - i,
    {
        let c = cs[i];
        let ghost pre = digits.take(i - start);
        assert(digits.take(i - start + 1).drop_last() =~= pre);
        assert(digits.take(i - start + 1).last() == c);
        if !('0' <= c && c <= '9') {
            assert(!is_digit(digits[i - start]));
            assert(!all_digits(digits));
            return None;
        }
        value = value * 10 + (c as u64 - '0' as u64);
        assert(value == decimal_value(digits.take(i - start + 1)));
        assert(all_digits(digits.take(i - start + 1))) by {
            assert forall|j: int| 0 <= j < i - start + 1 implies is_digit(
                #[trigger] digits.take(i - start + 1)[j],
            ) by {
                if j < i - start {
                    assert(digits.take(i - start + 1)[j] == pre[j]);
                }
            }
        }
        if value > 0xffff_ffff {
            proof {
                if all_digits(digits) {
                    lemma_decimal_value_prefix(digits, i - start + 1);
                    assert(decimal_value(digits) > u32::MAX);
                }
            }
            return None;
        }
        i = i + 1;
    }
    assert(digits.take(n - start) =~= digits);
    Some(value as u32)
}


/// Value of a run of at most nine ASCII digits.
pub fn decimal_of_digits(cs: &Vec<char>) -> (r: u64)
    requires
        cs@.len() <= 9,
        all_digits(cs@),
    ensures
        r == decimal_value(cs@),
{
    let mut value: u64 = 0;
    let mut i: usize = 0;
    assert(cs@.take(0) =~= Seq::<char>::empty());
    while i < cs.len()
        invariant
            i <= cs@.len() <= 9,
            all_digits(cs@),
            value == decimal_value(cs@.take(i as int)),
        decreases cs.len() - i,
    {
        proof {
            lemma_decimal_value_bound(cs@.take(i as int));
            assert(pow10(i as nat) <= 100_000_000) by {
                reveal_with_fuel(pow10, 10);
            }
            assert(cs@.take(i + 1).drop_last() =~= cs@.take(i as int));
            assert(is_digit(cs@[i as int]));
        }
        value = value * 10 + (cs[i] as u64 - '0' as u64);
        i = i + 1;
    }
    assert(cs@.take(cs.len() as int) =~= cs@);
    value
}

} // verus!
