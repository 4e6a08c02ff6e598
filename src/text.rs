//! Decimal text: writing and reading unsigned integers, and durations.
use vstd::prelude::*;
use vstd::string::{StrSliceExecFns, StringExecFns};

verus! {

/// The character of a decimal digit.
pub open spec fn digit_char(d: int) -> char {
    if d == 0 {
        '0'
    } else if d == 1 {
        '1'
    } else if d == 2 {
        '2'
    } else if d == 3 {
        '3'
    } else if d == 4 {
        '4'
    } else if d == 5 {
        '5'
    } else if d == 6 {
        '6'
    } else if d == 7 {
        '7'
    } else if d == 8 {
        '8'
    } else {
        '9'
    }
}

/// The decimal representation of `n`, without leading zeros.
pub open spec fn decimal_digits(n: nat) -> Seq<char>
    decreases n,
{
    if n < 10 {
        seq![digit_char(n as int)]
    } else {
        decimal_digits(n / 10) + seq![digit_char((n % 10) as int)]
    }
}

fn digit_str(d: u128) -> (r: &'static str)
    requires
        d < 10,
    ensures
        r@ == seq![digit_char(d as int)],
{
    proof {
        reveal_strlit("0");
        reveal_strlit("1");
        reveal_strlit("2");
        reveal_strlit("3");
        reveal_strlit("4");
        reveal_strlit("5");
        reveal_strlit("6");
        reveal_strlit("7");
        reveal_strlit("8");
        reveal_strlit("9");
    }
    let r = if d == 0 {
        "0"
    } else if d == 1 {
        "1"
    } else if d == 2 {
        "2"
    } else if d == 3 {
        "3"
    } else if d == 4 {
        "4"
    } else if d == 5 {
        "5"
    } else if d == 6 {
        "6"
    } else if d == 7 {
        "7"
    } else if d == 8 {
        "8"
    } else {
        "9"
    };
    assert(r@ =~= seq![digit_char(d as int)]);
    r
}

/// Appends the decimal representation of `n`.
pub fn push_decimal(s: &mut String, n: u128)
    ensures
        final(s)@ == old(s)@ + decimal_digits(n as nat),
    decreases n,
{
    if n >= 10 {
        push_decimal(s, n / 10);
    }
    s.append(digit_str(n % 10));
    assert(s@ =~= old(s)@ + decimal_digits(n as nat));
}

/// The decimal representation of `n`.
pub fn decimal_string(n: u64) -> (r: String)
    ensures
        r@ == decimal_digits(n as nat),
{
    let mut s = String::new();
    push_decimal(&mut s, n as u128);
    assert(s@ =~= decimal_digits(n as nat));
    s
}

/// Appends a piece of text.
pub fn append_literal(s: &mut String, lit: &str)
    ensures
        final(s)@ == old(s)@ + lit@,
{
    s.append(lit);
}

/// `n` in decimal, padded with leading zeros to at least `width` digits.
pub open spec fn zero_padded(n: nat, width: nat) -> Seq<char> {
    let d = decimal_digits(n);
    if d.len() < width {
        Seq::new((width - d.len()) as nat, |i: int| '0') + d
    } else {
        d
    }
}

/// The number of digits of `n` in decimal.
pub fn digit_count(n: u128) -> (r: usize)
    ensures
        r == decimal_digits(n as nat).len(),
    decreases n,
{
    if n >= 10 {
        let k = digit_count(n / 10);
        assert(k < 40) by {
            lemma_digit_count_bound(n as nat);
        }
        k + 1
    } else {
        1
    }
}

proof fn lemma_digit_count_bound(n: nat)
    requires
        n <= u128::MAX,
    ensures
        decimal_digits(n).len() <= 39,
    decreases n,
{
    if n >= 10 {
        lemma_digit_count_bound_at(n / 10, 38);
    }
}

proof fn lemma_digit_count_bound_at(n: nat, k: nat)
    requires
        n <= u128::MAX / 10,
        k == 38,
    ensures
        decimal_digits(n).len() <= k,
{
    reveal_with_fuel(pow10, 39);
    assert(pow10(38) == 100_000_000_000_000_000_000_000_000_000_000_000_000);
    lemma_digits_len_le(n, 38);
}

/// A number below `10^k` has at most `k` digits.
proof fn lemma_digits_len_le(n: nat, k: nat)
    requires
        k >= 1,
        n < pow10(k),
    ensures
        decimal_digits(n).len() <= k,
    decreases k,
{
    if n >= 10 {
        assert(k >= 2) by {
            if k == 1 {
                assert(pow10(1) == 10 * pow10(0));
            }
        }
        assert(n / 10 < pow10((k - 1) as nat)) by {
            assert(pow10(k) == 10 * pow10((k - 1) as nat));
        }
        lemma_digits_len_le(n / 10, (k - 1) as nat);
    }
}

/// Ten to the power `k`.
pub open spec fn pow10(k: nat) -> nat
    decreases k,
{
    if k == 0 {
        1
    } else {
        10 * pow10((k - 1) as nat)
    }
}

/// Appends `n` in decimal, padded with leading zeros to `width` digits.
pub fn push_zero_padded(s: &mut String, n: u128, width: usize)
    ensures
        final(s)@ == old(s)@ + zero_padded(n as nat, width as nat),
{
    let d = digit_count(n);
    let ghost start = s@;
    if d < width {
        let mut k: usize = 0;
        while k < width - d
            invariant
                d < width,
                k <= width - d,
                s@ == start + Seq::new(k as nat, |i: int| '0'),
            decreases width - d - k,
        {
            append_literal(s, "0");
            proof { reveal_strlit("0"); }
            k += 1;
            assert(s@ =~= start + Seq::new(k as nat, |i: int| '0'));
        }
    }
    push_decimal(s, n);
    assert(s@ =~= start + zero_padded(n as nat, width as nat));
}

/// A fixed-point number with `places` decimal places, from its magnitude
/// counted in units of `scale == 10^places`.
pub open spec fn fixed_point_text(mag: nat, scale: nat, places: nat) -> Seq<char> {
    decimal_digits(mag / scale) + "."@ + zero_padded(mag % scale, places)
}

/// Appends a fixed-point number given by its magnitude in units of `scale`.
pub fn push_fixed_point(s: &mut String, mag: u128, scale: u128, places: usize)
    requires
        scale > 0,
    ensures
        final(s)@ == old(s)@ + fixed_point_text(mag as nat, scale as nat, places as nat),
{
    let ghost start = s@;
    push_decimal(s, mag / scale);
    append_literal(s, ".");
    push_zero_padded(s, mag % scale, places);
    assert(s@ =~= start + fixed_point_text(mag as nat, scale as nat, places as nat));
}

/// A duration written as hours, minutes and seconds.
pub open spec fn hours_text(seconds: nat) -> Seq<char> {
    let h = seconds / 3600;
    let m = (seconds % 3600) / 60;
    let sec = seconds % 60;
    if h > 0 {
        decimal_digits(h) + "h-"@ + decimal_digits(m) + "m-"@ + decimal_digits(sec) + "s"@
    } else if m > 0 {
        decimal_digits(m) + "m-"@ + decimal_digits(sec) + "s"@
    } else {
        decimal_digits(sec) + "s"@
    }
}

/// A number of seconds written as `{h}h-{m}m-{s}s`, leaving out leading
/// units that are zero.
pub fn convert_to_hours(seconds: u64) -> (r: String)
    ensures
        r@ == hours_text(seconds as nat),
{
    let hours = seconds / 3600;
    let minutes = (seconds - 3600 * hours) / 60;
    let seconds_unit = seconds - 3600 * hours - 60 * minutes;
    assert(minutes == (seconds % 3600) / 60 && seconds_unit == seconds % 60) by (nonlinear_arith)
        requires
            hours == seconds / 3600,
            minutes == (seconds - 3600 * hours) / 60,
            seconds_unit == seconds - 3600 * hours - 60 * minutes,
    ;
    let mut s = String::new();
    if hours > 0 {
        push_decimal(&mut s, hours as u128);
        append_literal(&mut s, "h-");
        push_decimal(&mut s, minutes as u128);
        append_literal(&mut s, "m-");
    } else if minutes > 0 {
        push_decimal(&mut s, minutes as u128);
        append_literal(&mut s, "m-");
    }
    push_decimal(&mut s, seconds_unit as u128);
    append_literal(&mut s, "s");
    assert(s@ =~= hours_text(seconds as nat));
    s
}

/// A decimal digit character.
pub open spec fn is_digit(c: char) -> bool {
    '0' <= c <= '9'
}

/// Every character is a decimal digit.
pub open spec fn all_digits(s: Seq<char>) -> bool {
    forall|i: int| 0 <= i < s.len() ==> is_digit(#[trigger] s[i])
}

/// The number that a string of decimal digits denotes.
pub open spec fn digits_value(s: Seq<char>) -> nat
    decreases s.len(),
{
    if s.len() == 0 {
        0
    } else {
        digits_value(s.drop_last()) * 10 + ((s.last() as u32) - ('0' as u32)) as nat
    }
}

/// The digits of an unsigned number's text, after an optional `+`.
pub open spec fn unsigned_digits(s: Seq<char>) -> Seq<char> {
    if s.len() > 0 && s[0] == '+' {
        s.drop_first()
    } else {
        s
    }
}

/// What reading an unsigned 64-bit number gives: an optional `+`, then one
/// or more decimal digits whose value fits.
pub open spec fn parse_u64_spec(s: Seq<char>) -> Option<u64> {
    let d = unsigned_digits(s);
    if d.len() > 0 && all_digits(d) && digits_value(d) <= u64::MAX {
        Some(digits_value(d) as u64)
    } else {
        None
    }
}

/// The value of a prefix of digits is at most the value of the whole.
pub proof fn lemma_digits_prefix_le(d: Seq<char>, k: int)
    requires
        all_digits(d),
        0 <= k <= d.len(),
    ensures
        digits_value(d.subrange(0, k)) <= digits_value(d),
    decreases d.len() - k,
{
    if k < d.len() {
        lemma_digits_prefix_le(d, k + 1);
        assert(d.subrange(0, k + 1).drop_last() =~= d.subrange(0, k));
        assert(is_digit(d[k]));
    } else {
        assert(d.subrange(0, k) =~= d);
    }
}

/// Reads an unsigned 64-bit number written in decimal.
pub fn parse_u64(s: &str) -> (r: Option<u64>)
    ensures
        r == parse_u64_spec(s@),
{
    let n = s.unicode_len();
    let mut start: usize = 0;
    if n > 0 && s.get_char(0) == '+' {
        start = 1;
    }
    let ghost d = unsigned_digits(s@);
    assert(d =~= s@.subrange(start as int, n as int));
    if start >= n {
        return None;
    }
    let mut v: u64 = 0;
    let mut i: usize = start;
    while i < n
        invariant
            n == s@.len(),
            start <= i <= n,
            d == s@.subrange(start as int, n as int),
            d == unsigned_digits(s@),
            all_digits(d.subrange(0, i - start)),
            v == digits_value(d.subrange(0, i - start)),
        decreases n - i,
    {
        let c = s.get_char(i);
        if !('0' <= c && c <= '9') {
            assert(!is_digit(d[i - start]));
            assert(!all_digits(d));
            return None;
        }
        let digit: u64 = (c as u32 - '0' as u32) as u64;
        let ghost next = d.subrange(0, i - start + 1);
        assert(next.drop_last() =~= d.subrange(0, i - start));
        assert(all_digits(next));
        assert(next.last() == c);
        assert(digits_value(next) == v * 10 + digit);
        match v.checked_mul(10) {
            Some(t) => match t.checked_add(digit) {
                Some(nv) => {
                    v = nv;
                },
                None => {
                    proof {
                        if all_digits(d) {
                            lemma_digits_prefix_le(d, i - start + 1);
                        }
                    }
                    return None;
                },
            },
            None => {
                proof {
                    if all_digits(d) {
                        lemma_digits_prefix_le(d, i - start + 1);
                    }
                }
                return None;
            },
        }
        i += 1;
    }
    assert(d.subrange(0, n - start) =~= d);
    Some(v)
}

/// Position of the first line feed at or after `from`, or the length.
pub open spec fn line_end(s: Seq<char>, from: int) -> int
    decreases s.len() - from,
{
    if from >= s.len() {
        s.len() as int
    } else if s[from] == '\n' {
        from
    } else {
        line_end(s, from + 1)
    }
}

/// A line without its trailing carriage return, if it has one.
pub open spec fn strip_cr(l: Seq<char>) -> Seq<char> {
    if l.len() > 0 && l.last() == '\r' {
        l.drop_last()
    } else {
        l
    }
}

/// The lines of `s` from position `from` on.
pub open spec fn lines_from(s: Seq<char>, from: int) -> Seq<Seq<char>>
    decreases s.len() - from,
{
    if from < 0 || from >= s.len() {
        seq![]
    } else {
        let e = line_end(s, from);
        if e < from || e >= s.len() {
            seq![s.subrange(from, s.len() as int)]
        } else {
            seq![strip_cr(s.subrange(from, e))] + lines_from(s, e + 1)
        }
    }
}

/// The lines of a text: split at line feeds, a line ended by a line feed
/// without the carriage return before it, with no empty line after a final
/// line feed.
pub open spec fn lines_of(s: Seq<char>) -> Seq<Seq<char>> {
    lines_from(s, 0)
}

proof fn lemma_line_end_bounds(s: Seq<char>, from: int)
    requires
        0 <= from,
    ensures
        from <= s.len() ==> from <= line_end(s, from) <= s.len(),
    decreases s.len() - from,
{
    if from < s.len() && s[from] != '\n' {
        lemma_line_end_bounds(s, from + 1);
    }
}

/// Splits a text into its lines.
pub fn split_lines(text: &str) -> (r: Vec<String>)
    ensures
        r.deep_view() == lines_of(text@),
{
    let ghost s = text@;
    let n = text.unicode_len();
    let mut out: Vec<String> = Vec::new();
    let mut start: usize = 0;
    while start < n
        invariant
            s == text@,
            n == s.len(),
            start <= n,
            out.deep_view() + lines_from(s, start as int) == lines_of(s),
        decreases n - start,
    {
        let mut e: usize = start;
        while e < n && text.get_char(e) != '\n'
            invariant
                s == text@,
                n == s.len(),
                start <= e <= n,
                line_end(s, start as int) == line_end(s, e as int),
            decreases n - e,
        {
            e += 1;
        }
        proof { lemma_line_end_bounds(s, start as int); }
        assert(line_end(s, e as int) == e);
        let mut stop: usize = e;
        if e < n && stop > start && text.get_char(stop - 1) == '\r' {
            stop = stop - 1;
        }
        let line = text.substring_char(start, stop).to_owned();
        assert(e < n ==> line@ == strip_cr(s.subrange(start as int, e as int))) by {
            if e < n && e > start && s[e - 1] == '\r' {
                assert(s.subrange(start as int, e as int).drop_last() =~= s.subrange(
                    start as int,
                    stop as int,
                ));
            }
        }
        let ghost old_out = out.deep_view();
        out.push(line);
        assert(out.deep_view() =~= old_out.push(line@));
        assert(e == n ==> line@ == s.subrange(start as int, n as int));
        let next: usize = if e < n { e + 1 } else { n };
        assert(lines_from(s, start as int) == seq![line@] + lines_from(s, next as int));
        assert(out.deep_view() + lines_from(s, next as int) =~= old_out + lines_from(
            s,
            start as int,
        ));
        start = next;
    }
    assert(lines_from(s, start as int) =~= Seq::<Seq<char>>::empty());
    assert(out.deep_view() =~= lines_of(s));
    out
}

} // verus!
