use vstd::prelude::*;

use crate::text::{from_chars, to_chars};

verus! {

// ---------------------------------------------------------------------------
// Decimal digits
// ---------------------------------------------------------------------------

/// Whether `c` is one of the ASCII digits `0`-`9`.
pub open spec fn is_digit(c: char) -> bool {
    '0' <= c <= '9'
}

/// The value of an ASCII digit.
pub open spec fn digit_value(c: char) -> nat {
    ((c as u32) - ('0' as u32)) as nat
}

/// The ASCII digit for a value below ten.
pub open spec fn digit_char(d: nat) -> char {
    ((d + ('0' as u32)) as u32) as char
}

/// Whether every character of `s` is an ASCII digit.
pub open spec fn all_digits(s: Seq<char>) -> bool {
    forall|i: int| 0 <= i < s.len() ==> is_digit(#[trigger] s[i])
}

/// The value of a string of ASCII digits, most significant first.
pub open spec fn decimal_value(s: Seq<char>) -> nat
    decreases s.len(),
{
    if s.len() == 0 {
        0
    } else {
        decimal_value(s.drop_last()) * 10 + digit_value(s.last())
    }
}

/// The digits of an unsigned integer as `to_string` writes it.
pub open spec fn decimal_digits(n: nat) -> Seq<char>
    decreases n,
{
    if n < 10 {
        seq![digit_char(n)]
    } else {
        decimal_digits(n / 10).push(digit_char(n % 10))
    }
}

/// The text after one optional leading `+`.
pub open spec fn unsigned_digits(s: Seq<char>) -> Seq<char> {
    if s.len() > 0 && s[0] == '+' {
        s.subrange(1, s.len() as int)
    } else {
        s
    }
}

/// What `str::parse` gives for an unsigned integer type whose largest value is `max`:
/// an optional single leading `+`, then one or more ASCII digits whose value is at
/// most `max`; anything else is refused.
pub open spec fn parse_unsigned(s: Seq<char>, max: nat) -> Option<nat> {
    let digits = unsigned_digits(s);
    if digits.len() > 0 && all_digits(digits) && decimal_value(digits) <= max {
        Some(decimal_value(digits))
    } else {
        None
    }
}

/// Appending a digit multiplies the value by ten and adds the digit.
pub proof fn lemma_decimal_value_push(s: Seq<char>, c: char)
    ensures
        decimal_value(s.push(c)) == decimal_value(s) * 10 + digit_value(c),
{
    assert(s.push(c).drop_last() =~= s);
}

/// Appending digits never makes the value smaller.
pub proof fn lemma_decimal_value_bound(s: Seq<char>, t: Seq<char>)
    requires
        all_digits(s + t),
    ensures
        decimal_value(s + t) >= decimal_value(s),
    decreases t.len(),
{
    if t.len() > 0 {
        assert((s + t).drop_last() =~= s + t.drop_last());
        assert(all_digits(s + t.drop_last())) by {
            assert forall|i: int| 0 <= i < (s + t.drop_last()).len() implies is_digit(
                #[trigger] (s + t.drop_last())[i],
            ) by {
                assert((s + t.drop_last())[i] == (s + t)[i]);
            }
        }
        lemma_decimal_value_bound(s, t.drop_last());
    } else {
        assert(s + t =~= s);
    }
}

/// Parses ASCII digits (after an optional leading `+`) as a `u64`, the way
/// `str::parse::<u64>` does.
pub fn parse_u64_chars(s: &Vec<char>) -> (r: Option<u64>)
    ensures
        r matches Some(v) ==> parse_unsigned(s@, u64::MAX as nat) == Some(v as nat),
        r is None ==> parse_unsigned(s@, u64::MAX as nat) is None,
{
    let start: usize = if s.len() > 0 && s[0] == '+' {
        1
    } else {
        0
    };
    let ghost digits = unsigned_digits(s@);
    assert(digits =~= s@.subrange(start as int, s.len() as int));
    if start >= s.len() {
        return None;
    }
    let mut v: u64 = 0;
    let mut i: usize = start;
    assert(s@.subrange(start as int, start as int) =~= Seq::<char>::empty());
    while i < s.len()
        invariant
            start <= i <= s.len(),
            digits == s@.subrange(start as int, s.len() as int),
            digits == unsigned_digits(s@),
            all_digits(s@.subrange(start as int, i as int)),
            v as nat == decimal_value(s@.subrange(start as int, i as int)),
        decreases s.len() - i,
    {
        let c = s[i];
        if !('0' <= c && c <= '9') {
            assert(digits[i - start] == c);
            assert(!is_digit(digits[i - start]));
            return None;
        }
        let d = (c as u32 - '0' as u32) as u64;
        proof {
            lemma_decimal_value_push(s@.subrange(start as int, i as int), c);
            assert(s@.subrange(start as int, i + 1) =~= s@.subrange(start as int, i as int).push(
                c,
            ));
        }
        let ghost prefix = s@.subrange(start as int, i + 1);
        if v > (u64::MAX - d) / 10 {
            proof {
                assert(v * 10 + d > u64::MAX) by (nonlinear_arith)
                    requires
                        v > (u64::MAX - d) / 10,
                        d <= 9,
                ;
                if all_digits(digits) {
                    assert(digits =~= prefix + digits.subrange(i + 1 - start, digits.len() as int));
                    lemma_decimal_value_bound(prefix, digits.subrange(i + 1 - start, digits.len() as int));
                }
            }
            return None;
        }
        v = v * 10 + d;
        i = i + 1;
        assert(all_digits(s@.subrange(start as int, i as int))) by {
            assert forall|j: int| 0 <= j < i - start implies is_digit(
                #[trigger] s@.subrange(start as int, i as int)[j],
            ) by {
                if j < i - 1 - start {
                    assert(s@.subrange(start as int, i as int)[j] == s@.subrange(
                        start as int,
                        i - 1,
                    )[j]);
                }
            }
        }
    }
    Some(v)
}

} // verus!

verus! {

/// Parses text as a `u32` the way `str::parse::<u32>` does.
pub fn parse_u32_chars(s: &Vec<char>) -> (r: Option<u32>)
    ensures
        r matches Some(v) ==> parse_unsigned(s@, u32::MAX as nat) == Some(v as nat),
        r is None ==> parse_unsigned(s@, u32::MAX as nat) is None,
{
    match parse_u64_chars(s) {
        Some(v) => if v <= u32::MAX as u64 {
            Some(v as u32)
        } else {
            None
        },
        None => None,
    }
}

/// Parses text as a `u16` the way `str::parse::<u16>` does.
pub fn parse_u16_chars(s: &Vec<char>) -> (r: Option<u16>)
    ensures
        r matches Some(v) ==> parse_unsigned(s@, u16::MAX as nat) == Some(v as nat),
        r is None ==> parse_unsigned(s@, u16::MAX as nat) is None,
{
    match parse_u64_chars(s) {
        Some(v) => if v <= u16::MAX as u64 {
            Some(v as u16)
        } else {
            None
        },
        None => None,
    }
}

/// Parses text as a `u8` the way `str::parse::<u8>` does.
pub fn parse_u8_chars(s: &Vec<char>) -> (r: Option<u8>)
    ensures
        r matches Some(v) ==> parse_unsigned(s@, u8::MAX as nat) == Some(v as nat),
        r is None ==> parse_unsigned(s@, u8::MAX as nat) is None,
{
    match parse_u64_chars(s) {
        Some(v) => if v <= u8::MAX as u64 {
            Some(v as u8)
        } else {
            None
        },
        None => None,
    }
}

/// Parses text as a `usize` the way `str::parse::<usize>` does.
pub fn parse_usize_chars(s: &Vec<char>) -> (r: Option<usize>)
    ensures
        r matches Some(v) ==> parse_unsigned(s@, usize::MAX as nat) == Some(v as nat),
        r is None ==> parse_unsigned(s@, usize::MAX as nat) is None,
{
    match parse_u64_chars(s) {
        Some(v) => if v as u128 <= usize::MAX as u128 {
            Some(v as usize)
        } else {
            None
        },
        None => {
            proof {
                assert(usize::MAX as nat <= u64::MAX as nat);
            }
            None
        },
    }
}

/// The ASCII digit for `d`.
fn digit_exec(d: u64) -> (c: char)
    requires
        d < 10,
    ensures
        c == digit_char(d as nat),
        digit_value(c) == d,
        is_digit(c),
{
    let b: u8 = (d as u8) + 48;
    let c = b as char;
    assert(c as u32 == d + 48);
    c
}

/// The decimal digits of `n`, as `to_string` writes them.
pub fn decimal_chars(n: u64) -> (r: Vec<char>)
    ensures
        r@ == decimal_digits(n as nat),
    decreases n,
{
    if n < 10 {
        let mut v: Vec<char> = Vec::new();
        v.push(digit_exec(n));
        assert(v@ =~= seq![digit_char(n as nat)]);
        v
    } else {
        let mut v = decimal_chars(n / 10);
        v.push(digit_exec(n % 10));
        v
    }
}

/// `n` written in decimal, as `to_string` writes it.
pub fn u64_to_string(n: u64) -> (r: String)
    ensures
        r@ == decimal_digits(n as nat),
{
    let v = decimal_chars(n);
    from_chars(&v)
}

/// The digit written for a value below ten reads back as that value.
pub proof fn lemma_digit_roundtrip(d: nat)
    requires
        d < 10,
    ensures
        digit_value(digit_char(d)) == d,
        is_digit(digit_char(d)),
{
}

/// The digits that `to_string` writes for `n` are ASCII digits, at least one, not
/// starting with `+`, and their value is `n`.
pub proof fn lemma_decimal_digits(n: nat)
    ensures
        decimal_digits(n).len() > 0,
        all_digits(decimal_digits(n)),
        decimal_value(decimal_digits(n)) == n,
        decimal_digits(n)[0] != '+',
    decreases n,
{
    if n < 10 {
        lemma_digit_roundtrip(n);
        assert(seq![digit_char(n)].drop_last() =~= Seq::<char>::empty());
        assert(decimal_value(Seq::<char>::empty()) == 0);
        assert(decimal_value(seq![digit_char(n)]) == n);
    } else {
        lemma_decimal_digits(n / 10);
        lemma_digit_roundtrip(n % 10);
        lemma_decimal_value_push(decimal_digits(n / 10), digit_char(n % 10));
        assert((n / 10) * 10 + n % 10 == n);
        let d = decimal_digits(n);
        assert forall|i: int| 0 <= i < d.len() implies is_digit(#[trigger] d[i]) by {
            if i < d.len() - 1 {
                assert(d[i] == decimal_digits(n / 10)[i]);
            }
        }
    }
}

/// Parsing what `to_string` wrote gives the number back, for every type wide enough to
/// hold it.
pub proof fn lemma_parse_to_string_roundtrip(n: nat, max: nat)
    requires
        n <= max,
    ensures
        parse_unsigned(decimal_digits(n), max) == Some(n),
{
    lemma_decimal_digits(n);
}

/// `n` (below 100) written with at least two digits, as `{:02}` writes it.
pub open spec fn two_digits(n: nat) -> Seq<char> {
    if n < 10 {
        seq!['0'] + decimal_digits(n)
    } else {
        decimal_digits(n)
    }
}

/// `n` written with at least two digits.
pub fn two_digit_chars(n: u64) -> (r: Vec<char>)
    ensures
        r@ == two_digits(n as nat),
{
    let mut d = decimal_chars(n);
    if n < 10 {
        let mut v: Vec<char> = Vec::new();
        v.push('0');
        v.append(&mut d);
        v
    } else {
        d
    }
}

// ---------------------------------------------------------------------------
// Durations
// ---------------------------------------------------------------------------

/// An uptime written as `Dd HHh MMm SSs`, the day part only when there is at least one
/// day.
pub open spec fn host_duration_text(seconds: nat) -> Seq<char> {
    let days = seconds / 86400;
    let hours = (seconds % 86400) / 3600;
    let minutes = (seconds % 3600) / 60;
    let secs = seconds % 60;
    let clock = two_digits(hours) + "h "@ + two_digits(minutes) + "m "@ + two_digits(secs)
        + "s"@;
    if days > 0 {
        decimal_digits(days) + "d "@ + clock
    } else {
        clock
    }
}

/// An uptime in seconds written as `Dd HHh MMm SSs` (the day part only when non-zero).
pub fn format_host_duration(seconds: u64) -> (r: String)
    ensures
        r@ == host_duration_text(seconds as nat),
{
    let days = seconds / 86_400;
    let hours = (seconds % 86_400) / 3_600;
    let minutes = (seconds % 3_600) / 60;
    let secs = seconds % 60;
    let mut out: Vec<char> = Vec::new();
    if days > 0 {
        let mut d = decimal_chars(days);
        out.append(&mut d);
        let mut sep = to_chars("d ");
        out.append(&mut sep);
    }
    let mut h = two_digit_chars(hours);
    out.append(&mut h);
    let mut hs = to_chars("h ");
    out.append(&mut hs);
    let mut m = two_digit_chars(minutes);
    out.append(&mut m);
    let mut ms = to_chars("m ");
    out.append(&mut ms);
    let mut s = two_digit_chars(secs);
    out.append(&mut s);
    let mut ss = to_chars("s");
    out.append(&mut ss);
    proof {
        let clock = two_digits(hours as nat) + "h "@ + two_digits(minutes as nat) + "m "@
            + two_digits(secs as nat) + "s"@;
        if days > 0 {
            assert(out@ =~= decimal_digits(days as nat) + "d "@ + clock);
        } else {
            assert(out@ =~= clock);
        }
    }
    from_chars(&out)
}

} // verus!

verus! {

/// The number written by the two ASCII digits of `s` at `i` and `i + 1`.
pub open spec fn two_digit_value(s: Seq<char>, i: int) -> nat {
    10 * digit_value(s[i]) + digit_value(s[i + 1])
}

/// Whether `c` reads as a clock `HHh MMm SSs`: eleven characters, digits where the
/// numbers go, and the unit letters and spaces between them.
pub open spec fn is_clock_text(c: Seq<char>) -> bool {
    &&& c.len() == 11
    &&& is_digit(c[0]) && is_digit(c[1]) && c[2] == 'h' && c[3] == ' '
    &&& is_digit(c[4]) && is_digit(c[5]) && c[6] == 'm' && c[7] == ' '
    &&& is_digit(c[8]) && is_digit(c[9]) && c[10] == 's'
}

/// The number of seconds a clock text `HHh MMm SSs` stands for.
pub open spec fn clock_seconds(c: Seq<char>) -> nat {
    3600 * two_digit_value(c, 0) + 60 * two_digit_value(c, 4) + two_digit_value(c, 8)
}

/// A number below 100 written with two digits reads back as that number.
proof fn lemma_two_digits(n: nat)
    requires
        n < 100,
    ensures
        two_digits(n).len() == 2,
        is_digit(two_digits(n)[0]),
        is_digit(two_digits(n)[1]),
        two_digit_value(two_digits(n), 0) == n,
{
    if n < 10 {
        lemma_digit_roundtrip(n);
        assert(digit_value('0') == 0);
    } else {
        lemma_digit_roundtrip(n / 10);
        lemma_digit_roundtrip(n % 10);
        assert(decimal_digits(n / 10) == seq![digit_char(n / 10)]);
    }
}

/// An uptime text reads back as its number of seconds: it ends with a clock
/// `HHh MMm SSs` whose hours are below 24 and minutes and seconds below 60; below a day
/// the clock is the whole text and stands for the seconds; from a day on, the day count
/// and `d ` come first, and days times 86400 plus the clock give the seconds.
pub proof fn lemma_host_duration_reads_back(seconds: nat)
    ensures
        ({
            let t = host_duration_text(seconds);
            let n = t.len() as int;
            let clock = t.subrange(n - 11, n);
            &&& n >= 11
            &&& is_clock_text(clock)
            &&& two_digit_value(clock, 0) < 24
            &&& two_digit_value(clock, 4) < 60
            &&& two_digit_value(clock, 8) < 60
            &&& seconds < 86400 ==> n == 11 && clock_seconds(clock) == seconds
            &&& seconds >= 86400 ==> {
                let days = t.subrange(0, n - 13);
                &&& n > 13
                &&& t.subrange(n - 13, n - 11) == "d "@
                &&& all_digits(days)
                &&& decimal_value(days) * 86400 + clock_seconds(clock) == seconds
            }
        }),
{
    let d = seconds / 86400;
    let h = (seconds % 86400) / 3600;
    let m = (seconds % 3600) / 60;
    let s = seconds % 60;
    assert(seconds == d * 86400 + seconds % 86400) by (nonlinear_arith)
        requires
            d == seconds / 86400,
    ;
    assert(seconds % 86400 == h * 3600 + (seconds % 86400) % 3600) by (nonlinear_arith)
        requires
            h == (seconds % 86400) / 3600,
    ;
    vstd::arithmetic::div_mod::lemma_mod_mod(seconds as int, 3600, 24);
    assert(seconds % 3600 == m * 60 + (seconds % 3600) % 60) by (nonlinear_arith)
        requires
            m == (seconds % 3600) / 60,
    ;
    vstd::arithmetic::div_mod::lemma_mod_mod(seconds as int, 60, 60);
    assert(h < 24) by (nonlinear_arith)
        requires
            h == (seconds % 86400) / 3600,
    ;
    assert(m < 60) by (nonlinear_arith)
        requires
            m == (seconds % 3600) / 60,
    ;
    lemma_two_digits(h);
    lemma_two_digits(m);
    lemma_two_digits(s);
    reveal_strlit("h ");
    reveal_strlit("m ");
    reveal_strlit("s");
    reveal_strlit("d ");
    let clock = two_digits(h) + "h "@ + two_digits(m) + "m "@ + two_digits(s) + "s"@;
    assert(clock.len() == 11);
    assert(clock[0] == two_digits(h)[0] && clock[1] == two_digits(h)[1]);
    assert(clock[4] == two_digits(m)[0] && clock[5] == two_digits(m)[1]);
    assert(clock[8] == two_digits(s)[0] && clock[9] == two_digits(s)[1]);
    assert(two_digit_value(clock, 0) == h);
    assert(two_digit_value(clock, 4) == m);
    assert(two_digit_value(clock, 8) == s);
    let t = host_duration_text(seconds);
    if d > 0 {
        lemma_decimal_digits(d);
        let dd = decimal_digits(d);
        assert(t == dd + "d "@ + clock);
        let n = t.len() as int;
        assert(t.subrange(n - 11, n) =~= clock);
        assert(t.subrange(n - 13, n - 11) =~= "d "@);
        assert(t.subrange(0, n - 13) =~= dd);
        assert(seconds >= 86400) by (nonlinear_arith)
            requires
                d == seconds / 86400,
                d > 0,
        ;
    } else {
        assert(t == clock);
        assert(t.subrange(0, 11) =~= clock);
        assert(seconds < 86400) by (nonlinear_arith)
            requires
                d == seconds / 86400,
                d == 0,
        ;
    }
}

} // verus!
