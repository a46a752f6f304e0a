//! Decimal numerals: how numbers are written into supervisor flags and read
//! back from its reports.

use vstd::prelude::*;

verus! {

/// The character that writes the digit `d`.
pub open spec fn digit_char(d: int) -> char
    recommends
        0 <= d < 10,
{
    ((0x30 + d) as u8) as char
}

/// `c` is one of `0` to `9`.
pub open spec fn is_digit(c: char) -> bool {
    0x30 <= (c as u32) <= 0x39
}

/// The number that the digit `c` stands for.
pub open spec fn digit_value(c: char) -> int
    recommends
        is_digit(c),
{
    (c as u32) - 0x30
}

/// `n` written in base ten without leading zeros.
pub open spec fn decimal(n: nat) -> Seq<char>
    decreases n,
{
    if n < 10 {
        seq![digit_char(n as int)]
    } else {
        decimal(n / 10).push(digit_char((n % 10) as int))
    }
}

/// Every character of `s` is a digit.
pub open spec fn all_digits(s: Seq<char>) -> bool {
    forall|i: int| 0 <= i < s.len() ==> is_digit(#[trigger] s[i])
}

/// The number that the digit string `s` writes; 0 for the empty string.
pub open spec fn digits_value(s: Seq<char>) -> nat
    recommends
        all_digits(s),
    decreases s.len(),
{
    if s.len() == 0 {
        0
    } else {
        (digits_value(s.drop_last()) * 10 + digit_value(s.last())) as nat
    }
}

pub proof fn lemma_digit_roundtrip(d: int)
    requires
        0 <= d < 10,
    ensures
        is_digit(digit_char(d)),
        digit_value(digit_char(d)) == d,
{
}

/// A numeral consists of digits only, and reads back as the number it writes.
pub proof fn lemma_decimal_roundtrip(n: nat)
    ensures
        decimal(n).len() > 0,
        all_digits(decimal(n)),
        digits_value(decimal(n)) == n,
    decreases n,
{
    if n < 10 {
        lemma_digit_roundtrip(n as int);
        let s = decimal(n);
        assert(s.drop_last() =~= Seq::<char>::empty());
        assert(digits_value(s.drop_last()) == 0);
    } else {
        lemma_decimal_roundtrip(n / 10);
        lemma_digit_roundtrip((n % 10) as int);
        let s = decimal(n);
        assert(s.drop_last() =~= decimal(n / 10));
        assert(s.last() == digit_char((n % 10) as int));
    }
}

/// Appends the numeral of `n` to `out`.
pub fn push_decimal(out: &mut String, n: u64)
    ensures
        final(out)@ == old(out)@ + decimal(n as nat),
    decreases n,
{
    if n >= 10 {
        push_decimal(out, n / 10);
    }
    let d: u8 = (n % 10) as u8;
    out.push((0x30u8 + d) as char);
    proof {
        if n < 10 {
            assert(old(out)@.push(digit_char(n as int)) =~= old(out)@ + decimal(n as nat));
        } else {
            assert((old(out)@ + decimal((n / 10) as nat)).push(digit_char((n % 10) as int))
                =~= old(out)@ + decimal(n as nat));
        }
    }
}

/// The numeral of `n`.
pub fn decimal_string(n: u64) -> (s: String)
    ensures
        s@ == decimal(n as nat),
{
    let mut s = String::new();
    push_decimal(&mut s, n);
    assert(Seq::<char>::empty() + decimal(n as nat) =~= decimal(n as nat));
    s
}

/// What an unsigned numeral denotes: an optional `+`, then at least one digit
/// and nothing else; `None` where the text is anything else or the number
/// exceeds `max`.
pub open spec fn parse_unsigned(s: Seq<char>, max: nat) -> Option<nat> {
    let digits = if s.len() > 0 && s[0] == '+' {
        s.drop_first()
    } else {
        s
    };
    if digits.len() > 0 && all_digits(digits) && digits_value(digits) <= max {
        Some(digits_value(digits))
    } else {
        None
    }
}

/// What a signed numeral denotes: an optional `+` or `-`, then at least one
/// digit and nothing else; `None` where the text is anything else or the
/// number lies outside `min..=max`.
pub open spec fn parse_signed(s: Seq<char>, min: int, max: int) -> Option<int> {
    let negative = s.len() > 0 && s[0] == '-';
    let digits = if s.len() > 0 && (s[0] == '+' || s[0] == '-') {
        s.drop_first()
    } else {
        s
    };
    let value = if negative {
        -(digits_value(digits) as int)
    } else {
        digits_value(digits) as int
    };
    if digits.len() > 0 && all_digits(digits) && min <= value <= max {
        Some(value)
    } else {
        None
    }
}

/// The value of a digit string never shrinks when digits are appended.
pub proof fn lemma_digits_value_prefix(s: Seq<char>, k: int)
    requires
        0 <= k <= s.len(),
        all_digits(s),
    ensures
        digits_value(s.take(k)) <= digits_value(s),
    decreases s.len() - k,
{
    if k < s.len() {
        let t = s.drop_last();
        assert(all_digits(t)) by {
            assert forall|i: int| 0 <= i < t.len() implies is_digit(#[trigger] t[i]) by {
                assert(t[i] == s[i]);
            }
        }
        assert(is_digit(s.last()));
        if k == t.len() {
            assert(s.take(k) =~= t);
        } else {
            lemma_digits_value_prefix(t, k);
            assert(t.take(k) =~= s.take(k));
        }
    } else {
        assert(s.take(k) =~= s);
    }
}

/// Reads the digit string `v[from..to]`: its value where every character is
/// a digit and the value is at most `max`.
pub fn read_digits(v: &Vec<char>, from: usize, to: usize, max: u64) -> (r: Option<u64>)
    requires
        from <= to <= v.len(),
    ensures
        r == (if all_digits(v@.subrange(from as int, to as int)) && digits_value(
            v@.subrange(from as int, to as int),
        ) <= max {
            Some(digits_value(v@.subrange(from as int, to as int)) as u64)
        } else {
            None
        }),
{
    let ghost s = v@.subrange(from as int, to as int);
    let mut acc: u64 = 0;
    let mut i: usize = from;
    assert(s.take(0) =~= Seq::<char>::empty());
    while i < to
        invariant
            from <= i <= to <= v.len(),
            s == v@.subrange(from as int, to as int),
            all_digits(s.take(i - from)),
            acc == digits_value(s.take(i - from)),
            acc <= max,
        decreases to - i,
    {
        let c: u32 = v[i] as u32;
        let ghost t = s.take(i - from + 1);
        proof {
            assert(t.drop_last() =~= s.take(i - from));
            assert(t.last() == v@[i as int]);
        }
        if c < 0x30 || c > 0x39 {
            proof {
                assert(!is_digit(s[i - from]));
            }
            return None;
        }
        let d: u64 = (c - 0x30) as u64;
        proof {
            assert(all_digits(t)) by {
                assert forall|j: int| 0 <= j < t.len() implies is_digit(#[trigger] t[j]) by {
                    if j < t.len() - 1 {
                        assert(t[j] == s.take(i - from)[j]);
                    }
                }
            }
            assert(digits_value(t) == acc * 10 + d);
        }
        let next: u128 = acc as u128 * 10 + d as u128;
        if next > max as u128 {
            proof {
                if all_digits(s) {
                    lemma_digits_value_prefix(s, i - from + 1);
                }
            }
            return None;
        }
        acc = next as u64;
        i += 1;
    }
    assert(s.take(to - from) =~= s);
    Some(acc)
}


/// Reads `v[from..to]` as an unsigned numeral of at most 64 bits.
pub fn parse_u64(v: &Vec<char>, from: usize, to: usize) -> (r: Option<u64>)
    requires
        from <= to <= v.len(),
    ensures
        r == match parse_unsigned(v@.subrange(from as int, to as int), u64::MAX as nat) {
            Some(n) => Some(n as u64),
            None => None,
        },
{
    let ghost s = v@.subrange(from as int, to as int);
    let start: usize = if from < to && v[from] == '+' {
        from + 1
    } else {
        from
    };
    proof {
        if from < to {
            assert(s[0] == v@[from as int]);
        }
        if start > from {
            assert(s.drop_first() =~= v@.subrange(start as int, to as int));
        }
    }
    if start == to {
        return None;
    }
    read_digits(v, start, to, u64::MAX)
}

/// Reads `v[from..to]` as a signed numeral of at most 32 bits.
pub fn parse_i32(v: &Vec<char>, from: usize, to: usize) -> (r: Option<i32>)
    requires
        from <= to <= v.len(),
    ensures
        r == match parse_signed(
            v@.subrange(from as int, to as int),
            i32::MIN as int,
            i32::MAX as int,
        ) {
            Some(n) => Some(n as i32),
            None => None,
        },
{
    let ghost s = v@.subrange(from as int, to as int);
    let negative: bool = from < to && v[from] == '-';
    let start: usize = if from < to && (v[from] == '+' || v[from] == '-') {
        from + 1
    } else {
        from
    };
    proof {
        if from < to {
            assert(s[0] == v@[from as int]);
        }
        if start > from {
            assert(s.drop_first() =~= v@.subrange(start as int, to as int));
        }
    }
    if start == to {
        return None;
    }
    if negative {
        match read_digits(v, start, to, 0x8000_0000) {
            Some(m) => Some((0 - (m as i64)) as i32),
            None => None,
        }
    } else {
        match read_digits(v, start, to, 0x7fff_ffff) {
            Some(m) => Some(m as i32),
            None => None,
        }
    }
}


/// Whether every character of `v[from..to]` is a digit.
pub fn all_digits_exec(v: &Vec<char>, from: usize, to: usize) -> (b: bool)
    requires
        from <= to <= v.len(),
    ensures
        b == all_digits(v@.subrange(from as int, to as int)),
{
    let ghost s = v@.subrange(from as int, to as int);
    let mut i: usize = from;
    while i < to
        invariant
            from <= i <= to <= v.len(),
            s == v@.subrange(from as int, to as int),
            forall|j: int| 0 <= j < i - from ==> is_digit(#[trigger] s[j]),
        decreases to - i,
    {
        let c: u32 = v[i] as u32;
        if c < 0x30 || c > 0x39 {
            assert(!is_digit(s[i - from]));
            return false;
        }
        i += 1;
    }
    true
}

/// The digit at place `i` of `s`, or 0 past its end.
pub open spec fn digit_at(s: Seq<char>, i: int) -> nat {
    if 0 <= i < s.len() {
        digit_value(s[i]) as nat
    } else {
        0
    }
}

/// Thousandths written by the fraction digits `frac`: its first three
/// digits, any further digit dropped.
pub open spec fn fraction_millis(frac: Seq<char>) -> nat {
    digit_at(frac, 0) * 100 + digit_at(frac, 1) * 10 + digit_at(frac, 2)
}

/// Milliseconds written by the whole part `whole` and the fraction digits
/// `frac` of a decimal number of seconds; `None` unless both are digit
/// strings, not both empty, and the milliseconds fit in 64 bits.
pub open spec fn millis_of(whole: Seq<char>, frac: Seq<char>) -> Option<nat> {
    let value = digits_value(whole) * 1000 + fraction_millis(frac);
    if whole.len() + frac.len() > 0 && all_digits(whole) && all_digits(frac) && value
        <= u64::MAX {
        Some(value)
    } else {
        None
    }
}

/// What a decimal number of seconds denotes, in milliseconds: an optional
/// `+`, digits, and optionally a point followed by digits, with at least one
/// digit in all. Fraction digits past the third are dropped. `None` where
/// the text is anything else or the milliseconds exceed 64 bits.
pub open spec fn parse_millis(s: Seq<char>) -> Option<nat> {
    let body = if s.len() > 0 && s[0] == '+' {
        s.drop_first()
    } else {
        s
    };
    let dot = crate::text::first_index_of(body, '.');
    if dot < body.len() {
        millis_of(body.take(dot), body.skip(dot + 1))
    } else {
        millis_of(body, Seq::<char>::empty())
    }
}

/// `ms` milliseconds written as a decimal number of seconds, without
/// trailing zeros and without a point where the number is whole.
pub open spec fn millis_text(ms: nat) -> Seq<char> {
    let whole = decimal(ms / 1000);
    let r = (ms % 1000) as int;
    if r == 0 {
        whole
    } else if r % 100 == 0 {
        whole + seq!['.', digit_char(r / 100)]
    } else if r % 10 == 0 {
        whole + seq!['.', digit_char(r / 100), digit_char((r / 10) % 10)]
    } else {
        whole + seq!['.', digit_char(r / 100), digit_char((r / 10) % 10), digit_char(r % 10)]
    }
}

/// Thousandths written by the digit string `v[from..to]`.
fn fraction_millis_exec(v: &Vec<char>, from: usize, to: usize) -> (r: u64)
    requires
        from <= to <= v.len(),
        all_digits(v@.subrange(from as int, to as int)),
    ensures
        r == fraction_millis(v@.subrange(from as int, to as int)),
        r < 1000,
{
    let ghost f = v@.subrange(from as int, to as int);
    let n: usize = to - from;
    let d0: u64 = if n > 0 {
        assert(f[0] == v@[from as int] && is_digit(f[0]));
        (v[from] as u32 - 0x30) as u64
    } else {
        0
    };
    let d1: u64 = if n > 1 {
        assert(f[1] == v@[from + 1] && is_digit(f[1]));
        (v[from + 1] as u32 - 0x30) as u64
    } else {
        0
    };
    let d2: u64 = if n > 2 {
        assert(f[2] == v@[from + 2] && is_digit(f[2]));
        (v[from + 2] as u32 - 0x30) as u64
    } else {
        0
    };
    d0 * 100 + d1 * 10 + d2
}

/// Milliseconds written by the whole part `v[from..dot]` and the fraction
/// digits `v[frac_from..to]`.
fn millis_of_exec(v: &Vec<char>, from: usize, dot: usize, frac_from: usize, to: usize) -> (r:
    Option<u64>)
    requires
        from <= dot <= frac_from <= to <= v.len(),
    ensures
        r == match millis_of(
            v@.subrange(from as int, dot as int),
            v@.subrange(frac_from as int, to as int),
        ) {
            Some(n) => Some(n as u64),
            None => None,
        },
{
    if (dot - from) + (to - frac_from) == 0 {
        return None;
    }
    if !all_digits_exec(v, frac_from, to) {
        return None;
    }
    match read_digits(v, from, dot, u64::MAX) {
        None => None,
        Some(w) => {
            let f = fraction_millis_exec(v, frac_from, to);
            let total: u128 = w as u128 * 1000 + f as u128;
            if total > u64::MAX as u128 {
                None
            } else {
                Some(total as u64)
            }
        },
    }
}

/// Reads `v[from..to]` as a decimal number of seconds, in milliseconds.
pub fn parse_millis_exec(v: &Vec<char>, from: usize, to: usize) -> (r: Option<u64>)
    requires
        from <= to <= v.len(),
    ensures
        r == match parse_millis(v@.subrange(from as int, to as int)) {
            Some(n) => Some(n as u64),
            None => None,
        },
{
    let ghost s = v@.subrange(from as int, to as int);
    let start: usize = if from < to && v[from] == '+' {
        from + 1
    } else {
        from
    };
    let ghost body = v@.subrange(start as int, to as int);
    proof {
        if from < to {
            assert(s[0] == v@[from as int]);
        }
        if start > from {
            assert(s.drop_first() =~= body);
        }
    }
    let dot = crate::text::find_char(v, start, to, '.');
    if dot < to {
        proof {
            assert(body.take(dot - start) =~= v@.subrange(start as int, dot as int));
            assert(body.skip(dot - start + 1) =~= v@.subrange(dot + 1, to as int));
        }
        millis_of_exec(v, start, dot, dot + 1, to)
    } else {
        proof {
            assert(v@.subrange(to as int, to as int) =~= Seq::<char>::empty());
        }
        millis_of_exec(v, start, to, to, to)
    }
}

/// Appends to `out` the decimal number of seconds that `ms` milliseconds are.
pub fn push_millis(out: &mut String, ms: u64)
    ensures
        final(out)@ == old(out)@ + millis_text(ms as nat),
{
    push_decimal(out, ms / 1000);
    let r: u64 = ms % 1000;
    if r != 0 {
        out.push('.');
        out.push((0x30u8 + (r / 100) as u8) as char);
        if r % 100 != 0 {
            out.push((0x30u8 + ((r / 10) % 10) as u8) as char);
            if r % 10 != 0 {
                out.push((0x30u8 + (r % 10) as u8) as char);
            }
        }
    }
    assert(out@ =~= old(out)@ + millis_text(ms as nat));
}


/// A duration that was written reads back as itself.
pub proof fn lemma_millis_roundtrip(ms: nat)
    requires
        ms <= u64::MAX,
    ensures
        parse_millis(millis_text(ms)) == Some(ms),
{
    let whole = decimal(ms / 1000);
    let r = (ms % 1000) as int;
    let text = millis_text(ms);
    lemma_decimal_roundtrip(ms / 1000);
    assert(is_digit(whole[0]));
    assert(text[0] == whole[0]);
    let d0 = digit_char(r / 100);
    let d1 = digit_char((r / 10) % 10);
    let d2 = digit_char(r % 10);
    lemma_digit_roundtrip(r / 100);
    lemma_digit_roundtrip((r / 10) % 10);
    lemma_digit_roundtrip(r % 10);
    if r == 0 {
        assert forall|i: int| 0 <= i < text.len() implies #[trigger] text[i] != '.' by {
            assert(is_digit(whole[i]));
        }
        crate::text::lemma_first_index_of_is(text, '.', text.len() as int);
        assert(fraction_millis(Seq::<char>::empty()) == 0);
    } else {
        let frac: Seq<char> = if r % 100 == 0 {
            seq![d0]
        } else if r % 10 == 0 {
            seq![d0, d1]
        } else {
            seq![d0, d1, d2]
        };
        assert(text =~= whole + seq!['.'] + frac);
        assert forall|i: int| 0 <= i < whole.len() implies #[trigger] text[i] != '.' by {
            assert(is_digit(whole[i]));
            assert(text[i] == whole[i]);
        }
        assert(text[whole.len() as int] == '.');
        crate::text::lemma_first_index_of_is(text, '.', whole.len() as int);
        assert(text.take(whole.len() as int) =~= whole);
        assert(text.skip(whole.len() as int + 1) =~= frac);
        assert(all_digits(frac));
        assert(fraction_millis(frac) == r);
    }
}

} // verus!
