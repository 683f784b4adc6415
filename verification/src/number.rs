//! Unsigned numbers as text: reading them in a radix, writing them in decimal.

use vstd::prelude::*;
use vstd::string::StringExecFns;

verus! {

/// The value of `c` as a digit in `radix`: `0` to `9`, then the letters of either case from
/// ten on. `None` where `c` is no digit below `radix`.
pub open spec fn digit_value(c: char, radix: nat) -> Option<nat> {
    let n = c as u32 as int;
    let v: int = if 0x30 <= n <= 0x39 {
        n - 0x30
    } else if 0x61 <= n <= 0x7A {
        n - 0x61 + 10
    } else if 0x41 <= n <= 0x5A {
        n - 0x41 + 10
    } else {
        -1
    };
    if 0 <= v < radix {
        Some(v as nat)
    } else {
        None
    }
}

/// The number that the digits `s` write in `radix`, most significant digit first; `None`
/// where a character of `s` is no digit. The empty text writes zero.
pub open spec fn digits_value(s: Seq<char>, radix: nat) -> Option<nat>
    decreases s.len(),
{
    if s.len() == 0 {
        Some(0)
    } else {
        match (digits_value(s.drop_last(), radix), digit_value(s.last(), radix)) {
            (Some(high), Some(low)) => Some(high * radix + low),
            _ => None,
        }
    }
}

/// The number that the digits `s` write, where it is at most `max`.
pub open spec fn bounded_value(s: Seq<char>, radix: nat, max: nat) -> Option<nat> {
    match digits_value(s, radix) {
        Some(v) if v <= max => Some(v),
        _ => None,
    }
}

/// What `s` reads as: an optional `+`, then at least one digit and nothing else, with a value
/// of at most `max`. Anything else is `None`.
pub open spec fn parse_number(s: Seq<char>, radix: nat, max: nat) -> Option<nat> {
    let body = if s.len() > 0 && s[0] == '+' {
        s.drop_first()
    } else {
        s
    };
    if body.len() == 0 {
        None
    } else {
        bounded_value(body, radix, max)
    }
}

/// A prefix of digits writes a number no larger than the whole does, and a prefix that is no
/// number makes the whole none.
pub proof fn lemma_digits_prefix(s: Seq<char>, k: int, radix: nat)
    requires
        0 <= k <= s.len(),
        radix >= 1,
    ensures
        digits_value(s.take(k), radix) is None ==> digits_value(s, radix) is None,
        digits_value(s, radix) is Some ==> digits_value(s.take(k), radix) is Some
            && digits_value(s.take(k), radix)->0 <= digits_value(s, radix)->0,
    decreases s.len(),
{
    if k == s.len() {
        assert(s.take(k) =~= s);
    } else {
        assert(s.drop_last().take(k) =~= s.take(k));
        lemma_digits_prefix(s.drop_last(), k, radix);
        if digits_value(s, radix) is Some {
            let high = digits_value(s.drop_last(), radix)->0;
            let low = digit_value(s.last(), radix)->0;
            assert(high * radix + low >= high) by (nonlinear_arith)
                requires
                    radix >= 1,
            ;
        }
    }
}

/// Reads one digit.
pub fn char_digit(c: char, radix: u32) -> (r: Option<u32>)
    requires
        radix <= 36,
    ensures
        match r {
            Some(d) => digit_value(c, radix as nat) == Some(d as nat) && d < radix,
            None => digit_value(c, radix as nat) is None,
        },
{
    let n: u32 = c as u32;
    let v: u32 = if 0x30 <= n && n <= 0x39 {
        n - 0x30
    } else if 0x61 <= n && n <= 0x7A {
        n - 0x61 + 10
    } else if 0x41 <= n && n <= 0x5A {
        n - 0x41 + 10
    } else {
        return None;
    };
    if v < radix {
        Some(v)
    } else {
        None
    }
}

/// Reads an unsigned number in `radix` that is at most `max`.
pub fn parse_radix(s: &Vec<char>, radix: u32, max: u64) -> (r: Option<u64>)
    requires
        2 <= radix <= 36,
    ensures
        match r {
            Some(v) => parse_number(s@, radix as nat, max as nat) == Some(v as nat),
            None => parse_number(s@, radix as nat, max as nat) is None,
        },
{
    let n: usize = s.len();
    let start: usize = if n > 0 && s[0] == '+' {
        1
    } else {
        0
    };
    if start == n {
        return None;
    }
    let ghost body = s@.subrange(start as int, n as int);
    assert(start == 1 ==> body =~= s@.drop_first());
    assert(start == 0 ==> body =~= s@);
    assert(parse_number(s@, radix as nat, max as nat) == bounded_value(
        body,
        radix as nat,
        max as nat,
    ));
    let mut acc: u64 = 0;
    let mut i: usize = start;
    assert(body.take(0).len() == 0);
    while i < n
        invariant
            2 <= radix <= 36,
            n == s@.len(),
            start <= i <= n,
            body == s@.subrange(start as int, n as int),
            parse_number(s@, radix as nat, max as nat) == bounded_value(
                body,
                radix as nat,
                max as nat,
            ),
            digits_value(body.take(i - start), radix as nat) == Some(acc as nat),
            acc <= max,
        decreases n - i,
    {
        proof {
            let next = body.take(i - start + 1);
            assert(next.drop_last() =~= body.take(i - start));
            assert(next.last() == s@[i as int]);
            lemma_digits_prefix(body, i - start + 1, radix as nat);
        }
        match char_digit(s[i], radix) {
            None => {
                return None;
            },
            Some(d) => {
                assert(acc * radix + d <= u64::MAX * 36 + 36) by (nonlinear_arith)
                    requires
                        acc <= u64::MAX,
                        radix <= 36,
                        d < radix,
                ;
                let wide: u128 = (acc as u128) * (radix as u128) + (d as u128);
                if wide > max as u128 {
                    return None;
                }
                acc = wide as u64;
            },
        }
        i += 1;
    }
    assert(body.take(n - start) =~= body);
    Some(acc)
}

/// The character that writes the decimal digit `d`.
pub open spec fn digit_char(d: nat) -> char {
    if d == 0 {
        '0'
    } else if d == 1 {
        '1'
    } else if d == 2 {
        '2'
    } else if d == 3 {
        '3'
    } else if d == 4 {
        '4'
    } else if d == 5 {
        '5'
    } else if d == 6 {
        '6'
    } else if d == 7 {
        '7'
    } else if d == 8 {
        '8'
    } else {
        '9'
    }
}

/// `n` in decimal, without a sign and without leading zeros.
pub open spec fn decimal_text(n: nat) -> Seq<char>
    decreases n,
{
    if n < 10 {
        seq![digit_char(n)]
    } else {
        decimal_text(n / 10).push(digit_char(n % 10))
    }
}

/// The text of one decimal digit.
fn digit_str(d: u64) -> (r: &'static str)
    requires
        d < 10,
    ensures
        r@ == seq![digit_char(d as nat)],
{
    proof {
        reveal_strlit("0");
        reveal_strlit("1");
        reveal_strlit("2");
        reveal_strlit("3");
        reveal_strlit("4");
        reveal_strlit("5");
        reveal_strlit("6");
        reveal_strlit("7");
        reveal_strlit("8");
        reveal_strlit("9");
    }
    let r = if d == 0 {
        "0"
    } else if d == 1 {
        "1"
    } else if d == 2 {
        "2"
    } else if d == 3 {
        "3"
    } else if d == 4 {
        "4"
    } else if d == 5 {
        "5"
    } else if d == 6 {
        "6"
    } else if d == 7 {
        "7"
    } else if d == 8 {
        "8"
    } else {
        "9"
    };
    assert(r@ =~= seq![digit_char(d as nat)]);
    r
}

/// Appends `n` in decimal to `out`.
pub fn append_decimal(out: &mut String, n: u64)
    ensures
        final(out)@ == old(out)@ + decimal_text(n as nat),
    decreases n,
{
    if n >= 10 {
        append_decimal(out, n / 10);
    }
    out.append(digit_str(n % 10));
    assert(final(out)@ =~= old(out)@ + decimal_text(n as nat));
}

/// The text that writes `n` in decimal reads back as `n`.
pub proof fn lemma_decimal_round_trip(n: nat, max: nat)
    requires
        n <= max,
    ensures
        digits_value(decimal_text(n), 10) == Some(n),
        parse_number(decimal_text(n), 10, max) == Some(n),
    decreases n,
{
    if n < 10 {
        assert(decimal_text(n).drop_last() =~= Seq::<char>::empty());
        assert(digits_value(decimal_text(n).drop_last(), 10) == Some(0nat));
    } else {
        lemma_decimal_round_trip(n / 10, max);
        assert(decimal_text(n).drop_last() =~= decimal_text(n / 10));
    }
    lemma_decimal_first_is_digit(n);
}

/// Decimal text is never empty and does not begin with a sign.
pub proof fn lemma_decimal_first_is_digit(n: nat)
    ensures
        decimal_text(n).len() > 0,
        decimal_text(n)[0] != '+',
    decreases n,
{
    if n >= 10 {
        lemma_decimal_first_is_digit(n / 10);
    }
}

/// The character that writes the hexadecimal digit `d`, with capital letters from ten on.
pub open spec fn hex_digit_char(d: nat) -> char {
    if d < 10 {
        digit_char(d)
    } else if d == 10 {
        'A'
    } else if d == 11 {
        'B'
    } else if d == 12 {
        'C'
    } else if d == 13 {
        'D'
    } else if d == 14 {
        'E'
    } else {
        'F'
    }
}

/// A 16-bit number as the kernel writes a port: four hexadecimal digits, padded with zeros.
pub open spec fn hex4_text(p: u16) -> Seq<char> {
    seq![
        hex_digit_char((p / 4096) as nat),
        hex_digit_char(((p / 256) % 16) as nat),
        hex_digit_char(((p / 16) % 16) as nat),
        hex_digit_char((p % 16) as nat),
    ]
}

/// A hexadecimal digit reads back as its value.
pub proof fn lemma_hex_digit_round_trip(d: nat)
    requires
        d < 16,
    ensures
        digit_value(hex_digit_char(d), 16) == Some(d),
{
}

/// A port in four hexadecimal digits reads back as itself, and as no other number.
pub proof fn lemma_hex4_round_trip(p: u16)
    ensures
        parse_number(hex4_text(p), 16, 0xFFFF) == Some(p as nat),
{
    let s = hex4_text(p);
    let d3 = (p / 4096) as nat;
    let d2 = ((p / 256) % 16) as nat;
    let d1 = ((p / 16) % 16) as nat;
    let d0 = (p % 16) as nat;
    let s3 = s.drop_last();
    let s2 = s3.drop_last();
    let s1 = s2.drop_last();
    let s0 = s1.drop_last();
    assert(s0.len() == 0);
    assert(s1.last() == hex_digit_char(d3));
    assert(s2.last() == hex_digit_char(d2));
    assert(s3.last() == hex_digit_char(d1));
    assert(s.last() == hex_digit_char(d0));
    lemma_hex_digit_round_trip(d3);
    lemma_hex_digit_round_trip(d2);
    lemma_hex_digit_round_trip(d1);
    lemma_hex_digit_round_trip(d0);
    assert(digits_value(s0, 16) == Some(0nat));
    assert(digits_value(s1, 16) == Some(d3));
    assert(digits_value(s2, 16) == Some(d3 * 16 + d2));
    assert(digits_value(s3, 16) == Some((d3 * 16 + d2) * 16 + d1));
    assert(digits_value(s, 16) == Some(((d3 * 16 + d2) * 16 + d1) * 16 + d0));
    assert(((d3 * 16 + d2) * 16 + d1) * 16 + d0 == p);
}

} // verus!
