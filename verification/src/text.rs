//! Numbers and text: parsing integers as `str::parse` does, and building
//! strings.

use vstd::prelude::*;

verus! {

/// `String::push`: appends one character. std documents this as the whole
/// effect.
#[verifier::external_body]
pub fn string_push(s: &mut String, c: char)
    ensures
        final(s)@ == old(s)@.push(c),
{
    s.push(c)
}

/// The value of a digit in `radix`, for digits `0`-`9` and letters of
/// either case.
pub open spec fn digit_value(c: char, radix: nat) -> Option<nat> {
    let v: int = if '0' <= c && c <= '9' {
        c as int - '0' as int
    } else if 'a' <= c && c <= 'z' {
        c as int - 'a' as int + 10
    } else if 'A' <= c && c <= 'Z' {
        c as int - 'A' as int + 10
    } else {
        radix as int
    };
    if 0 <= v < radix { Some(v as nat) } else { None }
}

/// The value of a string of digits, the most significant first.
pub open spec fn digits_value(s: Seq<char>, radix: nat) -> Option<nat>
    decreases s.len(),
{
    if s.len() == 0 {
        Some(0)
    } else {
        match (digits_value(s.drop_last(), radix), digit_value(s.last(), radix)) {
            (Some(a), Some(d)) => Some(a * radix + d),
            _ => None,
        }
    }
}

/// What `i64::from_str_radix` makes of `s`: an optional sign, then at least
/// one digit, and a value that fits.
pub open spec fn spec_parse_i64(s: Seq<char>, radix: nat) -> Option<i64> {
    if s.len() == 0 {
        None
    } else {
        let neg = s[0] == '-';
        let digits = if s[0] == '-' || s[0] == '+' { s.drop_first() } else { s };
        if digits.len() == 0 {
            None
        } else {
            match digits_value(digits, radix) {
                Some(v) => {
                    let x: int = if neg { -v } else { v as int };
                    if i64::MIN <= x <= i64::MAX { Some(x as i64) } else { None }
                },
                None => None,
            }
        }
    }
}

fn digit_of(c: char, radix: u32) -> (r: Option<u32>)
    requires
        2 <= radix <= 36,
    ensures
        match digit_value(c, radix as nat) {
            Some(v) => r == Some(v as u32),
            None => r is None,
        },
{
    let v: u32 = if '0' <= c && c <= '9' {
        (c as u32) - ('0' as u32)
    } else if 'a' <= c && c <= 'z' {
        (c as u32) - ('a' as u32) + 10
    } else if 'A' <= c && c <= 'Z' {
        (c as u32) - ('A' as u32) + 10
    } else {
        radix
    };
    if v < radix { Some(v) } else { None }
}

proof fn lemma_digits_monotone(s: Seq<char>, radix: nat, k: int)
    requires
        radix >= 2,
        0 <= k <= s.len(),
        digits_value(s, radix) is Some,
    ensures
        digits_value(s.subrange(0, k), radix) is Some,
        digits_value(s.subrange(0, k), radix)->0 <= digits_value(s, radix)->0,
    decreases s.len(),
{
    if k < s.len() {
        let t = s.drop_last();
        assert(s.subrange(0, k) =~= t.subrange(0, k));
        lemma_digits_monotone(t, radix, k);
        let a = digits_value(t, radix)->0;
        assert(a <= a * radix) by (nonlinear_arith) requires radix >= 2;
    } else {
        assert(s.subrange(0, k) =~= s);
    }
}

/// Parses `s` as `i64::from_str_radix(s, radix)` does.
pub fn parse_i64(s: &str, radix: u32) -> (r: Option<i64>)
    requires
        2 <= radix <= 36,
    ensures
        r == spec_parse_i64(s@, radix as nat),
{
    let n = s.unicode_len();
    if n == 0 {
        return None;
    }
    let first = s.get_char(0);
    let neg = first == '-';
    let start: usize = if first == '-' || first == '+' { 1 } else { 0 };
    if start == n {
        proof { assert(s@.drop_first().len() == 0); }
        return None;
    }
    let ghost digits = if s@[0] == '-' || s@[0] == '+' { s@.drop_first() } else { s@ };
    proof { assert(digits =~= s@.subrange(start as int, n as int)); }
    let limit: u128 = 0x8000_0000_0000_0000;
    let mut acc: u128 = 0;
    let mut i: usize = start;
    while i < n
        invariant
            n == s@.len(),
            start <= i <= n,
            2 <= radix <= 36,
            digits == s@.subrange(start as int, n as int),
            digits == (if s@[0] == '-' || s@[0] == '+' { s@.drop_first() } else { s@ }),
            neg == (s@[0] == '-'),
            digits_value(s@.subrange(start as int, i as int), radix as nat) == Some(acc as nat),
            acc <= limit,
            limit == 0x8000_0000_0000_0000,
        decreases n - i,
    {
        let c = s.get_char(i);
        let d = match digit_of(c, radix) {
            Some(d) => d,
            None => {
                proof {
                    let pre = s@.subrange(start as int, i + 1);
                    assert(pre.drop_last() =~= s@.subrange(start as int, i as int));
                    assert(pre.last() == c);
                    assert(digits_value(pre, radix as nat) is None);
                    if digits_value(digits, radix as nat) is Some {
                        lemma_digits_monotone(digits, radix as nat, i + 1 - start);
                        assert(digits.subrange(0, i + 1 - start) =~= pre);
                    }
                    assert(digits_value(digits, radix as nat) is None);
                    assert(digits.len() > 0);
                    assert(spec_parse_i64(s@, radix as nat) is None);
                }
                return None;
            },
        };
        assert(acc * (radix as u128) <= limit * 36) by (nonlinear_arith)
            requires
                acc <= limit,
                radix <= 36;
        let next: u128 = acc * (radix as u128) + (d as u128);
        proof {
            let pre = s@.subrange(start as int, i + 1);
            assert(pre.drop_last() =~= s@.subrange(start as int, i as int));
            assert(pre.last() == c);
        }
        if next > limit {
            proof {
                let pre = s@.subrange(start as int, i + 1);
                assert(digits_value(pre, radix as nat) == Some(next as nat));
                if digits_value(digits, radix as nat) is Some {
                    lemma_digits_monotone(digits, radix as nat, i + 1 - start);
                    assert(digits.subrange(0, i + 1 - start) =~= pre);
                }
                assert(spec_parse_i64(s@, radix as nat) is None);
            }
            return None;
        }
        acc = next;
        i = i + 1;
    }
    if neg {
        let v: i128 = -(acc as i128);
        Some(v as i64)
    } else if acc <= 0x7fff_ffff_ffff_ffff {
        Some(acc as i64)
    } else {
        None
    }
}


/// The digit character of `d` (below 16), lower case.
pub open spec fn digit_char(d: nat) -> char {
    if d < 10 { ('0' as int + d) as char } else { ('a' as int + d - 10) as char }
}

/// The digits of `n` in `radix`, the most significant first, with no
/// leading zero; `0` is one digit.
pub open spec fn radix_digits(n: nat, radix: nat) -> Seq<char>
    decreases n,
{
    if radix < 2 || n < radix {
        seq![digit_char(n)]
    } else {
        proof {
            assert(n / radix < n) by (nonlinear_arith)
                requires
                    radix >= 2,
                    n >= radix;
        }
        radix_digits(n / radix, radix).push(digit_char(n % radix))
    }
}

/// `n` in decimal.
pub open spec fn dec(n: nat) -> Seq<char> {
    radix_digits(n, 10)
}

/// `n` in lower-case hexadecimal.
pub open spec fn hex(n: nat) -> Seq<char> {
    radix_digits(n, 16)
}

/// A signed number in decimal, with `-` when negative.
pub open spec fn dec_signed(n: int) -> Seq<char> {
    if n < 0 { seq!['-'] + dec((-n) as nat) } else { dec(n as nat) }
}

fn digit_to_char(d: u128) -> (c: char)
    requires
        d < 16,
    ensures
        c == digit_char(d as nat),
{
    if d < 10 {
        ((d as u8) + 48) as char
    } else {
        ((d as u8) + 87) as char
    }
}

/// Appends `n` in `radix` (10 or 16).
pub fn push_radix(s: &mut String, n: u128, radix: u128)
    requires
        radix == 10 || radix == 16,
    ensures
        final(s)@ == old(s)@ + radix_digits(n as nat, radix as nat),
{
    let mut digits: Vec<char> = Vec::new();
    let mut m: u128 = n;
    let ghost mut done: Seq<char> = Seq::empty();
    proof {
        assert(radix_digits(n as nat, radix as nat) == radix_digits(m as nat, radix as nat) + done);
    }
    loop
        invariant_except_break
            radix_digits(n as nat, radix as nat) == radix_digits(m as nat, radix as nat) + done,
            digits@ == done.reverse(),
        invariant
            radix == 10 || radix == 16,
        ensures
            radix_digits(n as nat, radix as nat) == done,
            digits@ == done.reverse(),
        decreases m,
    {
        if m < radix {
            digits.push(digit_to_char(m));
            proof {
                assert(radix_digits(m as nat, radix as nat) == seq![digit_char(m as nat)]);
                done = seq![digit_char(m as nat)] + done;
                assert(digits@ =~= done.reverse());
                assert(radix_digits(n as nat, radix as nat) =~= done);
            }
            break;
        }
        let d = m % radix;
        digits.push(digit_to_char(d));
        proof {
            let q = m / radix;
            assert(radix_digits(m as nat, radix as nat) == radix_digits(q as nat, radix as nat).push(digit_char(d as nat)));
            let nd = seq![digit_char(d as nat)] + done;
            assert(radix_digits(q as nat, radix as nat).push(digit_char(d as nat)) + done =~= radix_digits(q as nat, radix as nat) + nd);
            done = nd;
            assert(digits@ =~= done.reverse());
        }
        m = m / radix;
    }
    let mut i: usize = digits.len();
    let ghost start = s@;
    while i > 0
        invariant
            i <= digits@.len(),
            digits@ == done.reverse(),
            s@ == start + done.subrange(0, done.len() - i),
        decreases i,
    {
        i = i - 1;
        string_push(s, digits[i]);
        proof {
            assert(digits@[i as int] == done[done.len() - 1 - i]);
            assert(done.subrange(0, done.len() - i) =~= done.subrange(0, done.len() - 1 - i).push(done[done.len() - 1 - i]));
        }
    }
    proof {
        assert(done.subrange(0, done.len() as int) =~= done);
    }
}


proof fn lemma_digits_of_radix(n: nat, radix: nat)
    requires
        radix == 10 || radix == 16,
    ensures
        digits_value(radix_digits(n, radix), radix) == Some(n),
        radix_digits(n, radix).len() > 0,
        radix_digits(n, radix)[0] != '-' && radix_digits(n, radix)[0] != '+',
    decreases n,
{
    if n < radix {
        let s = radix_digits(n, radix);
        assert(s == seq![digit_char(n)]);
        assert(s.drop_last() =~= Seq::<char>::empty());
        assert(digits_value(s.drop_last(), radix) == Some(0nat));
        assert(s.last() == digit_char(n));
        assert(digit_value(digit_char(n), radix) == Some(n));
        assert(digits_value(s, radix) == Some(0nat * radix + n));
    } else {
        assert(n / radix < n) by (nonlinear_arith)
            requires
                radix >= 2,
                n >= radix;
        lemma_digits_of_radix(n / radix, radix);
        let s = radix_digits(n, radix);
        let d = n % radix;
        assert(s.drop_last() == radix_digits(n / radix, radix));
        assert(s.last() == digit_char(d));
        assert(d < radix) by (nonlinear_arith)
            requires
                radix > 0,
                d == n % radix;
        assert(digit_value(digit_char(d), radix) == Some(d));
        assert((n / radix) * radix + d == n) by (nonlinear_arith)
            requires
                radix > 0,
                d == n % radix;
        assert(s[0] == radix_digits(n / radix, radix)[0]);
    }
}

/// A number printed in decimal parses back to itself.
pub proof fn lemma_parse_dec_signed(x: i64)
    ensures
        spec_parse_i64(dec_signed(x as int), 10) == Some(x),
{
    if x < 0 {
        let m = (-(x as int)) as nat;
        lemma_digits_of_radix(m, 10);
        let s = dec_signed(x as int);
        assert(s == seq!['-'] + dec(m));
        assert(s[0] == '-');
        assert(s.drop_first() =~= dec(m));
    } else {
        lemma_digits_of_radix(x as nat, 10);
    }
}

} // verus!
