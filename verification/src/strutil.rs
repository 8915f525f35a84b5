//! Small verified string helpers shared by the rest of the crate:
//! character-exact equality on `&str`, ASCII case folding, and decimal
//! rendering of unsigned integers.

use vstd::prelude::*;
use vstd::string::StrSliceExecFns;

verus! {

/// Relies on std's `String::push`: appends exactly one character.
#[verifier::external_body]
pub fn push_char(s: &mut String, c: char)
    ensures
        final(s)@ == old(s)@.push(c),
{
    s.push(c);
}

/// Character-exact equality of two string slices.
pub fn str_eq(a: &str, b: &str) -> (r: bool)
    ensures
        r == (a@ == b@),
{
    let n = a.unicode_len();
    if n != b.unicode_len() {
        return false;
    }
    let mut i: usize = 0;
    while i < n
        invariant
            n == a@.len(),
            n == b@.len(),
            i <= n,
            forall|j: int| 0 <= j < i ==> a@[j] == b@[j],
        decreases n - i,
    {
        if a.get_char(i) != b.get_char(i) {
            return false;
        }
        i = i + 1;
    }
    proof {
        assert(a@ =~= b@);
    }
    true
}

/// ASCII lower-casing of one character; other characters are unchanged.
pub open spec fn lower_char(c: char) -> char {
    if 65 <= c as int && c as int <= 90 {
        ((c as u8) + 32) as char
    } else {
        c
    }
}

/// ASCII lower-casing of a character sequence.
pub open spec fn lower_of(s: Seq<char>) -> Seq<char> {
    Seq::new(s.len(), |i: int| lower_char(s[i]))
}

/// Lower-cases the ASCII letters of `s`; all other characters are
/// kept. The names this crate folds (category and language codes) are
/// ASCII, so wider Unicode folding would change nothing for them.
pub fn ascii_lower(s: &str) -> (r: String)
    ensures
        r@ == lower_of(s@),
{
    let n = s.unicode_len();
    let mut out = String::new();
    let mut i: usize = 0;
    while i < n
        invariant
            n == s@.len(),
            i <= n,
            out@ == lower_of(s@).take(i as int),
        decreases n - i,
    {
        let c = s.get_char(i);
        let u = c as u32;
        let l: char = if 65 <= u && u <= 90 {
            ((c as u8) + 32) as char
        } else {
            c
        };
        assert(l == lower_char(s@[i as int]));
        push_char(&mut out, l);
        proof {
            assert(out@ =~= lower_of(s@).take(i + 1 as int));
        }
        i = i + 1;
    }
    proof {
        assert(lower_of(s@).take(n as int) =~= lower_of(s@));
    }
    out
}

/// The decimal digit character for a value between 0 and 9.
pub open spec fn digit_char(d: int) -> char {
    ((d + 48) as u8) as char
}

/// The decimal rendering of a natural number, most significant digit first.
pub open spec fn dec_of(n: nat) -> Seq<char>
    decreases n,
{
    if n < 10 {
        seq![digit_char(n as int)]
    } else {
        dec_of((n / 10) as nat).push(digit_char((n % 10) as int))
    }
}

/// Renders `n` in decimal.
pub fn u64_to_dec(n: u64) -> (r: String)
    ensures
        r@ == dec_of(n as nat),
    decreases n,
{
    if n < 10 {
        let mut s = String::new();
        push_char(&mut s, ((n as u8) + 48) as char);
        proof {
            assert(s@ =~= dec_of(n as nat));
        }
        s
    } else {
        let mut s = u64_to_dec(n / 10);
        push_char(&mut s, (((n % 10) as u8) + 48) as char);
        s
    }
}

/// Whether `c` is a decimal digit.
pub open spec fn is_digit(c: char) -> bool {
    48 <= c as int && c as int <= 57
}

/// The value of a decimal digit character.
pub open spec fn digit_val(c: char) -> int {
    c as int - 48
}

/// Whether every character of `s` is a decimal digit.
pub open spec fn all_digits(s: Seq<char>) -> bool {
    forall|i: int| 0 <= i < s.len() ==> is_digit(#[trigger] s[i])
}

/// The value of a digit sequence read as a decimal number.
pub open spec fn dec_val(s: Seq<char>) -> int
    decreases s.len(),
{
    if s.len() == 0 {
        0
    } else {
        dec_val(s.drop_last()) * 10 + digit_val(s.last())
    }
}

pub proof fn lemma_dec_val_nonneg(s: Seq<char>)
    requires
        all_digits(s),
    ensures
        dec_val(s) >= 0,
    decreases s.len(),
{
    if s.len() > 0 {
        assert(all_digits(s.drop_last()));
        lemma_dec_val_nonneg(s.drop_last());
    }
}

/// Reading one more digit never decreases the value.
pub proof fn lemma_dec_val_prefix_le(s: Seq<char>, i: int)
    requires
        all_digits(s),
        0 <= i <= s.len(),
    ensures
        dec_val(s.take(i)) <= dec_val(s),
    decreases s.len() - i,
{
    if i < s.len() {
        lemma_dec_val_prefix_le(s, i + 1);
        assert(s.take(i + 1).drop_last() =~= s.take(i));
        assert(all_digits(s.take(i)));
        lemma_dec_val_nonneg(s.take(i));
    } else {
        assert(s.take(i) =~= s);
    }
}

/// Ten to the power `n`.
pub open spec fn pow10(n: nat) -> int
    decreases n,
{
    if n == 0 {
        1
    } else {
        10 * pow10((n - 1) as nat)
    }
}

pub proof fn lemma_dec_val_bound(s: Seq<char>)
    requires
        all_digits(s),
    ensures
        dec_val(s) < pow10(s.len()),
    decreases s.len(),
{
    if s.len() > 0 {
        assert(all_digits(s.drop_last()));
        lemma_dec_val_bound(s.drop_last());
    }
}

/// The step identity used by forward-scanning parsers.
pub proof fn lemma_dec_val_step(s: Seq<char>, i: int)
    requires
        0 <= i < s.len(),
    ensures
        dec_val(s.take(i + 1)) == dec_val(s.take(i)) * 10 + digit_val(s[i]),
{
    assert(s.take(i + 1).drop_last() =~= s.take(i));
    assert(s.take(i + 1).last() == s[i]);
}

/// The index of the first occurrence of `c` in `s`, or `s.len()` if absent.
pub open spec fn find_char(s: Seq<char>, c: char) -> int
    decreases s.len(),
{
    if s.len() == 0 {
        0
    } else if s[0] == c {
        0
    } else {
        1 + find_char(s.skip(1), c)
    }
}

pub proof fn lemma_find_char(s: Seq<char>, c: char)
    ensures
        0 <= find_char(s, c) <= s.len(),
        find_char(s, c) < s.len() ==> s[find_char(s, c)] == c,
        forall|j: int| 0 <= j < find_char(s, c) ==> s[j] != c,
    decreases s.len(),
{
    if s.len() > 0 && s[0] != c {
        lemma_find_char(s.skip(1), c);
        assert forall|j: int| 0 <= j < find_char(s, c) implies s[j] != c by {
            if j > 0 {
                assert(s.skip(1)[j - 1] == s[j]);
            }
        }
    }
}

/// A timestamp string: one or more decimal digits whose value fits in
/// `i64`; anything else reads as zero.
pub open spec fn spec_parse_ts(s: Seq<char>) -> i64 {
    if s.len() > 0 && all_digits(s) && dec_val(s) <= i64::MAX {
        dec_val(s) as i64
    } else {
        0
    }
}

/// Parses a decimal digit string as a non-negative timestamp; malformed
/// or overflowing input reads as zero. No sign is read: timestamps in
/// this model are nonnegative.
pub fn parse_ts(s: &str) -> (r: i64)
    ensures
        r == spec_parse_ts(s@),
        r >= 0,
{
    let n = s.unicode_len();
    if n == 0 {
        return 0;
    }
    let mut acc: u64 = 0;
    let mut i: usize = 0;
    while i < n
        invariant
            n == s@.len(),
            0 < n,
            i <= n,
            all_digits(s@.take(i as int)),
            acc == dec_val(s@.take(i as int)),
            acc <= i64::MAX,
        decreases n - i,
    {
        let c = s.get_char(i);
        let u = c as u32;
        if u < 48 || u > 57 {
            proof {
                assert(!is_digit(s@[i as int]));
                assert(!all_digits(s@));
            }
            return 0;
        }
        let d = (u - 48) as u64;
        proof {
            lemma_dec_val_step(s@, i as int);
        }
        if acc > (0x7fff_ffff_ffff_ffffu64 - d) / 10 {
            proof {
                assert(dec_val(s@.take(i + 1 as int)) > i64::MAX);
                if all_digits(s@) {
                    lemma_dec_val_prefix_le(s@, i + 1 as int);
                }
            }
            return 0;
        }
        acc = acc * 10 + d;
        i = i + 1;
    }
    proof {
        assert(s@.take(n as int) =~= s@);
    }
    acc as i64
}

/// The fractional digits of a decimal, valued in hundred-millionths:
/// only the first eight digits are significant.
pub open spec fn frac_e8(f: Seq<char>) -> int {
    if f.len() >= 8 {
        dec_val(f.take(8))
    } else {
        dec_val(f) * pow10((8 - f.len()) as nat)
    }
}

/// The value of `intpart.fracpart` scaled by 10^8.
pub open spec fn dec_e8(intpart: Seq<char>, frac: Seq<char>) -> int {
    dec_val(intpart) * 100_000_000 + frac_e8(frac)
}

/// A signed decimal string (digits, with one optional `.` and an
/// optional leading `-`) read at a fixed scale of 10^8. Fractional
/// digits beyond the eighth are ignored; a malformed string or one
/// whose scaled value does not fit in `i64` reads as `None`.
pub open spec fn spec_parse_decimal_e8(s: Seq<char>) -> Option<i64> {
    let neg = s.len() > 0 && s[0] == '-';
    let body = if neg {
        s.skip(1)
    } else {
        s
    };
    let dot = find_char(body, '.');
    let intpart = body.take(dot);
    let frac = if dot < body.len() {
        body.skip(dot + 1)
    } else {
        Seq::<char>::empty()
    };
    if intpart.len() >= 1 && all_digits(intpart) && all_digits(frac) && dec_e8(intpart, frac)
        <= i64::MAX {
        if neg {
            Some((-dec_e8(intpart, frac)) as i64)
        } else {
            Some(dec_e8(intpart, frac) as i64)
        }
    } else {
        None
    }
}

pub proof fn lemma_frac_e8_bound(f: Seq<char>)
    requires
        all_digits(f),
    ensures
        0 <= frac_e8(f) < 100_000_000,
{
    if f.len() >= 8 {
        assert(all_digits(f.take(8)));
        lemma_dec_val_bound(f.take(8));
        lemma_dec_val_nonneg(f.take(8));
        lemma_pow10_val8();
    } else {
        lemma_dec_val_bound(f);
        lemma_dec_val_nonneg(f);
        let k = (8 - f.len()) as nat;
        assert(pow10(f.len()) * pow10(k) == pow10(8)) by {
            lemma_pow10_add(f.len(), k);
        }
        lemma_pow10_val8();
        assert(pow10(k) >= 1) by {
            lemma_pow10_pos(k);
        }
        assert(dec_val(f) * pow10(k) <= (pow10(f.len()) - 1) * pow10(k)) by (nonlinear_arith)
            requires
                dec_val(f) <= pow10(f.len()) - 1,
                pow10(k) >= 1,
        ;
        assert((pow10(f.len()) - 1) * pow10(k) == pow10(f.len()) * pow10(k) - pow10(k))
            by (nonlinear_arith);
        assert(dec_val(f) * pow10(k) >= 0) by (nonlinear_arith)
            requires
                dec_val(f) >= 0,
                pow10(k) >= 1,
        ;
    }
}

pub proof fn lemma_pow10_val8()
    ensures
        pow10(8) == 100_000_000,
{
    reveal_with_fuel(pow10, 9);
}

pub proof fn lemma_pow10_small()
    ensures
        pow10(0) == 1,
        pow10(1) == 10,
        pow10(2) == 100,
        pow10(3) == 1_000,
        pow10(4) == 10_000,
        pow10(5) == 100_000,
        pow10(6) == 1_000_000,
        pow10(7) == 10_000_000,
        pow10(8) == 100_000_000,
{
    reveal_with_fuel(pow10, 9);
}

/// The first occurrence characterizes `find_char`.
pub proof fn lemma_find_char_at(s: Seq<char>, c: char, i: int)
    requires
        0 <= i <= s.len(),
        forall|j: int| 0 <= j < i ==> s[j] != c,
        i < s.len() ==> s[i] == c,
    ensures
        find_char(s, c) == i,
{
    lemma_find_char(s, c);
    let f = find_char(s, c);
    if f < i {
        assert(s[f] != c);
    }
    if f > i {
        assert(s[i] != c);
    }
}

/// The integer digits of a decimal, when they are digits and small
/// enough that the scaled value can still fit.
fn int_digits_value(part: &str) -> (r: Option<u64>)
    ensures
        (r is Some) <==> (part@.len() >= 1 && all_digits(part@) && dec_val(part@)
            <= 92_233_720_368),
        r matches Some(x) ==> x == dec_val(part@),
{
    let n = part.unicode_len();
    if n == 0 {
        return None;
    }
    let mut acc: u64 = 0;
    let mut i: usize = 0;
    while i < n
        invariant
            n == part@.len(),
            0 < n,
            i <= n,
            all_digits(part@.take(i as int)),
            acc == dec_val(part@.take(i as int)),
            acc <= 92_233_720_368,
        decreases n - i,
    {
        let c = part.get_char(i);
        let u = c as u32;
        if u < 48 || u > 57 {
            proof {
                assert(!is_digit(part@[i as int]));
            }
            return None;
        }
        let d = (u - 48) as u64;
        proof {
            lemma_dec_val_step(part@, i as int);
        }
        if acc > (92_233_720_368u64 - d) / 10 {
            proof {
                assert(dec_val(part@.take(i + 1 as int)) > 92_233_720_368);
                if all_digits(part@) {
                    lemma_dec_val_prefix_le(part@, i + 1 as int);
                }
            }
            return None;
        }
        acc = acc * 10 + d;
        i = i + 1;
    }
    proof {
        assert(part@.take(n as int) =~= part@);
    }
    Some(acc)
}

/// The fractional digits of a decimal, valued in hundred-millionths.
fn frac_digits_value(part: &str) -> (r: Option<u64>)
    ensures
        (r is Some) <==> all_digits(part@),
        r matches Some(x) ==> x == frac_e8(part@) && x < 100_000_000,
{
    let n = part.unicode_len();
    let mut acc: u64 = 0;
    let mut i: usize = 0;
    let keep: usize = if n <= 8 {
        n
    } else {
        8
    };
    while i < n
        invariant
            n == part@.len(),
            i <= n,
            keep == (if n <= 8 {
                n as int
            } else {
                8
            }),
            all_digits(part@.take(i as int)),
            acc == dec_val(part@.take(if i <= keep {
                i as int
            } else {
                keep as int
            })),
            acc < 100_000_000,
        decreases n - i,
    {
        let c = part.get_char(i);
        let u = c as u32;
        if u < 48 || u > 57 {
            proof {
                assert(!is_digit(part@[i as int]));
            }
            return None;
        }
        proof {
            lemma_dec_val_step(part@, i as int);
            if i < keep {
                assert(all_digits(part@.take(i + 1 as int)));
                lemma_dec_val_bound(part@.take(i + 1 as int));
                lemma_pow10_small();
                lemma_dec_val_pow_bound(part@.take(i + 1 as int));
            }
        }
        if i < keep {
            let d = (u - 48) as u64;
            acc = acc * 10 + d;
        }
        i = i + 1;
    }
    proof {
        assert(part@.take(n as int) =~= part@);
        lemma_pow10_small();
        if n >= 8 {
            assert(acc == dec_val(part@.take(8)));
            if n > 8 {
            } else {
                assert(part@.take(8) =~= part@);
            }
            lemma_frac_e8_bound(part@);
        } else {
            assert(acc == dec_val(part@));
        }
    }
    if n >= 8 {
        proof {
            lemma_frac_e8_bound(part@);
        }
        Some(acc)
    } else {
        let mult: u64 = if n == 0 {
            100_000_000
        } else if n == 1 {
            10_000_000
        } else if n == 2 {
            1_000_000
        } else if n == 3 {
            100_000
        } else if n == 4 {
            10_000
        } else if n == 5 {
            1_000
        } else if n == 6 {
            100
        } else {
            10
        };
        proof {
            lemma_pow10_small();
            assert(mult == pow10((8 - part@.len()) as nat));
            lemma_frac_e8_bound(part@);
            lemma_dec_val_nonneg(part@);
            lemma_dec_val_bound(part@);
        }
        Some(acc * mult)
    }
}

/// A digit string of length `n` is worth less than `pow10(n)`, so an
/// eight-digit prefix stays below one hundred million.
proof fn lemma_dec_val_pow_bound(s: Seq<char>)
    requires
        all_digits(s),
        s.len() <= 8,
    ensures
        dec_val(s) < 100_000_000,
{
    lemma_dec_val_bound(s);
    lemma_pow10_small();
    lemma_pow10_mono(s.len(), 8);
}

proof fn lemma_pow10_mono(a: nat, b: nat)
    requires
        a <= b,
    ensures
        pow10(a) <= pow10(b),
    decreases b,
{
    if a < b {
        lemma_pow10_mono(a, (b - 1) as nat);
        lemma_pow10_pos((b - 1) as nat);
    }
}

/// Reads a signed fixed-point decimal at scale 10^8.
pub fn parse_decimal_e8(s: &str) -> (r: Option<i64>)
    ensures
        r == spec_parse_decimal_e8(s@),
{
    let n = s.unicode_len();
    let neg = n > 0 && s.get_char(0) == '-';
    let start: usize = if neg {
        1
    } else {
        0
    };
    let ghost body = s@.skip(start as int);
    proof {
        assert(s@.skip(0) =~= s@);
    }
    let mut k: usize = start;
    while k < n
        invariant
            start <= k <= n,
            n == s@.len(),
            forall|j: int| start <= j < k ==> s@[j] != '.',
        ensures
            start <= k <= n,
            n == s@.len(),
            forall|j: int| start <= j < k ==> s@[j] != '.',
            k < n ==> s@[k as int] == '.',
        decreases n - k,
    {
        if s.get_char(k) == '.' {
            break ;
        }
        k = k + 1;
    }
    let dot = k;
    proof {
        assert forall|j: int| 0 <= j < dot - start implies body[j] != '.' by {
            assert(body[j] == s@[start + j]);
        }
        if dot < n {
            assert(body[dot - start] == s@[dot as int]);
        }
        lemma_find_char_at(body, '.', dot as int - start as int);
    }
    let ghost ip = body.take(dot as int - start as int);
    let ghost fr = if dot < n {
        body.skip(dot as int - start as int + 1)
    } else {
        Seq::<char>::empty()
    };
    let intpart = s.substring_char(start, dot);
    proof {
        assert(intpart@ =~= ip);
    }
    let iv: u64 = match int_digits_value(intpart) {
        Some(x) => x,
        None => {
            proof {
                if ip.len() >= 1 && all_digits(ip) && all_digits(fr) {
                    lemma_frac_e8_bound(fr);
                    lemma_dec_val_nonneg(ip);
                    assert(dec_val(ip) >= 92_233_720_369);
                    assert(dec_val(ip) * 100_000_000 >= 92_233_720_369 * 100_000_000)
                        by (nonlinear_arith)
                        requires
                            dec_val(ip) >= 92_233_720_369,
                    ;
                    assert(dec_e8(ip, fr) > i64::MAX);
                }
                assert(spec_parse_decimal_e8(s@) is None);
            }
            return None;
        },
    };
    let fv: u64 = if dot < n {
        let fracpart = s.substring_char(dot + 1, n);
        proof {
            assert(fracpart@ =~= fr);
        }
        match frac_digits_value(fracpart) {
            Some(x) => x,
            None => {
                return None;
            },
        }
    } else {
        proof {
            assert(all_digits(fr));
            lemma_pow10_small();
        }
        0
    };
    let mag: u128 = iv as u128 * 100_000_000 + fv as u128;
    proof {
        assert(mag as int == dec_e8(ip, fr));
        assert(ip.len() >= 1 && all_digits(ip) && all_digits(fr));
    }
    if mag > 0x7fff_ffff_ffff_ffffu128 {
        proof {
            assert(dec_e8(ip, fr) > i64::MAX);
            assert(spec_parse_decimal_e8(s@) is None);
        }
        return None;
    }
    let m = mag as i64;
    proof {
        assert(m as int == dec_e8(ip, fr));
        assert(spec_parse_decimal_e8(s@) == (if neg {
            Some((-dec_e8(ip, fr)) as i64)
        } else {
            Some(dec_e8(ip, fr) as i64)
        }));
    }
    if neg {
        Some(-m)
    } else {
        Some(m)
    }
}

pub proof fn lemma_pow10_pos(n: nat)
    ensures
        pow10(n) >= 1,
    decreases n,
{
    if n > 0 {
        lemma_pow10_pos((n - 1) as nat);
    }
}

pub proof fn lemma_pow10_add(a: nat, b: nat)
    ensures
        pow10(a) * pow10(b) == pow10(a + b),
    decreases a,
{
    if a == 0 {
        assert(pow10(0) * pow10(b) == pow10(b)) by (nonlinear_arith)
            requires
                pow10(0) == 1,
        ;
    } else {
        lemma_pow10_add((a - 1) as nat, b);
        assert(pow10(a) * pow10(b) == 10 * (pow10((a - 1) as nat) * pow10(b)))
            by (nonlinear_arith)
            requires
                pow10(a) == 10 * pow10((a - 1) as nat),
        ;
    }
}

} // verus!

