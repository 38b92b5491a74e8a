//! Decimal text handling: printing a `u64` in decimal, parsing decimal
//! digits back, and parsing fixed-point fractions in thousandths.
//!
//! Report files are named `{unix_second}.json`; command properties carry
//! values such as `"2.5"`. Both sides of that text live here with exact
//! contracts, so that the file-retention scan and the QoS planner can state
//! what a name or a property value means.
use vstd::prelude::*;

verus! {

/// The decimal digit character for `d` (only meaningful for `0 <= d < 10`).
pub open spec fn digit_char(d: int) -> char {
    if d == 0 {
        '0'
    } else if d == 1 {
        '1'
    } else if d == 2 {
        '2'
    } else if d == 3 {
        '3'
    } else if d == 4 {
        '4'
    } else if d == 5 {
        '5'
    } else if d == 6 {
        '6'
    } else if d == 7 {
        '7'
    } else if d == 8 {
        '8'
    } else {
        '9'
    }
}

/// The numeric value of a decimal digit character; 10 marks a non-digit.
pub open spec fn digit_val(c: char) -> int {
    if c == '0' {
        0
    } else if c == '1' {
        1
    } else if c == '2' {
        2
    } else if c == '3' {
        3
    } else if c == '4' {
        4
    } else if c == '5' {
        5
    } else if c == '6' {
        6
    } else if c == '7' {
        7
    } else if c == '8' {
        8
    } else if c == '9' {
        9
    } else {
        10
    }
}

pub open spec fn is_digit(c: char) -> bool {
    digit_val(c) < 10
}

pub open spec fn all_digits(s: Seq<char>) -> bool {
    forall|i: int| 0 <= i < s.len() ==> is_digit(#[trigger] s[i])
}

/// The canonical decimal form of `v`: no leading zeroes except for `0` itself.
pub open spec fn dec_digits(v: nat) -> Seq<char>
    decreases v,
{
    if v < 10 {
        seq![digit_char(v as int)]
    } else {
        dec_digits(v / 10) + seq![digit_char((v % 10) as int)]
    }
}

/// The number that a digit string denotes, most significant digit first.
pub open spec fn dec_value(s: Seq<char>) -> nat
    decreases s.len(),
{
    if s.len() == 0 {
        0
    } else {
        (dec_value(s.drop_last()) * 10 + digit_val(s.last())) as nat
    }
}

/// Printing then reading gives the number back.
pub proof fn lemma_dec_digits_value(v: nat)
    ensures
        dec_digits(v).len() >= 1,
        all_digits(dec_digits(v)),
        dec_value(dec_digits(v)) == v,
    decreases v,
{
    if v < 10 {
        let s0 = dec_digits(v);
        assert(s0.drop_last() =~= Seq::<char>::empty());
        assert(s0.last() == digit_char(v as int));
        assert(digit_val(digit_char(v as int)) == v);
        assert(dec_value(s0) == (dec_value(Seq::<char>::empty()) * 10 + digit_val(s0.last()))
            as nat);
    } else {
        lemma_dec_digits_value(v / 10);
        let prefix = dec_digits(v / 10);
        let whole = prefix + seq![digit_char((v % 10) as int)];
        assert(whole.drop_last() =~= prefix);
        assert(whole.last() == digit_char((v % 10) as int));
        assert(forall|i: int|
            0 <= i < whole.len() ==> is_digit(#[trigger] whole[i])) by {
            assert(forall|i: int| 0 <= i < prefix.len() ==> is_digit(#[trigger] prefix[i]));
        }
    }
}

/// The canonical decimal form is injective.
pub proof fn lemma_dec_digits_injective(a: nat, b: nat)
    requires
        a != b,
    ensures
        dec_digits(a) != dec_digits(b),
{
    lemma_dec_digits_value(a);
    lemma_dec_digits_value(b);
}

/// Appends the decimal digit `d` to `s`.
fn push_digit(s: &mut String, d: u64)
    requires
        d < 10,
    ensures
        final(s)@ == old(s)@ + seq![digit_char(d as int)],
{
    proof {
        reveal_strlit("0");
        reveal_strlit("1");
        reveal_strlit("2");
        reveal_strlit("3");
        reveal_strlit("4");
        reveal_strlit("5");
        reveal_strlit("6");
        reveal_strlit("7");
        reveal_strlit("8");
        reveal_strlit("9");
    }
    if d == 0 {
        s.append("0");
    } else if d == 1 {
        s.append("1");
    } else if d == 2 {
        s.append("2");
    } else if d == 3 {
        s.append("3");
    } else if d == 4 {
        s.append("4");
    } else if d == 5 {
        s.append("5");
    } else if d == 6 {
        s.append("6");
    } else if d == 7 {
        s.append("7");
    } else if d == 8 {
        s.append("8");
    } else {
        s.append("9");
    }
    proof {
        assert(final(s)@ =~= old(s)@ + seq![digit_char(d as int)]);
    }
}

/// Prints `v` in decimal, canonical form.
pub fn u64_to_string(v: u64) -> (s: String)
    ensures
        s@ == dec_digits(v as nat),
    decreases v,
{
    if v < 10 {
        let mut s = String::new();
        push_digit(&mut s, v);
        proof {
            assert(s@ =~= seq![digit_char(v as int)]);
        }
        s
    } else {
        let mut s = u64_to_string(v / 10);
        push_digit(&mut s, v % 10);
        s
    }
}

/// The numeric value of `c` as a decimal digit; 10 for any other character.
pub fn digit_of_char(c: char) -> (d: u64)
    ensures
        d == digit_val(c),
{
    if c == '0' {
        0
    } else if c == '1' {
        1
    } else if c == '2' {
        2
    } else if c == '3' {
        3
    } else if c == '4' {
        4
    } else if c == '5' {
        5
    } else if c == '6' {
        6
    } else if c == '7' {
        7
    } else if c == '8' {
        8
    } else if c == '9' {
        9
    } else {
        10
    }
}

/// Reads `s` as a decimal number. Returns the value exactly when `s` is a
/// nonempty digit string whose value fits in a `u64`.
pub fn parse_u64(s: &str) -> (r: Option<u64>)
    ensures
        match r {
            Some(v) => s@.len() >= 1 && all_digits(s@) && dec_value(s@) == v as nat,
            None => s@.len() == 0 || !all_digits(s@) || dec_value(s@) > u64::MAX,
        },
{
    let n = s.unicode_len();
    if n == 0 {
        return None;
    }
    let mut acc: u64 = 0;
    let mut i: usize = 0;
    while i < n
        invariant
            i <= n,
            n == s@.len(),
            all_digits(s@.take(i as int)),
            acc as nat == dec_value(s@.take(i as int)),
        decreases n - i,
    {
        let c = s.get_char(i);
        let d: u64 = digit_of_char(c);
        if d >= 10 {
            proof {
                assert(!is_digit(s@[i as int]));
            }
            return None;
        }
        if acc > (u64::MAX - d) / 10 {
            proof {
                assert(s@.take(i + 1).drop_last() =~= s@.take(i as int));
                assert(s@.take(i + 1).last() == s@[i as int]);
                assert(dec_value(s@.take(i + 1)) > u64::MAX);
                lemma_dec_value_prefix_monotone(s@.take(i + 1), s@);
            }
            return None;
        }
        acc = acc * 10 + d;
        i = i + 1;
        proof {
            assert(s@.take(i as int).drop_last() =~= s@.take(i - 1));
            assert(s@.take(i as int).last() == s@[i - 1]);
        }
    }
    proof {
        assert(s@.take(n as int) =~= s@);
    }
    Some(acc)
}

/// A prefix of a string never denotes more than the whole string.
proof fn lemma_dec_value_prefix_monotone(p: Seq<char>, s: Seq<char>)
    requires
        p.len() <= s.len(),
        p =~= s.take(p.len() as int),
    ensures
        dec_value(p) <= dec_value(s),
    decreases s.len() - p.len(),
{
    if p.len() < s.len() {
        let q = s.take(p.len() as int + 1);
        assert(q.drop_last() =~= p);
        assert(dec_value(q) == dec_value(p) * 10 + digit_val(q.last()));
        assert(digit_val(q.last()) >= 0);
        lemma_dec_value_prefix_monotone(q, s);
    } else {
        assert(p =~= s);
    }
}

/// A string of zero digits denotes zero.
proof fn lemma_zeroes_value(k: int)
    requires
        k >= 0,
    ensures
        dec_value(pad_zeroes(k)) == 0,
    decreases k,
{
    if k > 0 {
        assert(pad_zeroes(k).drop_last() =~= pad_zeroes(k - 1));
        assert(pad_zeroes(k).last() == '0');
        lemma_zeroes_value(k - 1);
    }
}

pub open spec fn pow10(n: nat) -> nat
    decreases n,
{
    if n == 0 {
        1
    } else {
        10 * pow10((n - 1) as nat)
    }
}

/// Appending a zero digit multiplies the denoted value by 10.
proof fn lemma_append_zero(s: Seq<char>)
    ensures
        dec_value(s.push('0')) == dec_value(s) * 10,
{
    assert(s.push('0').drop_last() =~= s);
    assert(s.push('0').last() == '0');
}

pub open spec fn pad_zeroes(n: int) -> Seq<char> {
    Seq::new(if n >= 0 {
        n as nat
    } else {
        0
    }, |i: int| '0')
}

/// The first three fraction digits, right-padded with zeroes: the fraction
/// as an exact count of thousandths.
pub open spec fn frac3(frac: Seq<char>) -> Seq<char> {
    if frac.len() >= 3 {
        frac.take(3)
    } else {
        frac.add(pad_zeroes(3 - frac.len()))
    }
}

/// The position of the first `.` in `s`, if any.
pub open spec fn first_dot(s: Seq<char>) -> int {
    choose|d: int| is_first_dot(s, d)
}

pub open spec fn is_first_dot(s: Seq<char>, d: int) -> bool {
    0 <= d < s.len() && s[d] == '.' && forall|j: int| 0 <= j < d ==> s[j] != '.'
}

pub open spec fn has_dot(s: Seq<char>) -> bool {
    exists|d: int| is_first_dot(s, d)
}

/// `s` is a decimal number with an optional single point: digits, or
/// digits `.` digits.
pub open spec fn fixed3_shape(s: Seq<char>) -> bool {
    if has_dot(s) {
        let d = first_dot(s);
        d >= 1 && all_digits(s.take(d)) && s.skip(d + 1).len() >= 1 && all_digits(s.skip(d + 1))
    } else {
        s.len() >= 1 && all_digits(s)
    }
}

/// The count of thousandths that a well-shaped fixed-point string denotes;
/// fraction digits past the third are dropped.
pub open spec fn fixed3_spec_value(s: Seq<char>) -> nat {
    if has_dot(s) {
        let d = first_dot(s);
        dec_value(s.take(d)) * 1000 + dec_value(frac3(s.skip(d + 1)))
    } else {
        dec_value(s) * 1000
    }
}

/// Reads `s` as a fixed-point fraction in thousandths: `"2.5"` is 2500,
/// `"100"` is 100000. Returns `None` on any other shape or on overflow.
pub fn parse_fixed3(s: &str) -> (r: Option<u64>)
    ensures
        match r {
            Some(v) => fixed3_shape(s@) && v as nat == fixed3_spec_value(s@),
            None => !fixed3_shape(s@) || fixed3_spec_value(s@) > u64::MAX,
        },
{
    let n = s.unicode_len();
    let mut dot: usize = n;
    let mut i: usize = 0;
    while i < n
        invariant
            i <= n,
            dot <= n,
            n == s@.len(),
            dot == n ==> forall|j: int| 0 <= j < i ==> s@[j] != '.',
            dot < n ==> is_first_dot(s@, dot as int),
        decreases n - i,
    {
        let c = s.get_char(i);
        if c == '.' && dot == n {
            dot = i;
        }
        i = i + 1;
    }
    if dot == n {
        proof {
            assert(forall|d: int| !is_first_dot(s@, d));
        }
        // no fraction part
        match parse_u64(s) {
            Some(v) => {
                if v <= u64::MAX / 1000 {
                    Some(v * 1000)
                } else {
                    proof {
                        assert(v as nat * 1000 > u64::MAX);
                    }
                    None
                }
            },
            None => None,
        }
    } else {
        proof {
            assert(has_dot(s@));
            lemma_first_dot_unique(s@, dot as int);
        }
        let whole = s.substring_char(0, dot);
        let frac_end = if n - dot > 4 {
            dot + 4
        } else {
            n
        };
        if frac_end == dot + 1 {
            // nothing after the point
            proof {
                assert(s@.skip(dot as int + 1).len() == 0);
            }
            return None;
        }
        // every fraction character must be a digit, also past the third
        let mut j: usize = dot + 1;
        while j < n
            invariant
                dot < j <= n,
                n == s@.len(),
                is_first_dot(s@, dot as int),
                forall|k: int| dot < k < j ==> is_digit(#[trigger] s@[k]),
            decreases n - j,
        {
            let c = s.get_char(j);
            if digit_of_char(c) >= 10 {
                proof {
                    assert(!is_digit(s@.skip(dot as int + 1)[j - dot - 1]));
                }
                return None;
            }
            j = j + 1;
        }
        proof {
            assert(all_digits(s@.skip(dot as int + 1))) by {
                assert(forall|k: int|
                    0 <= k < s@.skip(dot as int + 1).len() ==> is_digit(
                        #[trigger] s@.skip(dot as int + 1)[k],
                    )) by {
                    assert(forall|k: int|
                        0 <= k < s@.len() - dot - 1 ==> #[trigger] s@.skip(dot as int + 1)[k]
                            == s@[k + dot + 1]);
                }
            }
        }
        let frac = s.substring_char(dot + 1, frac_end);
        proof {
            assert(frac@ =~= s@.subrange(dot as int + 1, frac_end as int));
            assert(frac@ =~= if s@.skip(dot as int + 1).len() >= 3 {
                s@.skip(dot as int + 1).take(3)
            } else {
                s@.skip(dot as int + 1)
            });
        }
        let wv = match parse_u64(whole) {
            Some(v) => v,
            None => {
                proof {
                    assert(whole@ =~= s@.take(dot as int));
                    if whole@.len() >= 1 && all_digits(whole@) {
                        assert(dec_value(s@.take(dot as int)) * 1000 + dec_value(
                            frac3(s@.skip(dot as int + 1)),
                        ) > u64::MAX);
                    }
                }
                return None;
            },
        };
        let f = parse_frac3(frac);
        proof {
            assert(whole@ =~= s@.take(dot as int));
            assert(frac3(frac@) =~= frac3(s@.skip(dot as int + 1)));
            assert(fixed3_shape(s@));
            assert(fixed3_spec_value(s@) == wv as nat * 1000 + f as nat);
        }
        if wv <= (u64::MAX - f) / 1000 {
            Some(wv * 1000 + f)
        } else {
            proof {
                assert(wv as nat * 1000 + f as nat > u64::MAX);
            }
            None
        }
    }
}

/// There is at most one first dot.
proof fn lemma_first_dot_unique(s: Seq<char>, d: int)
    requires
        is_first_dot(s, d),
    ensures
        first_dot(s) == d,
{
    let c = first_dot(s);
    assert(is_first_dot(s, c));
    if c < d {
        assert(s[c] == '.');
    } else if d < c {
        assert(s[d] == '.');
    }
}

/// Reads at most three fraction digits as thousandths: `"5"` is 500, `"25"`
/// is 250, `"123"` is 123.
fn parse_frac3(s: &str) -> (v: u64)
    requires
        1 <= s@.len() <= 3,
        all_digits(s@),
    ensures
        v as nat == dec_value(frac3(s@)),
        v <= 999,
{
    let r = match parse_u64(s) {
        Some(v) => v,
        None => {
            proof {
                lemma_dec_value_small(s@);
            }
            0
        },
    };
    proof {
        lemma_dec_value_small(s@);
    }
    let n = s.unicode_len();
    if n == 1 {
        proof {
            lemma_append_zero(s@);
            lemma_append_zero(s@.push('0'));
            assert(frac3(s@) =~= s@.push('0').push('0'));
            lemma_dec_value_bound(s@);
            assert(pow10(1) == 10 * pow10(0));
        }
        r * 100
    } else if n == 2 {
        proof {
            lemma_append_zero(s@);
            assert(frac3(s@) =~= s@.push('0'));
            lemma_dec_value_bound(s@);
            assert(pow10(2) == 10 * pow10(1) && pow10(1) == 10 * pow10(0));
        }
        r * 10
    } else {
        proof {
            assert(frac3(s@) =~= s@.take(3));
            assert(s@.take(3) =~= s@);
        }
        r
    }
}

/// A digit string of `n` digits denotes less than 10^n.
proof fn lemma_dec_value_bound(s: Seq<char>)
    requires
        all_digits(s),
    ensures
        dec_value(s) < pow10(s.len()),
    decreases s.len(),
{
    if s.len() > 0 {
        assert(all_digits(s.drop_last())) by {
            assert(forall|i: int|
                0 <= i < s.len() - 1 ==> #[trigger] s.drop_last()[i] == s[i]);
        }
        lemma_dec_value_bound(s.drop_last());
        assert(digit_val(s.last()) <= 9);
        assert(dec_value(s.drop_last()) <= pow10((s.len() - 1) as nat) - 1);
        assert(pow10(s.len()) == 10 * pow10((s.len() - 1) as nat));
    }
}

/// A digit string of at most three digits denotes at most 999.
proof fn lemma_dec_value_small(s: Seq<char>)
    requires
        s.len() <= 3,
        all_digits(s),
    ensures
        dec_value(s) <= 999,
{
    lemma_dec_value_bound(s);
    if s.len() == 0 {
        assert(pow10(0) == 1);
    } else if s.len() == 1 {
        assert(pow10(1) == 10 * pow10(0));
    } else if s.len() == 2 {
        assert(pow10(2) == 10 * pow10(1) && pow10(1) == 10 * pow10(0));
    } else {
        assert(pow10(3) == 10 * pow10(2) && pow10(2) == 10 * pow10(1) && pow10(1) == 10 * pow10(
            0,
        ));
    }
}

} // verus!
