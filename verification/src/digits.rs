//! Decimal representation of integers: spec-level definitions, a verified
//! formatter and a verified parser for the canonical form that the remote
//! API uses for report identifiers.

use vstd::prelude::*;
use vstd::string::*;

verus! {

/// The character standing for one decimal digit value.
pub open spec fn digit_char(d: int) -> char {
    if d == 0 {
        '0'
    } else if d == 1 {
        '1'
    } else if d == 2 {
        '2'
    } else if d == 3 {
        '3'
    } else if d == 4 {
        '4'
    } else if d == 5 {
        '5'
    } else if d == 6 {
        '6'
    } else if d == 7 {
        '7'
    } else if d == 8 {
        '8'
    } else {
        '9'
    }
}

/// Whether a character is a decimal digit.
pub open spec fn is_digit_char(c: char) -> bool {
    48 <= c as int <= 57
}

/// The numeric value of a digit character.
pub open spec fn digit_val(c: char) -> int {
    c as int - 48
}

/// The decimal digit string of a natural number, most significant digit first.
pub open spec fn nat_digits(n: nat) -> Seq<char>
    decreases n,
{
    if n < 10 {
        seq![digit_char(n as int)]
    } else {
        nat_digits(n / 10) + seq![digit_char((n % 10) as int)]
    }
}

/// The canonical decimal string of an integer: a minus sign for negative
/// values, then the digits of the magnitude without leading zeros.
pub open spec fn int_digits(n: int) -> Seq<char> {
    if n < 0 {
        seq!['-'] + nat_digits((-n) as nat)
    } else {
        nat_digits(n as nat)
    }
}

/// The value of a digit string, read most significant digit first.
pub open spec fn digits_val(s: Seq<char>) -> int
    decreases s.len(),
{
    if s.len() == 0 {
        0
    } else {
        digits_val(s.drop_last()) * 10 + digit_val(s.last())
    }
}

/// Whether every character of a string is a decimal digit.
pub open spec fn all_digits(s: Seq<char>) -> bool {
    forall|i: int| 0 <= i < s.len() ==> is_digit_char(#[trigger] s[i])
}

pub proof fn lemma_digit_char_val(d: int)
    requires
        0 <= d < 10,
    ensures
        digit_char(d) as int == 48 + d,
        is_digit_char(digit_char(d)),
        digit_val(digit_char(d)) == d,
{
}

/// Two characters with the same scalar value are the same character.
proof fn lemma_char_eq_from_int(a: char, b: char)
    requires
        a as int == b as int,
    ensures
        a == b,
{
    vstd::utf8::char_u32_cast(a, a as u32);
    vstd::utf8::char_u32_cast(b, b as u32);
    assert(a as u32 == b as u32);
}

pub proof fn lemma_digit_char_of_val(c: char)
    requires
        is_digit_char(c),
    ensures
        digit_char(digit_val(c)) == c,
{
    assert(digit_char(digit_val(c)) as int == c as int) by {
        lemma_digit_char_val(digit_val(c));
    }
    lemma_char_eq_from_int(digit_char(digit_val(c)), c);
}

/// A natural number's digit string is nonempty and holds digits only.
pub proof fn lemma_nat_digits_shape(n: nat)
    ensures
        nat_digits(n).len() >= 1,
        all_digits(nat_digits(n)),
        n > 0 ==> nat_digits(n)[0] != '0',
        n == 0 ==> nat_digits(n) == seq!['0'],
    decreases n,
{
    if n < 10 {
        lemma_digit_char_val(n as int);
        if n > 0 {
            assert(nat_digits(n)[0] as int == 48 + n);
        }
    } else {
        lemma_nat_digits_shape(n / 10);
        lemma_digit_char_val((n % 10) as int);
        let s = nat_digits(n);
        let p = nat_digits(n / 10);
        assert forall|i: int| 0 <= i < s.len() implies is_digit_char(#[trigger] s[i]) by {
            if i < p.len() {
                assert(s[i] == p[i]);
            } else {
                assert(s[i] == digit_char((n % 10) as int));
            }
        }
        assert(s[0] == p[0]);
    }
}

/// Reading the digits of `n` back gives `n`.
pub proof fn lemma_nat_digits_val(n: nat)
    ensures
        digits_val(nat_digits(n)) == n,
    decreases n,
{
    if n < 10 {
        let s = nat_digits(n);
        assert(s.drop_last().len() == 0);
        assert(digits_val(s.drop_last()) == 0);
        assert(s.last() == digit_char(n as int));
        lemma_digit_char_val(n as int);
    } else {
        lemma_nat_digits_val(n / 10);
        let p = nat_digits(n / 10);
        let s = nat_digits(n);
        assert(s.drop_last() =~= p);
        assert(s.last() == digit_char((n % 10) as int));
        lemma_digit_char_val((n % 10) as int);
        assert(digits_val(s) == digits_val(p) * 10 + (n % 10));
        assert((n / 10) * 10 + n % 10 == n) by {
            vstd::arithmetic::div_mod::lemma_fundamental_div_mod(n as int, 10);
        }
    }
}

/// The value of a digit string is nonnegative.
pub proof fn lemma_digits_val_nonneg(s: Seq<char>)
    requires
        all_digits(s),
    ensures
        digits_val(s) >= 0,
    decreases s.len(),
{
    if s.len() > 0 {
        assert(all_digits(s.drop_last())) by {
            assert(forall|i: int|
                0 <= i < s.drop_last().len() ==> s.drop_last()[i] == #[trigger] s[i]);
        }
        lemma_digits_val_nonneg(s.drop_last());
        assert(is_digit_char(s.last()));
    }
}

/// A digit string without a leading zero has a positive value.
pub proof fn lemma_digits_val_pos(s: Seq<char>)
    requires
        all_digits(s),
        s.len() >= 1,
        s[0] != '0',
    ensures
        digits_val(s) >= 1,
    decreases s.len(),
{
    if s.len() == 1 {
        assert(is_digit_char(s[0]));
        assert(s[0] as int != 48) by {
            if s[0] as int == 48 {
                lemma_digit_char_val(0);
                lemma_char_eq_from_int(s[0], '0');
            }
        }
        assert(s.drop_last().len() == 0);
        assert(digits_val(s.drop_last()) == 0);
        assert(s.last() == s[0]);
    } else {
        let p = s.drop_last();
        assert(all_digits(p)) by {
            assert(forall|i: int| 0 <= i < p.len() ==> p[i] == #[trigger] s[i]);
        }
        assert(p[0] == s[0]);
        lemma_digits_val_pos(p);
        assert(is_digit_char(s.last()));
    }
}

/// A nonempty digit string with no leading zero is the digit string of its
/// own value.
pub proof fn lemma_digits_val_roundtrip(s: Seq<char>)
    requires
        all_digits(s),
        s.len() >= 1,
        s.len() > 1 ==> s[0] != '0',
    ensures
        digits_val(s) >= 0,
        nat_digits(digits_val(s) as nat) == s,
    decreases s.len(),
{
    lemma_digits_val_nonneg(s);
    if s.len() == 1 {
        let d = digit_val(s[0]);
        assert(s.drop_last().len() == 0);
        assert(digits_val(s.drop_last()) == 0);
        assert(s.last() == s[0]);
        assert(digits_val(s) == d);
        lemma_digit_char_of_val(s[0]);
        assert(nat_digits(d as nat) =~= s);
    } else {
        let p = s.drop_last();
        assert(all_digits(p)) by {
            assert(forall|i: int| 0 <= i < p.len() ==> p[i] == #[trigger] s[i]);
        }
        assert(p[0] == s[0]);
        lemma_digits_val_pos(p);
        lemma_digits_val_roundtrip(p);
        let m = digits_val(p);
        let d = digit_val(s.last());
        assert(is_digit_char(s.last()));
        let v = digits_val(s);
        assert(v == m * 10 + d);
        assert(v >= 10) by {
            assert(m >= 1);
            assert(m * 10 >= 10) by (nonlinear_arith)
                requires
                    m >= 1,
            ;
        }
        assert(v / 10 == m && v % 10 == d) by {
            vstd::arithmetic::div_mod::lemma_fundamental_div_mod_converse(v, 10, m, d);
        }
        lemma_digit_char_of_val(s.last());
        assert(nat_digits(v as nat) =~= p + seq![digit_char(d)]);
        assert(p + seq![s.last()] =~= s);
    }
}

/// Distinct integers have distinct canonical decimal strings.
pub proof fn lemma_int_digits_injective(a: int, b: int)
    requires
        int_digits(a) == int_digits(b),
    ensures
        a == b,
{
    lemma_nat_digits_shape(if a < 0 { (-a) as nat } else { a as nat });
    lemma_nat_digits_shape(if b < 0 { (-b) as nat } else { b as nat });
    if a >= 0 && b >= 0 {
        lemma_nat_digits_val(a as nat);
        lemma_nat_digits_val(b as nat);
    } else if a < 0 && b < 0 {
        let sa = nat_digits((-a) as nat);
        let sb = nat_digits((-b) as nat);
        assert(sa =~= (seq!['-'] + sa).subrange(1, (seq!['-'] + sa).len() as int));
        assert(sb =~= (seq!['-'] + sb).subrange(1, (seq!['-'] + sb).len() as int));
        assert(sa == sb);
        lemma_nat_digits_val((-a) as nat);
        lemma_nat_digits_val((-b) as nat);
    } else if a < 0 && b >= 0 {
        assert(int_digits(a)[0] == '-');
        assert(is_digit_char(int_digits(b)[0]));
        assert(false);
    } else {
        assert(int_digits(b)[0] == '-');
        assert(is_digit_char(int_digits(a)[0]));
        assert(false);
    }
}

/// Appending further digits never lowers the value of a digit string.
pub proof fn lemma_digits_val_extend_mono(s: Seq<char>, k: int)
    requires
        all_digits(s),
        0 <= k <= s.len(),
    ensures
        digits_val(s) >= digits_val(s.subrange(0, k)),
    decreases s.len() - k,
{
    if k < s.len() {
        let p = s.subrange(0, k);
        let q = s.subrange(0, k + 1);
        assert(q.drop_last() =~= p);
        assert(is_digit_char(q.last()));
        assert(all_digits(p)) by {
            assert(forall|i: int| 0 <= i < p.len() ==> p[i] == #[trigger] s[i]);
        }
        lemma_digits_val_nonneg(p);
        assert(digits_val(q) == digits_val(p) * 10 + digit_val(q.last()));
        assert(digits_val(p) * 10 >= digits_val(p)) by (nonlinear_arith)
            requires
                digits_val(p) >= 0,
        ;
        lemma_digits_val_extend_mono(s, k + 1);
    } else {
        assert(s.subrange(0, k) =~= s);
    }
}

fn digit_str(d: u8) -> (r: &'static str)
    requires
        d < 10,
    ensures
        r@ =~= seq![digit_char(d as int)],
{
    let r: &'static str = match d {
        0 => "0",
        1 => "1",
        2 => "2",
        3 => "3",
        4 => "4",
        5 => "5",
        6 => "6",
        7 => "7",
        8 => "8",
        _ => "9",
    };
    proof {
        reveal_strlit("0");
        reveal_strlit("1");
        reveal_strlit("2");
        reveal_strlit("3");
        reveal_strlit("4");
        reveal_strlit("5");
        reveal_strlit("6");
        reveal_strlit("7");
        reveal_strlit("8");
        reveal_strlit("9");
    }
    r
}

/// Formats a natural number in decimal.
pub fn u32_to_string(n: u32) -> (r: String)
    ensures
        r@ == nat_digits(n as nat),
    decreases n,
{
    if n < 10 {
        digit_str(n as u8).to_owned()
    } else {
        let mut s = u32_to_string(n / 10);
        s.append(digit_str((n % 10) as u8));
        proof {
            assert(s@ =~= nat_digits(n as nat));
        }
        s
    }
}

/// Formats a signed integer in canonical decimal form.
pub fn i32_to_string(n: i32) -> (r: String)
    ensures
        r@ == int_digits(n as int),
{
    if n >= 0 {
        u32_to_string(n as u32)
    } else {
        let mag: u32 = (-(n as i64)) as u32;
        let mut s = "-".to_owned();
        let t = u32_to_string(mag);
        s.append(t.as_str());
        proof {
            reveal_strlit("-");
            assert(s@ =~= int_digits(n as int));
        }
        s
    }
}

/// Parses the canonical decimal form of a 32-bit signed integer.
/// Returns the represented value exactly when the whole input is such a
/// canonical form, and nothing otherwise.
pub fn parse_i32(s: &str) -> (r: Option<i32>)
    ensures
        match r {
            Some(v) => s@ == int_digits(v as int),
            None => forall|v: i32| s@ != #[trigger] int_digits(v as int),
        },
{
    let len = s.unicode_len();
    if len == 0 {
        proof {
            assert forall|v: i32| s@ != #[trigger] int_digits(v as int) by {
                lemma_nat_digits_shape(if v < 0 { (-(v as int)) as nat } else { v as nat });
            }
        }
        return None;
    }
    let neg = s.get_char(0) == '-';
    let start: usize = if neg { 1 } else { 0 };
    if len == start {
        proof {
            assert forall|v: i32| s@ != #[trigger] int_digits(v as int) by {
                lemma_nat_digits_shape(if v < 0 { (-(v as int)) as nat } else { v as nat });
                if s@ == int_digits(v as int) && v >= 0 {
                    assert(is_digit_char(s@[0]));
                    assert(!is_digit_char('-'));
                }
            }
        }
        return None;
    }
    if len > start + 1 && s.get_char(start) == '0' {
        proof {
            assert forall|v: i32| s@ != #[trigger] int_digits(v as int) by {
                lemma_no_leading_zero(s@, v as int, start as int);
            }
        }
        return None;
    }
    let mut acc: u64 = 0;
    let mut i: usize = start;
    while i < len
        invariant
            start <= i <= len,
            len == s@.len(),
            start == 1 <==> s@[0] == '-',
            start == 0 || start == 1,
            acc <= 2147483648,
            acc as int == digits_val(s@.subrange(start as int, i as int)),
            all_digits(s@.subrange(start as int, i as int)),
        decreases len - i,
    {
        let c = s.get_char(i);
        let cv = c as u32;
        if cv < 48 || cv > 57 {
            proof {
                assert forall|v: i32| s@ != #[trigger] int_digits(v as int) by {
                    lemma_non_digit(s@, v as int, start as int, i as int);
                }
            }
            return None;
        }
        let d: u64 = (cv - 48) as u64;
        acc = acc * 10 + d;
        proof {
            let p = s@.subrange(start as int, i as int);
            let q = s@.subrange(start as int, i as int + 1);
            assert(q.drop_last() =~= p);
            assert(q.last() == c);
        }
        if acc > 2147483648 {
            proof {
                assert forall|v: i32| s@ != #[trigger] int_digits(v as int) by {
                    lemma_too_large(s@, v as int, start as int, i as int + 1);
                }
            }
            return None;
        }
        i = i + 1;
    }
    proof {
        assert(s@.subrange(start as int, len as int) =~= s@.skip(start as int));
    }
    if neg {
        if acc == 0 {
            proof {
                assert(s@.len() == 2 && s@[1] == '0') by {
                    let t = s@.skip(1);
                    lemma_digits_val_zero_form(t);
                    assert(s@[1] == t[0]);
                }
                assert forall|v: i32| s@ != #[trigger] int_digits(v as int) by {
                    if s@ == int_digits(v as int) {
                        lemma_nat_digits_shape(if v < 0 { (-(v as int)) as nat } else { v as nat });
                        if v < 0 {
                            assert(s@[1] == nat_digits((-(v as int)) as nat)[0]);
                        } else {
                            assert(is_digit_char(s@[0]));
                        }
                    }
                }
            }
            return None;
        }
        let v: i32 = (-(acc as i64)) as i32;
        proof {
            let t = s@.skip(1);
            lemma_digits_val_roundtrip(t);
            assert(s@ =~= seq!['-'] + t);
            assert(s@ == int_digits(v as int));
        }
        Some(v)
    } else {
        if acc > 2147483647 {
            proof {
                assert forall|v: i32| s@ != #[trigger] int_digits(v as int) by {
                    if s@ == int_digits(v as int) {
                        lemma_nat_digits_shape(if v < 0 { (-(v as int)) as nat } else { v as nat });
                        if v >= 0 {
                            lemma_nat_digits_val(v as nat);
                            assert(s@.subrange(0, len as int) =~= s@);
                        } else {
                            assert(s@[0] == '-');
                        }
                    }
                }
            }
            return None;
        }
        let v: i32 = acc as i32;
        proof {
            let t = s@.skip(0);
            assert(t =~= s@);
            lemma_digits_val_roundtrip(t);
            assert(s@ == int_digits(v as int));
        }
        Some(v)
    }
}

/// A digit string with value zero and no leading zero is exactly "0".
proof fn lemma_digits_val_zero_form(s: Seq<char>)
    requires
        all_digits(s),
        s.len() >= 1,
        s.len() > 1 ==> s[0] != '0',
        digits_val(s) == 0,
    ensures
        s =~= seq!['0'],
{
    lemma_digits_val_roundtrip(s);
    assert(nat_digits(0) == seq![digit_char(0)]);
}

proof fn lemma_no_leading_zero(s: Seq<char>, v: int, start: int)
    requires
        i32::MIN <= v <= i32::MAX,
        start == 0 || start == 1,
        start == 1 <==> s.len() > 0 && s[0] == '-',
        s.len() > start + 1,
        start < s.len() && s[start] == '0',
    ensures
        s != int_digits(v),
{
    if s == int_digits(v) {
        lemma_nat_digits_shape(if v < 0 { (-v) as nat } else { v as nat });
        if v < 0 {
            assert(s[0] == '-');
            assert(s[1] == nat_digits((-v) as nat)[0]);
            assert(nat_digits((-v) as nat)[0] != '0');
        } else {
            assert(is_digit_char(s[0])) by {
                assert(s[0] == nat_digits(v as nat)[0]);
            }
            assert(s[0] != '-') by {
                if s[0] == '-' {
                    assert(!is_digit_char('-'));
                }
            }
            assert(start == 0);
            if v == 0 {
                assert(s.len() == 1);
            } else {
                assert(s[0] != '0');
            }
        }
    }
}

proof fn lemma_non_digit(s: Seq<char>, v: int, start: int, i: int)
    requires
        i32::MIN <= v <= i32::MAX,
        start == 0 || start == 1,
        start == 1 <==> s.len() > 0 && s[0] == '-',
        start <= i < s.len(),
        !is_digit_char(s[i]),
    ensures
        s != int_digits(v),
{
    if s == int_digits(v) {
        lemma_nat_digits_shape(if v < 0 { (-v) as nat } else { v as nat });
        if v < 0 {
            assert(s[0] == '-');
            assert(s[i] == nat_digits((-v) as nat)[i - 1]);
        } else {
            assert(is_digit_char(s[0]));
            assert(s[0] != '-') by {
                if s[0] == '-' {
                    assert(!is_digit_char('-'));
                }
            }
            assert(s[i] == nat_digits(v as nat)[i]);
        }
    }
}

proof fn lemma_too_large(s: Seq<char>, v: int, start: int, k: int)
    requires
        i32::MIN <= v <= i32::MAX,
        start == 0 || start == 1,
        start == 1 <==> s.len() > 0 && s[0] == '-',
        start <= k <= s.len(),
        all_digits(s.subrange(start, k)),
        digits_val(s.subrange(start, k)) > 2147483648,
    ensures
        s != int_digits(v),
{
    if s == int_digits(v) {
        lemma_nat_digits_shape(if v < 0 { (-v) as nat } else { v as nat });
        let mag: nat = if v < 0 { (-v) as nat } else { v as nat };
        let t = s.skip(start);
        assert(t =~= nat_digits(mag)) by {
            if v < 0 {
                assert(s[0] == '-');
                assert(t =~= (seq!['-'] + nat_digits(mag)).skip(1));
            } else {
                assert(is_digit_char(s[0]));
                assert(s[0] != '-') by {
                    if s[0] == '-' {
                        assert(!is_digit_char('-'));
                    }
                }
                assert(start == 0);
            }
        }
        lemma_nat_digits_val(mag);
        assert(all_digits(t));
        assert(t.subrange(0, k - start) =~= s.subrange(start, k));
        lemma_digits_val_extend_mono(t, k - start);
        assert(digits_val(t) > 2147483648);
        assert(mag <= 2147483648);
    }
}

} // verus!
