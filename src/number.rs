//! Exact conversions between small integers and the bit patterns of the
//! doubles that represent them, and between such integers and their
//! decimal text. Numbers that are not small integers are handled by the
//! host's floating-point code.
use vstd::prelude::*;

verus! {

pub open spec fn pow2(k: nat) -> nat
    decreases k,
{
    if k == 0 {
        1
    } else {
        2 * pow2((k - 1) as nat)
    }
}

/// The exponent of the leading one bit of `n` (zero for zero and one).
pub open spec fn top_bit(n: nat) -> nat
    decreases n,
{
    if n < 2 {
        0
    } else {
        1 + top_bit(n / 2)
    }
}

/// The bit pattern of the double whose value is the integer `n`, for
/// `n < 2^32`: biased exponent above a 52-bit fraction.
pub open spec fn int_bits(n: nat) -> nat {
    if n == 0 {
        0
    } else {
        let e = top_bit(n);
        ((1023 + e) * pow2(52) + (n - pow2(e)) * pow2((52 - e) as nat)) as nat
    }
}

pub proof fn lemma_pow2_add(a: nat, b: nat)
    ensures
        pow2(a + b) == pow2(a) * pow2(b),
    decreases a,
{
    if a == 0 {
        assert(pow2(0) == 1);
    } else {
        lemma_pow2_add((a - 1) as nat, b);
        assert(pow2(a) == 2 * pow2((a - 1) as nat));
        assert(pow2(a + b) == 2 * pow2((a - 1 + b) as nat));
        assert(2 * (pow2((a - 1) as nat) * pow2(b)) == (2 * pow2((a - 1) as nat)) * pow2(b))
            by (nonlinear_arith);
    }
}

pub proof fn lemma_pow2_pos(a: nat)
    ensures
        pow2(a) >= 1,
    decreases a,
{
    if a > 0 {
        lemma_pow2_pos((a - 1) as nat);
    }
}

pub proof fn lemma_top_bit(n: nat)
    requires
        n >= 1,
    ensures
        pow2(top_bit(n)) <= n < 2 * pow2(top_bit(n)),
    decreases n,
{
    if n >= 2 {
        lemma_top_bit(n / 2);
    }
}

pub proof fn lemma_top_bit_bound(n: nat, k: nat)
    requires
        1 <= n < pow2(k),
    ensures
        top_bit(n) < k,
    decreases n,
{
    lemma_top_bit(n);
    if top_bit(n) >= k {
        lemma_pow2_add(k, (top_bit(n) - k) as nat);
        lemma_pow2_pos((top_bit(n) - k) as nat);
        assert(pow2(k) * pow2((top_bit(n) - k) as nat) >= pow2(k)) by (nonlinear_arith)
            requires
                pow2((top_bit(n) - k) as nat) >= 1,
        ;
    }
}

pub proof fn lemma_pow2_values()
    ensures
        pow2(31) == 0x8000_0000,
        pow2(32) == 0x1_0000_0000,
        pow2(52) == 0x10_0000_0000_0000,
{
    reveal_with_fuel(pow2, 53);
}

/// The bit pattern of the double equal to `n`.
pub fn bits_of_u32(n: u32) -> (r: u64)
    ensures
        r as nat == int_bits(n as nat),
        r < 0x8000_0000_0000_0000,
{
    if n == 0 {
        return 0;
    }
    let mut m: u32 = n;
    let mut e: u64 = 0;
    let mut p: u64 = 1;
    let mut q: u64 = 0x10_0000_0000_0000;
    proof {
        lemma_pow2_values();
        lemma_top_bit(n as nat);
        lemma_top_bit_bound(n as nat, 32);
    }
    while m >= 2
        invariant
            1 <= m <= n,
            e + top_bit(m as nat) == top_bit(n as nat),
            top_bit(n as nat) < 32,
            p == pow2(e as nat),
            q == pow2((52 - e) as nat),
            e <= top_bit(n as nat),
            m * p <= n,
        decreases m,
    {
        proof {
            assert(p * 2 <= m * p) by (nonlinear_arith)
                requires
                    m >= 2,
            ;
            assert((m / 2) * (p * 2) <= m * p) by (nonlinear_arith)
                requires
                    m >= 2,
            ;
        }
        m = m / 2;
        proof {
            assert(q == 2 * pow2((52 - e - 1) as nat));
        }
        e = e + 1;
        p = p * 2;
        q = q / 2;
    }
    proof {
        lemma_top_bit(n as nat);
        lemma_pow2_add(e as nat, (52 - e) as nat);
        lemma_pow2_pos((52 - e) as nat);
        assert((n - p) * q < p * q) by (nonlinear_arith)
            requires
                n < 2 * p,
                q >= 1,
                n >= p,
        ;
        assert((1023 + e) * 0x10_0000_0000_0000 <= 1054 * 0x10_0000_0000_0000) by (nonlinear_arith)
            requires
                e <= 31,
        ;
        lemma_pow2_pos((52 - e) as nat);
    }
    (1023 + e) * 0x10_0000_0000_0000 + (n as u64 - p) * q
}

} // verus!

verus! {

/// Splits the bit pattern of a nonzero small integer into exponent and
/// fraction, and shows that the integer can be read back from them.
pub proof fn lemma_int_bits_parts(n: nat)
    requires
        1 <= n < pow2(32),
    ensures
        top_bit(n) < 32,
        int_bits(n) >= pow2(52),
        int_bits(n) / pow2(52) == 1023 + top_bit(n),
        int_bits(n) % pow2(52) == (n - pow2(top_bit(n))) * pow2((52 - top_bit(n)) as nat),
        (int_bits(n) % pow2(52)) / pow2((52 - top_bit(n)) as nat) == n - pow2(top_bit(n)),
        n == pow2(top_bit(n)) + (int_bits(n) % pow2(52)) / pow2((52 - top_bit(n)) as nat),
{
    let e = top_bit(n);
    lemma_top_bit(n);
    lemma_top_bit_bound(n, 32);
    let p = pow2(e);
    let q = pow2((52 - e) as nat);
    lemma_pow2_add(e, (52 - e) as nat);
    lemma_pow2_pos((52 - e) as nat);
    lemma_pow2_pos(e);
    let r = (n - p) as int;
    assert(r * q < p * q) by (nonlinear_arith)
        requires
            0 <= r < p,
            q >= 1,
    ;
    assert(r * q >= 0) by (nonlinear_arith)
        requires
            r >= 0,
            q >= 1,
    ;
    assert(int_bits(n) == (1023 + e) * pow2(52) + r * q);
    vstd::arithmetic::div_mod::lemma_fundamental_div_mod_converse(
        int_bits(n) as int,
        pow2(52) as int,
        (1023 + e) as int,
        r * q,
    );
    vstd::arithmetic::div_mod::lemma_fundamental_div_mod_converse(r * q, q as int, r, 0);
    assert((1023 + e) * pow2(52) >= pow2(52)) by (nonlinear_arith)
        requires
            pow2(52) >= 1,
    ;
}

pub proof fn lemma_pow2_mono(a: nat, b: nat)
    requires
        a <= b,
    ensures
        pow2(a) <= pow2(b),
{
    lemma_pow2_add(a, (b - a) as nat);
    lemma_pow2_pos((b - a) as nat);
    lemma_pow2_pos(a);
    assert(pow2(a) * pow2((b - a) as nat) >= pow2(a)) by (nonlinear_arith)
        requires
            pow2((b - a) as nat) >= 1,
            pow2(a) >= 1,
    ;
}

/// Distinct small integers have distinct bit patterns.
pub proof fn lemma_int_bits_injective(a: nat, b: nat)
    requires
        a < pow2(32),
        b < pow2(32),
        int_bits(a) == int_bits(b),
    ensures
        a == b,
{
    lemma_pow2_values();
    assert(int_bits(0) == 0);
    if a != 0 {
        lemma_int_bits_parts(a);
    }
    if b != 0 {
        lemma_int_bits_parts(b);
    }
    if a != 0 && b != 0 {
        assert(top_bit(a) == top_bit(b));
        assert(a == pow2(top_bit(a)) + (int_bits(a) % pow2(52)) / pow2((52 - top_bit(a)) as nat));
    }
}

/// The non-negative integer below 2^32 that a number's bit pattern denotes.
pub open spec fn small_int_of_bits(b: u64) -> Option<nat> {
    if exists|n: nat| n < 0x1_0000_0000 && int_bits(n) == b {
        Some(choose|n: nat| n < 0x1_0000_0000 && int_bits(n) == b)
    } else {
        None
    }
}

/// Reads a non-negative integer below 2^32 back from the bit pattern of
/// the double that equals it; `None` for any other number.
pub fn u32_of_bits(b: u64) -> (r: Option<u32>)
    ensures
        r matches Some(n) ==> int_bits(n as nat) == b,
        forall|n: u32| int_bits(n as nat) == b ==> r == Some(n),
        r matches Some(n) ==> small_int_of_bits(b) == Some(n as nat),
        r is None ==> small_int_of_bits(b) is None,
{
    let r = decode_small_int(b);
    proof {
        lemma_pow2_values();
        if let Some(n) = r {
            let c = choose|m: nat| m < 0x1_0000_0000 && int_bits(m) == b;
            lemma_int_bits_injective(c, n as nat);
        } else {
            assert forall|m: nat| m < 0x1_0000_0000 implies int_bits(m) != b by {
                assert(int_bits((m as u32) as nat) != b);
            }
        }
    }
    r
}

fn decode_small_int(b: u64) -> (r: Option<u32>)
    ensures
        r matches Some(n) ==> int_bits(n as nat) == b,
        forall|n: u32| int_bits(n as nat) == b ==> r == Some(n),
{
    proof {
        lemma_pow2_values();
    }
    if b == 0 {
        assert forall|n: u32| int_bits(n as nat) == b implies n == 0 by {
            if n != 0 {
                lemma_int_bits_parts(n as nat);
            }
        }
        return Some(0);
    }
    let ex = b / 0x10_0000_0000_0000;
    let frac = b % 0x10_0000_0000_0000;
    if ex < 1023 || ex > 1023 + 31 {
        assert forall|n: u32| int_bits(n as nat) != b by {
            if n != 0 {
                lemma_int_bits_parts(n as nat);
            }
        }
        return None;
    }
    let e = ex - 1023;
    let mut i: u64 = 0;
    let mut p: u64 = 1;
    let mut q: u64 = 0x10_0000_0000_0000;
    while i < e
        invariant
            i <= e <= 31,
            p == pow2(i as nat),
            q == pow2((52 - i) as nat),
            p <= 0x8000_0000,
        decreases e - i,
    {
        proof {
            assert(q == 2 * pow2((52 - i - 1) as nat));
            lemma_pow2_mono((i + 1) as nat, 31);
            lemma_pow2_values();
            assert(pow2((i + 1) as nat) == 2 * pow2(i as nat));
        }
        i = i + 1;
        p = p * 2;
        q = q / 2;
    }
    proof {
        lemma_pow2_pos((52 - e) as nat);
    }
    let r = frac / q;
    if r >= p {
        assert forall|n: u32| int_bits(n as nat) != b by {
            if n != 0 && int_bits(n as nat) == b {
                lemma_int_bits_parts(n as nat);
                lemma_top_bit(n as nat);
            }
            if n == 0 {
                assert(int_bits(0) == 0);
            }
        }
        return None;
    }
    let cand = (p + r) as u32;
    if bits_of_u32(cand) == b {
        proof {
            assert forall|n: u32| int_bits(n as nat) == b implies n == cand by {
                lemma_int_bits_injective(n as nat, cand as nat);
            }
        }
        Some(cand)
    } else {
        proof {
            assert forall|n: u32| int_bits(n as nat) != b by {
                if n != 0 && int_bits(n as nat) == b {
                    lemma_int_bits_parts(n as nat);
                    assert(top_bit(n as nat) == e);
                    assert(n == cand);
                }
                if n == 0 {
                    assert(int_bits(0) == 0);
                }
            }
        }
        None
    }
}

} // verus!

verus! {

pub open spec fn digit_char(d: nat) -> char {
    if d == 0 {
        '0'
    } else if d == 1 {
        '1'
    } else if d == 2 {
        '2'
    } else if d == 3 {
        '3'
    } else if d == 4 {
        '4'
    } else if d == 5 {
        '5'
    } else if d == 6 {
        '6'
    } else if d == 7 {
        '7'
    } else if d == 8 {
        '8'
    } else {
        '9'
    }
}

pub open spec fn digit_value(c: char) -> Option<nat> {
    if 48 <= c as u32 <= 57 {
        Some((c as u32 - 48) as nat)
    } else {
        None
    }
}

/// The decimal text of `n`, without leading zeros.
pub open spec fn decimal(n: nat) -> Seq<char>
    decreases n,
{
    if n < 10 {
        seq![digit_char(n)]
    } else {
        decimal(n / 10).push(digit_char(n % 10))
    }
}

/// The value of a string of decimal digits (zero for the empty string).
pub open spec fn digits_value(s: Seq<char>) -> Option<nat>
    decreases s.len(),
{
    if s.len() == 0 {
        Some(0)
    } else {
        match (digits_value(s.drop_last()), digit_value(s.last())) {
            (Some(a), Some(d)) => Some(a * 10 + d),
            _ => None,
        }
    }
}

/// The value of canonical decimal text: nonempty, digits only, and no
/// leading zero unless the text is `0` itself.
pub open spec fn parse_decimal(s: Seq<char>) -> Option<nat> {
    if s.len() == 0 || (s.len() > 1 && s[0] == '0') {
        None
    } else {
        digits_value(s)
    }
}

pub proof fn lemma_digit_round_trip(d: nat)
    requires
        d < 10,
    ensures
        digit_value(digit_char(d)) == Some(d),
{
}

pub proof fn lemma_decimal_digits(n: nat)
    ensures
        digits_value(decimal(n)) == Some(n),
        decimal(n).len() >= 1,
        n >= 1 ==> decimal(n)[0] != '0',
        n == 0 ==> decimal(n) == seq!['0'],
    decreases n,
{
    if n >= 10 {
        lemma_decimal_digits(n / 10);
        lemma_digit_round_trip(n % 10);
        assert(decimal(n).drop_last() == decimal(n / 10));
        assert(decimal(n).last() == digit_char(n % 10));
        vstd::arithmetic::div_mod::lemma_fundamental_div_mod(n as int, 10);
        assert(digits_value(decimal(n)) == Some((n / 10) * 10 + n % 10));
    } else {
        lemma_digit_round_trip(n);
        assert(decimal(n).drop_last() == Seq::<char>::empty());
        assert(digits_value(Seq::<char>::empty()) == Some(0nat));
        assert(decimal(n).last() == digit_char(n));
    }
}

/// Decimal text of a non-negative integer below 2^31 reads back as the same
/// integer, and the double equal to it reads back from its bit pattern: a
/// small integer survives conversion to a string and back to a number.
pub proof fn lemma_number_text_round_trip(x: nat)
    requires
        x < pow2(31),
    ensures
        parse_decimal(decimal(x)) == Some(x),
        int_bits(x) < pow2(64),
        forall|n: nat| n < pow2(32) && int_bits(n) == int_bits(x) ==> n == x,
{
    lemma_decimal_digits(x);
    lemma_pow2_values();
    assert forall|n: nat| n < pow2(32) && int_bits(n) == int_bits(x) implies n == x by {
        lemma_int_bits_injective(n, x);
    }
    reveal_with_fuel(pow2, 65);
    if x != 0 {
        lemma_int_bits_parts(x);
        assert(int_bits(x) < 2048 * pow2(52)) by {
            assert(int_bits(x) / pow2(52) == 1023 + top_bit(x));
            vstd::arithmetic::div_mod::lemma_fundamental_div_mod(
                int_bits(x) as int,
                pow2(52) as int,
            );
        }
    }
}

fn digit_str(d: u32) -> (r: &'static str)
    requires
        d < 10,
    ensures
        r@ == seq![digit_char(d as nat)],
{
    proof {
        reveal_strlit("0");
        reveal_strlit("1");
        reveal_strlit("2");
        reveal_strlit("3");
        reveal_strlit("4");
        reveal_strlit("5");
        reveal_strlit("6");
        reveal_strlit("7");
        reveal_strlit("8");
        reveal_strlit("9");
    }
    if d == 0 {
        "0"
    } else if d == 1 {
        "1"
    } else if d == 2 {
        "2"
    } else if d == 3 {
        "3"
    } else if d == 4 {
        "4"
    } else if d == 5 {
        "5"
    } else if d == 6 {
        "6"
    } else if d == 7 {
        "7"
    } else if d == 8 {
        "8"
    } else {
        "9"
    }
}

/// The decimal text of `n`.
pub fn decimal_string(n: u32) -> (r: String)
    ensures
        r@ == decimal(n as nat),
{
    let mut m: u32 = n;
    let mut s = String::new();
    loop
        invariant
            decimal(n as nat) == decimal(m as nat) + s@,
        decreases m,
    {
        let d = m % 10;
        let ghost before = s@;
        s = String::from_str(digit_str(d)).concat(s.as_str());
        if m < 10 {
            assert(s@ == decimal(m as nat) + before);
            return s;
        }
        proof {
            assert(decimal(m as nat) == decimal((m / 10) as nat).push(digit_char((m % 10) as nat)));
            assert(decimal(m as nat) + before == decimal((m / 10) as nat) + s@);
        }
        m = m / 10;
    }
}

proof fn lemma_digits_prefix_le(s: Seq<char>, i: int)
    requires
        0 <= i <= s.len(),
        digits_value(s) is Some,
    ensures
        digits_value(s.subrange(0, i)) is Some,
        digits_value(s.subrange(0, i))->0 <= digits_value(s)->0,
    decreases s.len(),
{
    if i < s.len() {
        assert(s.drop_last().subrange(0, i) == s.subrange(0, i));
        lemma_digits_prefix_le(s.drop_last(), i);
    } else {
        assert(s.subrange(0, i) == s);
    }
}

/// Reads canonical decimal text whose value is below 2^32.
pub fn parse_index(s: &str) -> (r: Option<u32>)
    ensures
        r matches Some(n) ==> parse_decimal(s@) == Some(n as nat),
        parse_decimal(s@) is Some && parse_decimal(s@)->0 < 0x1_0000_0000 ==> r == Some(
            parse_decimal(s@)->0 as u32,
        ),
{
    let len = s.unicode_len();
    if len == 0 {
        return None;
    }
    if len > 1 && s.get_char(0) == '0' {
        return None;
    }
    let mut i: usize = 0;
    let mut acc: u64 = 0;
    while i < len
        invariant
            len == s@.len(),
            i <= len,
            digits_value(s@.subrange(0, i as int)) == Some(acc as nat),
            acc < 0x1_0000_0000,
        decreases len - i,
    {
        let c = s.get_char(i);
        let cv = c as u32;
        proof {
            assert(s@.subrange(0, i + 1).drop_last() == s@.subrange(0, i as int));
            assert(s@.subrange(0, i + 1).last() == c);
        }
        if cv < 48 || cv > 57 {
            proof {
                if digits_value(s@) is Some {
                    lemma_digits_prefix_le(s@, i + 1);
                }
            }
            return None;
        }
        let next = acc * 10 + (cv - 48) as u64;
        if next >= 0x1_0000_0000 {
            proof {
                if digits_value(s@) is Some {
                    lemma_digits_prefix_le(s@, i + 1);
                }
            }
            return None;
        }
        acc = next;
        i = i + 1;
    }
    assert(s@.subrange(0, len as int) == s@);
    Some(acc as u32)
}

} // verus!

verus! {

/// The bit pattern of the double equal to the signed integer `n`.
pub open spec fn signed_int_bits(n: int) -> nat {
    if n < 0 {
        int_bits((-n) as nat) + 0x8000_0000_0000_0000
    } else {
        int_bits(n as nat)
    }
}

/// The bit pattern of the double equal to `n`.
pub fn bits_of_i32(n: i32) -> (r: u64)
    ensures
        r as nat == signed_int_bits(n as int),
{
    if n < 0 {
        let m: u32 = if n == i32::MIN {
            0x8000_0000
        } else {
            (-n) as u32
        };
        bits_of_u32(m) + 0x8000_0000_0000_0000
    } else {
        bits_of_u32(n as u32)
    }
}

/// The decimal text of a number that is a non-negative integer below 2^32;
/// `None` for any other number.
pub fn index_text_of_number(bits: u64) -> (r: Option<String>)
    ensures
        r matches Some(s) ==> exists|n: nat| n < 0x1_0000_0000 && int_bits(n) == bits && s@ == decimal(n),
        forall|n: u32| int_bits(n as nat) == bits ==> (r matches Some(s) && s@ == decimal(n as nat)),
{
    match decode_small_int(bits) {
        Some(n) => Some(decimal_string(n)),
        None => None,
    }
}

/// The number denoted by canonical decimal text of a value below 2^32;
/// `None` for any other text.
pub fn number_of_index_text(s: &str) -> (r: Option<u64>)
    ensures
        r matches Some(b) ==> (parse_decimal(s@) matches Some(v) && v < 0x1_0000_0000 && b == int_bits(v)),
        parse_decimal(s@) is Some && parse_decimal(s@)->0 < 0x1_0000_0000 ==> r == Some(
            int_bits(parse_decimal(s@)->0) as u64,
        ),
{
    match parse_index(s) {
        Some(n) => Some(bits_of_u32(n)),
        None => None,
    }
}

} // verus!
