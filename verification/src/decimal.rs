//! Fixed-point decimal numbers: a signed 128-bit integer count of
//! 10^-18 units. Values are parsed from decimal strings and rendered
//! back in a canonical form.

use vstd::arithmetic::div_mod::{lemma_fundamental_div_mod, lemma_mod_bound, lemma_div_pos_is_pos};
use vstd::arithmetic::mul::{lemma_mul_inequality, lemma_mul_is_associative, lemma_mul_is_distributive_add};
use vstd::arithmetic::power::{lemma_pow_adds, lemma_pow_positive, pow};
use vstd::prelude::*;

verus! {

/// 10^e as a mathematical integer.
pub open spec fn pow10(e: nat) -> int {
    pow(10, e)
}

/// Largest unit count: i128::MAX.
pub open spec fn max_units() -> int {
    0x7fffffffffffffffffffffffffffffff
}

/// Magnitude of the smallest unit count: -i128::MIN.
pub open spec fn max_neg_magnitude() -> int {
    0x80000000000000000000000000000000
}

pub open spec fn is_digit_char(c: char) -> bool {
    48 <= c as u32 <= 57
}

pub open spec fn digit_val(c: char) -> int {
    c as u32 - 48
}

/// The character for a single decimal digit.
pub open spec fn digit_char(d: int) -> char {
    if d == 0 { '0' }
    else if d == 1 { '1' }
    else if d == 2 { '2' }
    else if d == 3 { '3' }
    else if d == 4 { '4' }
    else if d == 5 { '5' }
    else if d == 6 { '6' }
    else if d == 7 { '7' }
    else if d == 8 { '8' }
    else { '9' }
}

pub open spec fn all_digits(s: Seq<char>) -> bool {
    forall|i: int| 0 <= i < s.len() ==> is_digit_char(#[trigger] s[i])
}

/// Value of a string of decimal digits, most significant first.
pub open spec fn digits_val(s: Seq<char>) -> int
    decreases s.len(),
{
    if s.len() == 0 {
        0
    } else {
        digits_val(s.drop_last()) * 10 + digit_val(s.last())
    }
}

/// Index of the first `'.'`, or the length when there is none.
pub open spec fn dot_index(s: Seq<char>) -> int
    decreases s.len(),
{
    if s.len() == 0 {
        0
    } else if s[0] == '.' {
        0
    } else {
        1 + dot_index(s.subrange(1, s.len() as int))
    }
}

/// `sign? digits ('.' digits)?` with a non-empty integer part and a
/// fractional part of 1 to 18 digits, sign excluded here.
pub open spec fn valid_unsigned(s: Seq<char>) -> bool {
    let i = dot_index(s);
    &&& i >= 1
    &&& all_digits(s.subrange(0, i))
    &&& i < s.len() ==> {
        &&& 1 <= s.len() - i - 1 <= 18
        &&& all_digits(s.subrange(i + 1, s.len() as int))
    }
}

/// Unit count of an unsigned decimal string (meaningful when valid):
/// integer part scaled by 10^18 plus the fractional digits scaled to
/// 18 places.
pub open spec fn unsigned_units(s: Seq<char>) -> int {
    let i = dot_index(s);
    let ip = digits_val(s.subrange(0, i));
    let f = if i < s.len() {
        digits_val(s.subrange(i + 1, s.len() as int)) * pow10((18 - (s.len() - i - 1)) as nat)
    } else {
        0
    };
    ip * pow10(18) + f
}

/// What parsing a decimal string yields: the unit count, or the reason
/// for rejection.
pub open spec fn spec_parse_decimal(s: Seq<char>) -> Result<int, DecimalParseError> {
    if s.len() >= 1 && (s[0] == '-' || s[0] == '+') {
        let rest = s.subrange(1, s.len() as int);
        if !valid_unsigned(rest) {
            Err(DecimalParseError::Malformed)
        } else {
            let m = unsigned_units(rest);
            if s[0] == '-' {
                if m <= max_neg_magnitude() { Ok(-m) } else { Err(DecimalParseError::Overflow) }
            } else {
                if m <= max_units() { Ok(m) } else { Err(DecimalParseError::Overflow) }
            }
        }
    } else {
        if !valid_unsigned(s) {
            Err(DecimalParseError::Malformed)
        } else if unsigned_units(s) <= max_units() {
            Ok(unsigned_units(s))
        } else {
            Err(DecimalParseError::Overflow)
        }
    }
}

/// Fixed-width digits of `f`, `k` places, leading zeros kept.
pub open spec fn pad_digits(f: int, k: nat) -> Seq<char>
    decreases k,
{
    if k == 0 {
        Seq::empty()
    } else {
        pad_digits(f / 10, (k - 1) as nat).push(digit_char(f % 10))
    }
}

/// The 18 fractional digits of `f` with trailing zeros trimmed.
pub open spec fn frac_digits(f: int, k: nat) -> Seq<char>
    decreases k,
{
    if k == 0 {
        Seq::empty()
    } else if f % 10 == 0 {
        frac_digits(f / 10, (k - 1) as nat)
    } else {
        pad_digits(f, k)
    }
}

/// Digits of a non-negative integer, no leading zeros (except "0").
pub open spec fn spec_render_nat(n: int) -> Seq<char>
    decreases n,
{
    if n < 10 {
        seq![digit_char(n)]
    } else {
        spec_render_nat(n / 10).push(digit_char(n % 10))
    }
}

/// The canonical rendering of an unsigned unit count: integer part,
/// then a dot and the trimmed fractional digits when these are not all
/// zero.
pub open spec fn spec_canon_unsigned(u: int) -> Seq<char> {
    let ip = u / 1_000_000_000_000_000_000;
    let f = u % 1_000_000_000_000_000_000;
    if f == 0 {
        spec_render_nat(ip)
    } else {
        spec_render_nat(ip) + seq!['.'] + frac_digits(f, 18)
    }
}

/// The canonical rendering of a unit count: minus sign for negative
/// values, minimal digits, no plus sign, no trailing zeros.
pub open spec fn spec_canon(units: int) -> Seq<char> {
    if units < 0 {
        seq!['-'] + spec_canon_unsigned(-units)
    } else {
        spec_canon_unsigned(units)
    }
}

/// Scale factor: one whole unit is 10^18 fractional units.
pub const DECIMAL_SCALE: u64 = 1_000_000_000_000_000_000;

/// A fixed-point decimal: `units` counts multiples of 10^-18.
#[derive(Clone, Copy, PartialEq, Eq, Structural, Hash, Debug)]
pub struct Decimal128 {
    pub units: i128,
}

proof fn lemma_pow10_pos(e: nat)
    ensures
        pow10(e) >= 1,
{
    lemma_pow_positive(10, e);
}

proof fn lemma_pow10_18()
    ensures
        pow10(18) == 1_000_000_000_000_000_000,
{
    assert(pow(10, 18) == 1_000_000_000_000_000_000) by {
        reveal_with_fuel(pow, 19);
    }
}

proof fn lemma_digits_val_bounds(s: Seq<char>)
    requires
        all_digits(s),
    ensures
        0 <= digits_val(s) < pow10(s.len()),
    decreases s.len(),
{
    if s.len() == 0 {
        assert(pow10(0) == 1) by {
            reveal_with_fuel(pow, 1);
        }
    } else {
        lemma_digits_val_bounds(s.drop_last());
        assert(pow10(s.len()) == pow10((s.len() - 1) as nat) * 10) by {
            lemma_pow_adds(10, (s.len() - 1) as nat, 1);
            assert(pow(10, 1) == 10) by {
                reveal_with_fuel(pow, 2);
            }
        }
        assert(is_digit_char(s[s.len() - 1]));
        assert(0 <= digit_val(s.last()) <= 9);
        assert(digits_val(s.drop_last()) * 10 + 10 <= pow10((s.len() - 1) as nat) * 10) by {
            lemma_mul_inequality(digits_val(s.drop_last()) + 1, pow10((s.len() - 1) as nat), 10);
        }
    }
}

proof fn lemma_digits_val_concat(x: Seq<char>, y: Seq<char>)
    ensures
        digits_val(x + y) == digits_val(x) * pow10(y.len()) + digits_val(y),
    decreases y.len(),
{
    if y.len() == 0 {
        assert(x + y =~= x);
        assert(pow10(0) == 1) by {
            reveal_with_fuel(pow, 1);
        }
    } else {
        lemma_digits_val_concat(x, y.drop_last());
        assert((x + y).drop_last() =~= x + y.drop_last());
        assert((x + y).last() == y.last());
        let n = (y.len() - 1) as nat;
        assert(pow10(n + 1) == pow10(n) * 10) by {
            lemma_pow_adds(10, n, 1);
            assert(pow(10, 1) == 10) by {
                reveal_with_fuel(pow, 2);
            }
        }
        assert((digits_val(x) * pow10(n) + digits_val(y.drop_last())) * 10 == digits_val(x) * (
        pow10(n) * 10) + digits_val(y.drop_last()) * 10) by {
            lemma_mul_is_distributive_add(10, digits_val(x) * pow10(n), digits_val(y.drop_last()));
            lemma_mul_is_associative(digits_val(x), pow10(n), 10);
        }
    }
}

proof fn lemma_dot_index_spec(s: Seq<char>)
    ensures
        0 <= dot_index(s) <= s.len(),
        dot_index(s) < s.len() ==> s[dot_index(s)] == '.',
        forall|j: int| 0 <= j < dot_index(s) ==> s[j] != '.',
    decreases s.len(),
{
    if s.len() == 0 {
    } else if s[0] == '.' {
    } else {
        let t = s.subrange(1, s.len() as int);
        lemma_dot_index_spec(t);
        assert forall|j: int| 0 <= j < dot_index(s) implies s[j] != '.' by {
            if j >= 1 {
                assert(s[j] == t[j - 1]);
            }
        }
    }
}

proof fn lemma_pow10_step(e: nat)
    ensures
        pow10(e + 1) == pow10(e) * 10,
{
    lemma_pow_adds(10, e, 1);
    assert(pow(10, 1) == 10) by {
        reveal_with_fuel(pow, 2);
    }
}

proof fn lemma_pow10_le_18(e: nat)
    requires
        e <= 18,
    ensures
        1 <= pow10(e) <= 1_000_000_000_000_000_000,
{
    lemma_pow10_pos(e);
    vstd::arithmetic::power::lemma_pow_increases(10, e, 18);
    lemma_pow10_18();
}

/// A digit-string prefix is worth no more than the whole string.
proof fn lemma_digits_val_prefix(s: Seq<char>, i: int)
    requires
        all_digits(s),
        0 <= i <= s.len(),
    ensures
        0 <= digits_val(s.subrange(0, i)) <= digits_val(s),
{
    let x = s.subrange(0, i);
    let y = s.subrange(i, s.len() as int);
    assert(s =~= x + y);
    lemma_digits_val_concat(x, y);
    assert(all_digits(x));
    assert(all_digits(y));
    lemma_digits_val_bounds(x);
    lemma_digits_val_bounds(y);
    lemma_pow10_pos(y.len());
    assert(digits_val(x) * 1 <= digits_val(x) * pow10(y.len())) by {
        lemma_mul_inequality(1, pow10(y.len()), digits_val(x));
    }
}

/// The whole unit count dominates the value of any prefix of the
/// integer part.
proof fn lemma_units_ge_int_prefix(s: Seq<char>, i: int)
    requires
        valid_unsigned(s),
        0 <= i <= dot_index(s),
    ensures
        unsigned_units(s) >= digits_val(s.subrange(0, i)) >= 0,
{
    let di = dot_index(s);
    let ip = digits_val(s.subrange(0, di));
    lemma_dot_index_spec(s);
    assert(s.subrange(0, di).subrange(0, i) =~= s.subrange(0, i));
    lemma_digits_val_prefix(s.subrange(0, di), i);
    lemma_pow10_18();
    assert(ip * 1 <= ip * pow10(18)) by {
        lemma_mul_inequality(1, pow10(18), ip);
    }
    if di < s.len() {
        let f = digits_val(s.subrange(di + 1, s.len() as int));
        lemma_digits_val_bounds(s.subrange(di + 1, s.len() as int));
        lemma_pow10_pos((18 - (s.len() - di - 1)) as nat);
        assert(f * pow10((18 - (s.len() - di - 1)) as nat) >= 0) by {
            lemma_mul_inequality(0, f, pow10((18 - (s.len() - di - 1)) as nat));
        }
    }
}

/// Exactly 10^e for e up to 18.
fn pow10_u128(e: usize) -> (r: u128)
    requires
        e <= 18,
    ensures
        r as int == pow10(e as nat),
{
    let mut r: u128 = 1;
    let mut k: usize = 0;
    proof {
        assert(pow10(0) == 1) by {
            reveal_with_fuel(pow, 1);
        }
    }
    while k < e
        invariant
            k <= e <= 18,
            r as int == pow10(k as nat),
        decreases e - k,
    {
        proof {
            lemma_pow10_le_18(k as nat);
            lemma_pow10_step(k as nat);
            lemma_pow10_le_18((k + 1) as nat);
        }
        r = r * 10;
        k = k + 1;
    }
    r
}

/// Parses the unsigned body of a decimal string into a unit count,
/// capped at the magnitude of the smallest signed 128-bit value.
fn parse_unsigned_units(s: &str) -> (r: Result<u128, DecimalParseError>)
    ensures
        r matches Ok(m) ==> valid_unsigned(s@) && m as int == unsigned_units(s@) && unsigned_units(
            s@,
        ) <= max_neg_magnitude(),
        r == Err::<u128, DecimalParseError>(DecimalParseError::Malformed) <==> !valid_unsigned(s@),
        r == Err::<u128, DecimalParseError>(DecimalParseError::Overflow) <==> (valid_unsigned(s@)
            && unsigned_units(s@) > max_neg_magnitude()),
{
    let n = s.unicode_len();
    proof {
        lemma_dot_index_spec(s@);
    }
    // Locate the first dot, if any.
    let mut di: usize = 0;
    while di < n
        invariant
            di <= n,
            n == s@.len(),
            forall|j: int| 0 <= j < di ==> s@[j] != '.',
        ensures
            di <= n,
            n == s@.len(),
            forall|j: int| 0 <= j < di ==> s@[j] != '.',
            di < n ==> s@[di as int] == '.',
        decreases n - di,
    {
        if s.get_char(di) == '.' {
            break ;
        }
        di = di + 1;
    }
    assert(di == dot_index(s@));
    if di == 0 {
        return Err(DecimalParseError::Malformed);
    }
    let fraclen: usize = if di < n {
        n - di - 1
    } else {
        0
    };
    if di < n && (fraclen < 1 || fraclen > 18) {
        return Err(DecimalParseError::Malformed);
    }
    // Validate every digit before any overflow can be reported.
    let mut i: usize = 0;
    while i < di
        invariant
            i <= di <= n,
            n == s@.len(),
            di == dot_index(s@),
            forall|j: int| 0 <= j < i ==> is_digit_char(#[trigger] s@[j]),
        decreases di - i,
    {
        let u = s.get_char(i) as u32;
        if u < 48 || u > 57 {
            assert(s@.subrange(0, di as int)[i as int] == s@[i as int]);
            assert(!all_digits(s@.subrange(0, di as int)));
            return Err(DecimalParseError::Malformed);
        }
        i = i + 1;
    }
    assert(all_digits(s@.subrange(0, di as int)));
    if di < n {
        let mut j: usize = di + 1;
        while j < n
            invariant
                di + 1 <= j <= n,
                n == s@.len(),
                di == dot_index(s@),
                forall|k: int| di + 1 <= k < j ==> is_digit_char(#[trigger] s@[k]),
            decreases n - j,
        {
            let u = s.get_char(j) as u32;
            if u < 48 || u > 57 {
                assert(s@.subrange(di + 1, n as int)[j - di - 1] == s@[j as int]);
                assert(!all_digits(s@.subrange(di + 1, n as int)));
                return Err(DecimalParseError::Malformed);
            }
            j = j + 1;
        }
        assert(all_digits(s@.subrange(di + 1, n as int)));
    }
    assert(valid_unsigned(s@));
    // Integer part.
    let ghost ipseq = s@.subrange(0, di as int);
    let mut acc: u128 = 0;
    i = 0;
    while i < di
        invariant
            i <= di <= n,
            n == s@.len(),
            valid_unsigned(s@),
            di == dot_index(s@),
            ipseq == s@.subrange(0, di as int),
            acc as int == digits_val(s@.subrange(0, i as int)),
        decreases di - i,
    {
        let u = s.get_char(i) as u32;
        assert(is_digit_char(s@[i as int])) by {
            assert(s@[i as int] == ipseq[i as int]);
        }
        let d = (u - 48) as u128;
        proof {
            assert(s@.subrange(0, i + 1).drop_last() =~= s@.subrange(0, i as int));
            assert(s@.subrange(0, i + 1).last() == s@[i as int]);
        }
        let next = match acc.checked_mul(10) {
            Some(a) => a.checked_add(d),
            None => None,
        };
        match next {
            Some(a) => {
                acc = a;
            },
            None => {
                proof {
                    lemma_units_ge_int_prefix(s@, i + 1);
                }
                return Err(DecimalParseError::Overflow);
            },
        }
        i = i + 1;
    }
    assert(acc as int == digits_val(ipseq));
    // Fractional part, scaled to 18 places.
    let mut scaled: u128 = 0;
    if di < n {
        let ghost fseq = s@.subrange(di + 1, n as int);
        let mut facc: u128 = 0;
        let mut j: usize = di + 1;
        proof {
            assert(pow10(0) == 1) by {
                reveal_with_fuel(pow, 1);
            }
            assert(s@.subrange(di + 1, di + 1) =~= Seq::<char>::empty());
        }
        while j < n
            invariant
                di + 1 <= j <= n,
                n == s@.len(),
                valid_unsigned(s@),
                di == dot_index(s@),
                di < n,
                n - di - 1 <= 18,
                fseq == s@.subrange(di + 1, n as int),
                facc as int == digits_val(s@.subrange(di + 1, j as int)),
                (facc as int) < pow10((j - di - 1) as nat),
            decreases n - j,
        {
            let u = s.get_char(j) as u32;
            assert(is_digit_char(s@[j as int])) by {
                assert(s@[j as int] == fseq[j - di - 1]);
            }
            let d = (u - 48) as u128;
            proof {
                assert(s@.subrange(di + 1, j + 1).drop_last() =~= s@.subrange(di + 1, j as int));
                assert(s@.subrange(di + 1, j + 1).last() == s@[j as int]);
                lemma_pow10_le_18((j - di - 1) as nat);
                lemma_pow10_step((j - di - 1) as nat);
            }
            facc = facc * 10 + d;
            j = j + 1;
        }
        assert(facc as int == digits_val(fseq));
        let p = pow10_u128(18 - fraclen);
        proof {
            lemma_digits_val_bounds(fseq);
            lemma_pow10_18();
            lemma_pow10_le_18((18 - fraclen) as nat);
            lemma_pow_adds(10, fraclen as nat, (18 - fraclen) as nat);
            assert(facc as int * (p as int) < pow10(18)) by (nonlinear_arith)
                requires
                    0 <= (facc as int) < pow10(fraclen as nat),
                    p as int == pow10((18 - fraclen) as nat),
                    p as int >= 1,
                    pow10(fraclen as nat) * pow10((18 - fraclen) as nat) == pow10(18),
            ;
        }
        scaled = facc * p;
    }
    // Combine: acc * 10^18 + scaled.
    let ghost total = unsigned_units(s@);
    proof {
        lemma_pow10_18();
    }
    let hi = match acc.checked_mul(1_000_000_000_000_000_000u128) {
        Some(h) => h.checked_add(scaled),
        None => None,
    };
    match hi {
        Some(m) => {
            assert(m as int == total);
            if m > 0x80000000000000000000000000000000u128 {
                return Err(DecimalParseError::Overflow);
            }
            Ok(m)
        },
        None => {
            proof {
                lemma_overflowed_units(s@, acc as int, scaled as int);
            }
            Err(DecimalParseError::Overflow)
        },
    }
}

/// When the 128-bit combination overflows, the true unit count is
/// beyond any signed 128-bit magnitude.
proof fn lemma_overflowed_units(s: Seq<char>, ip: int, scaled: int)
    requires
        valid_unsigned(s),
        ip == digits_val(s.subrange(0, dot_index(s))),
        0 <= scaled,
        dot_index(s) < s.len() ==> scaled == digits_val(
            s.subrange(dot_index(s) + 1, s.len() as int),
        ) * pow10((18 - (s.len() - dot_index(s) - 1)) as nat),
        dot_index(s) == s.len() ==> scaled == 0,
        ip * pow10(18) + scaled > u128::MAX,
    ensures
        unsigned_units(s) > max_neg_magnitude(),
{
    lemma_dot_index_spec(s);
    assert(unsigned_units(s) == ip * pow10(18) + scaled);
    assert(u128::MAX >= max_neg_magnitude());
}

proof fn lemma_digit_char_val(d: int)
    requires
        0 <= d <= 9,
    ensures
        is_digit_char(digit_char(d)),
        digit_val(digit_char(d)) == d,
        digit_char(d) != '.',
{
}

proof fn lemma_render_nat_digits(n: int)
    requires
        n >= 0,
    ensures
        all_digits(spec_render_nat(n)),
        spec_render_nat(n).len() >= 1,
        digits_val(spec_render_nat(n)) == n,
    decreases n,
{
    if n < 10 {
        lemma_digit_char_val(n);
        assert(spec_render_nat(n).drop_last() =~= Seq::<char>::empty());
        assert(digits_val(spec_render_nat(n)) == digits_val(Seq::<char>::empty()) * 10 + digit_val(
            digit_char(n),
        ));
        assert(digits_val(spec_render_nat(n)) == n);
    } else {
        lemma_render_nat_digits(n / 10);
        lemma_fundamental_div_mod(n, 10);
        lemma_mod_bound(n, 10);
        lemma_digit_char_val(n % 10);
        let s = spec_render_nat(n);
        assert(s.drop_last() =~= spec_render_nat(n / 10));
        assert(s.last() == digit_char(n % 10));
        assert(digits_val(s) == digits_val(spec_render_nat(n / 10)) * 10 + digit_val(
            digit_char(n % 10),
        ));
        assert(digits_val(s) == (n / 10) * 10 + n % 10);
        assert(forall|i: int|
            0 <= i < s.len() ==> is_digit_char(#[trigger] s[i]) == if i < s.len() - 1 {
                is_digit_char(spec_render_nat(n / 10)[i])
            } else {
                is_digit_char(digit_char(n % 10))
            });
    }
}

proof fn lemma_pad_digits_val(f: int, k: nat)
    requires
        0 <= f < pow10(k),
    ensures
        all_digits(pad_digits(f, k)),
        pad_digits(f, k).len() == k,
        digits_val(pad_digits(f, k)) == f,
    decreases k,
{
    if k == 0 {
        assert(pow10(0) == 1) by {
            reveal_with_fuel(pow, 1);
        }
    } else {
        lemma_pow10_step((k - 1) as nat);
        lemma_pow10_pos((k - 1) as nat);
        lemma_fundamental_div_mod(f, 10);
        lemma_mod_bound(f, 10);
        assert(10 * (f / 10) < 10 * pow10((k - 1) as nat));
        lemma_pad_digits_val(f / 10, (k - 1) as nat);
        lemma_digit_char_val(f % 10);
        let s = pad_digits(f, k);
        assert(s.drop_last() =~= pad_digits(f / 10, (k - 1) as nat));
    }
}

proof fn lemma_frac_digits_val(f: int, k: nat)
    requires
        1 <= f < pow10(k),
    ensures
        all_digits(frac_digits(f, k)),
        1 <= frac_digits(f, k).len() <= k,
        digits_val(frac_digits(f, k)) * pow10((k - frac_digits(f, k).len()) as nat) == f,
    decreases k,
{
    if k == 0 {
        assert(pow10(0) == 1) by {
            reveal_with_fuel(pow, 1);
        }
        assert(false);
    } else if f % 10 == 0 {
        lemma_pow10_step((k - 1) as nat);
        lemma_pow10_pos((k - 1) as nat);
        lemma_fundamental_div_mod(f, 10);
        assert(f == 10 * (f / 10));
        assert(10 * (f / 10) < 10 * pow10((k - 1) as nat));
        lemma_frac_digits_val(f / 10, (k - 1) as nat);
        let fd = frac_digits(f, k);
        let e = ((k - 1) - fd.len()) as nat;
        lemma_pow10_step(e);
        assert(digits_val(fd) * (pow10(e) * 10) == (digits_val(fd) * pow10(e)) * 10) by {
            lemma_mul_is_associative(digits_val(fd), pow10(e), 10);
        }
    } else {
        lemma_pad_digits_val(f, k);
        assert(pow10(0) == 1) by {
            reveal_with_fuel(pow, 1);
        }
    }
}

proof fn lemma_dot_index_unique(s: Seq<char>, d: int)
    requires
        0 <= d <= s.len(),
        d < s.len() ==> s[d] == '.',
        forall|j: int| 0 <= j < d ==> s[j] != '.',
    ensures
        dot_index(s) == d,
{
    lemma_dot_index_spec(s);
    if dot_index(s) < d {
        assert(s[dot_index(s)] == '.');
    } else if d < dot_index(s) {
        assert(s[d] == '.');
    }
}

proof fn lemma_canon_unsigned_parses(u: int)
    requires
        0 <= u,
    ensures
        valid_unsigned(spec_canon_unsigned(u)),
        unsigned_units(spec_canon_unsigned(u)) == u,
        all_digits(spec_canon_unsigned(u).subrange(0, dot_index(spec_canon_unsigned(u)))),
        spec_canon_unsigned(u).len() >= 1,
        is_digit_char(spec_canon_unsigned(u)[0]),
{
    lemma_pow10_18();
    let p18 = 1_000_000_000_000_000_000;
    let ip = u / p18;
    let f = u % p18;
    lemma_fundamental_div_mod(u, p18);
    lemma_mod_bound(u, p18);
    lemma_div_pos_is_pos(u, p18);
    lemma_render_nat_digits(ip);
    let r = spec_render_nat(ip);
    if f == 0 {
        let s = spec_canon_unsigned(u);
        assert(s == r);
        lemma_dot_index_unique(s, s.len() as int);
        assert(s.subrange(0, s.len() as int) =~= s);
        assert(valid_unsigned(s));
        assert(unsigned_units(s) == digits_val(s) * pow10(18));
    } else {
        let s = spec_canon_unsigned(u);
        lemma_frac_digits_val(f, 18);
        let fd = frac_digits(f, 18);
        assert(s == r + seq!['.'] + fd);
        let di = r.len() as int;
        assert forall|j: int| 0 <= j < di implies s[j] != '.' by {
            assert(s[j] == r[j]);
            assert(is_digit_char(r[j]));
        }
        assert(s[di] == '.');
        lemma_dot_index_unique(s, di);
        assert(s.subrange(0, di) =~= r);
        assert(s.subrange(di + 1, s.len() as int) =~= fd);
        assert(valid_unsigned(s));
        assert(unsigned_units(s) == digits_val(r) * pow10(18) + digits_val(fd) * pow10(
            (18 - fd.len()) as nat,
        ));
        assert(s.len() - di - 1 == fd.len());
    }
}

/// Round trip: the canonical rendering of any representable unit count
/// parses back to exactly that unit count.
pub proof fn lemma_decimal_round_trip(units: int)
    requires
        -max_neg_magnitude() <= units <= max_units(),
    ensures
        spec_parse_decimal(spec_canon(units)) == Ok::<int, DecimalParseError>(units),
{
    if units >= 0 {
        lemma_canon_unsigned_parses(units);
        let s = spec_canon(units);
        assert(s[0] != '-' && s[0] != '+');
    } else {
        lemma_canon_unsigned_parses(-units);
        let b = spec_canon_unsigned(-units);
        let s = spec_canon(units);
        assert(s == seq!['-'] + b);
        assert(s[0] == '-');
        assert(s.subrange(1, s.len() as int) =~= b);
    }
}

/// Idempotence: a canonical string parses, and re-rendering the parsed
/// value gives the same string back.
pub proof fn lemma_canonical_idempotent(s: Seq<char>)
    requires
        exists|v: int| (-max_neg_magnitude() <= v <= max_units()) && s == spec_canon(v),
    ensures
        spec_parse_decimal(s) is Ok,
        spec_canon(spec_parse_decimal(s)->Ok_0) == s,
{
    let v = choose|v: int| (-max_neg_magnitude() <= v <= max_units()) && s == spec_canon(v);
    lemma_decimal_round_trip(v);
}

/// Why a decimal string was rejected.
#[derive(Clone, Copy, PartialEq, Eq, Structural, Debug)]
pub enum DecimalParseError {
    /// The string does not match `sign? digits ('.' digits)?`,
    /// or its fractional part is longer than 18 digits.
    Malformed,
    /// The value does not fit in the signed 128-bit unit count.
    Overflow,
}

fn append_digit(out: &mut String, d: u128)
    requires
        d < 10,
    ensures
        final(out)@ == old(out)@.push(digit_char(d as int)),
{
    let lit: &str = if d == 0 {
        proof {
            reveal_strlit("0");
        }
        "0"
    } else if d == 1 {
        proof {
            reveal_strlit("1");
        }
        "1"
    } else if d == 2 {
        proof {
            reveal_strlit("2");
        }
        "2"
    } else if d == 3 {
        proof {
            reveal_strlit("3");
        }
        "3"
    } else if d == 4 {
        proof {
            reveal_strlit("4");
        }
        "4"
    } else if d == 5 {
        proof {
            reveal_strlit("5");
        }
        "5"
    } else if d == 6 {
        proof {
            reveal_strlit("6");
        }
        "6"
    } else if d == 7 {
        proof {
            reveal_strlit("7");
        }
        "7"
    } else if d == 8 {
        proof {
            reveal_strlit("8");
        }
        "8"
    } else {
        proof {
            reveal_strlit("9");
        }
        "9"
    };
    assert(lit@ =~= seq![digit_char(d as int)]);
    out.append(lit);
    assert(final(out)@ =~= old(out)@.push(digit_char(d as int)));
}

fn append_nat(out: &mut String, n: u128)
    ensures
        final(out)@ == old(out)@ + spec_render_nat(n as int),
    decreases n,
{
    if n < 10 {
        append_digit(out, n);
        assert(final(out)@ =~= old(out)@ + spec_render_nat(n as int));
    } else {
        append_nat(out, n / 10);
        append_digit(out, n % 10);
        assert(final(out)@ =~= old(out)@ + spec_render_nat(n as int));
    }
}

fn append_pad(out: &mut String, f: u128, k: usize)
    ensures
        final(out)@ == old(out)@ + pad_digits(f as int, k as nat),
    decreases k,
{
    if k > 0 {
        append_pad(out, f / 10, k - 1);
        append_digit(out, f % 10);
        assert(final(out)@ =~= old(out)@ + pad_digits(f as int, k as nat));
    } else {
        assert(final(out)@ =~= old(out)@ + pad_digits(f as int, 0));
    }
}

impl View for Decimal128 {
    type V = int;

    open spec fn view(&self) -> int {
        self.units as int
    }
}

impl Decimal128 {
    /// The canonical zero, used as the deletion marker in book deltas.
    pub fn zero() -> (r: Decimal128)
        ensures
            r@ == 0,
    {
        Decimal128 { units: 0 }
    }

    pub fn is_zero(&self) -> (r: bool)
        ensures
            r == (self@ == 0),
    {
        self.units == 0
    }

    /// Renders the value in canonical form: minus sign only when
    /// negative, minimal digits, fraction only when non-zero.
    pub fn to_decimal_string(&self) -> (r: String)
        ensures
            r@ == spec_canon(self@),
    {
        let mut out = String::new();
        let neg = self.units < 0;
        let mag: u128 = if self.units == i128::MIN {
            0x80000000000000000000000000000000u128
        } else if neg {
            (-self.units) as u128
        } else {
            self.units as u128
        };
        if neg {
            proof {
                reveal_strlit("-");
            }
            out.append("-");
            assert(out@ =~= seq!['-']);
        }
        let ghost prefix = out@;
        let ip = mag / 1_000_000_000_000_000_000u128;
        let f = mag % 1_000_000_000_000_000_000u128;
        append_nat(&mut out, ip);
        if f != 0 {
            proof {
                reveal_strlit(".");
            }
            out.append(".");
            let mut ff = f;
            let mut k: usize = 18;
            proof {
                lemma_pow10_18();
            }
            while ff % 10 == 0
                invariant
                    1 <= k <= 18,
                    1 <= ff,
                    (ff as int) < pow10(k as nat),
                    frac_digits(f as int, 18) == frac_digits(ff as int, k as nat),
                decreases k,
            {
                proof {
                    if k == 1 {
                        lemma_pow10_step(0);
                        assert(pow10(0) == 1) by {
                            reveal_with_fuel(pow, 1);
                        }
                        assert(ff < 10);
                        assert(false);
                    }
                    lemma_pow10_step((k - 1) as nat);
                    lemma_pow10_pos((k - 1) as nat);
                    lemma_fundamental_div_mod(ff as int, 10);
                    assert(ff as int == 10 * ((ff as int) / 10));
                    assert(10 * ((ff as int) / 10) < 10 * pow10((k - 1) as nat));
                }
                ff = ff / 10;
                k = k - 1;
            }
            append_pad(&mut out, ff, k);
            assert(out@ =~= prefix + spec_render_nat(ip as int) + seq!['.'] + frac_digits(
                f as int,
                18,
            ));
        }
        assert(out@ =~= spec_canon(self@));
        out
    }

    /// Parses a decimal string: optional sign, integer part, optional
    /// fractional part of at most 18 digits.
    pub fn from_str(s: &str) -> (r: Result<Decimal128, DecimalParseError>)
        ensures
            spec_parse_decimal(s@) matches Ok(v) ==> (r matches Ok(d) && d@ == v),
            spec_parse_decimal(s@) matches Err(e) ==> r == Err::<Decimal128, DecimalParseError>(e),
    {
        let n = s.unicode_len();
        if n >= 1 {
            let c0 = s.get_char(0);
            if c0 == '-' || c0 == '+' {
                let rest = s.substring_char(1, n);
                assert(rest@ =~= s@.subrange(1, n as int));
                match parse_unsigned_units(rest) {
                    Err(e) => Err(e),
                    Ok(m) => {
                        if c0 == '-' {
                            if m == 0x80000000000000000000000000000000u128 {
                                Ok(Decimal128 { units: i128::MIN })
                            } else {
                                Ok(Decimal128 { units: -(m as i128) })
                            }
                        } else {
                            if m > i128::MAX as u128 {
                                Err(DecimalParseError::Overflow)
                            } else {
                                Ok(Decimal128 { units: m as i128 })
                            }
                        }
                    },
                }
            } else {
                match parse_unsigned_units(s) {
                    Err(e) => Err(e),
                    Ok(m) => {
                        if m > i128::MAX as u128 {
                            Err(DecimalParseError::Overflow)
                        } else {
                            Ok(Decimal128 { units: m as i128 })
                        }
                    },
                }
            }
        } else {
            assert(!valid_unsigned(s@));
            Err(DecimalParseError::Malformed)
        }
    }
}

} // verus!


verus! {

/// What parsing a plain signed integer string yields: the mathematical
/// value, unbounded; or nothing when the string is not `sign? digits`.
pub open spec fn spec_parse_int(s: Seq<char>) -> Option<int> {
    if s.len() >= 1 && (s[0] == '-' || s[0] == '+') {
        let rest = s.subrange(1, s.len() as int);
        if rest.len() >= 1 && all_digits(rest) {
            if s[0] == '-' {
                Some(-digits_val(rest))
            } else {
                Some(digits_val(rest))
            }
        } else {
            None
        }
    } else {
        if s.len() >= 1 && all_digits(s) {
            Some(digits_val(s))
        } else {
            None
        }
    }
}

/// Parses the digits of `s` from `start` on, capped at `cap`; the cap
/// stands in for the magnitude limit of the signed 128-bit range.
fn parse_digits_capped(s: &str, start: usize, cap: u128) -> (r: Option<u128>)
    requires
        start <= s@.len(),
        all_digits(s@.subrange(start as int, s@.len() as int)),
        s@.len() - start >= 1,
    ensures
        ({
            let v = digits_val(s@.subrange(start as int, s@.len() as int));
            match r {
                Some(m) => m as int == v && v <= cap,
                None => v > cap,
            }
        }),
{
    let ghost dseq = s@.subrange(start as int, s@.len() as int);
    let n = s.unicode_len();
    let mut acc: u128 = 0;
    let mut i: usize = start;
    proof {
        assert(dseq.subrange(0, 0) =~= Seq::<char>::empty());
    }
    while i < n
        invariant
            start <= i <= n,
            n == s@.len(),
            n - start >= 1,
            dseq == s@.subrange(start as int, s@.len() as int),
            all_digits(dseq),
            acc as int == digits_val(dseq.subrange(0, i - start)),
            acc <= cap,
        decreases n - i,
    {
        let u = s.get_char(i) as u32;
        assert(is_digit_char(s@[i as int])) by {
            assert(dseq[i - start] == s@[i as int]);
        }
        let d = (u - 48) as u128;
        proof {
            assert(dseq.subrange(0, i - start + 1).drop_last() =~= dseq.subrange(0, i - start));
            assert(dseq.subrange(0, i - start + 1).last() == dseq[i - start]);
        }
        let next = match acc.checked_mul(10) {
            Some(a) => a.checked_add(d),
            None => None,
        };
        let next = match next {
            Some(a) => if a > cap {
                None
            } else {
                Some(a)
            },
            None => None,
        };
        match next {
            Some(a) => {
                acc = a;
            },
            None => {
                proof {
                    lemma_digits_val_prefix(dseq, i - start + 1);
                }
                return None;
            },
        }
        i = i + 1;
    }
    proof {
        assert(dseq.subrange(0, n - start) =~= dseq);
    }
    Some(acc)
}

/// Parses a signed integer string, rejecting values outside the
/// signed 128-bit range, as the standard integer parser does.
pub fn parse_i128(s: &str) -> (r: Option<i128>)
    ensures
        r is Some <==> (spec_parse_int(s@) matches Some(v) && i128::MIN <= v <= i128::MAX),
        r matches Some(x) ==> spec_parse_int(s@) == Some(x as int),
{
    let n = s.unicode_len();
    if n == 0 {
        return None;
    }
    let c0 = s.get_char(0);
    let neg = c0 == '-';
    let signed = neg || c0 == '+';
    let start: usize = if signed {
        1
    } else {
        0
    };
    if n - start < 1 {
        return None;
    }
    let ghost dseq = s@.subrange(start as int, n as int);
    // Validate the digits first.
    let mut i: usize = start;
    while i < n
        invariant
            start <= i <= n,
            n == s@.len(),
            n - start >= 1,
            dseq == s@.subrange(start as int, n as int),
            signed ==> start == 1 && (s@[0] == '-' || s@[0] == '+'),
            !signed ==> start == 0 && !(s@[0] == '-' || s@[0] == '+'),
            forall|j: int| start <= j < i ==> is_digit_char(#[trigger] s@[j]),
        decreases n - i,
    {
        let u = s.get_char(i) as u32;
        if u < 48 || u > 57 {
            assert(!is_digit_char(s@[i as int]));
            assert(dseq[i - start] == s@[i as int]);
            assert(!all_digits(dseq));
            return None;
        }
        i = i + 1;
    }
    assert(all_digits(dseq)) by {
        assert(forall|j: int| 0 <= j < dseq.len() ==> dseq[j] == s@[j + start]);
    }
    let cap: u128 = if neg {
        0x80000000000000000000000000000000u128
    } else {
        0x7fffffffffffffffffffffffffffffffu128
    };
    proof {
        if signed {
            assert(dseq =~= s@.subrange(1, n as int));
        } else {
            assert(dseq =~= s@);
        }
    }
    match parse_digits_capped(s, start, cap) {
        None => None,
        Some(m) => {
            if neg {
                if m == 0x80000000000000000000000000000000u128 {
                    Some(i128::MIN)
                } else {
                    Some(-(m as i128))
                }
            } else {
                Some(m as i128)
            }
        },
    }
}

/// Parses a signed integer string into the signed 64-bit range.
pub fn parse_i64(s: &str) -> (r: Option<i64>)
    ensures
        r is Some <==> (spec_parse_int(s@) matches Some(v) && i64::MIN <= v <= i64::MAX),
        r matches Some(x) ==> spec_parse_int(s@) == Some(x as int),
{
    match parse_i128(s) {
        None => None,
        Some(v) => {
            if v < i64::MIN as i128 || v > i64::MAX as i128 {
                None
            } else {
                Some(v as i64)
            }
        },
    }
}

} // verus!
