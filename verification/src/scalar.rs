//! Real-valued settings, held exactly as decimals.

use vstd::prelude::*;
use vstd::string::{StrSliceExecFns, StringExecFns};

use crate::text;

verus! {

/// A real-valued setting: a decimal, an infinity or not a number.
///
/// `Finite` stands for `digits * 10^exponent`, negated where `negative` is set.
/// Several triples stand for one number; `==` compares the numbers.
#[derive(Clone, Copy, Debug)]
pub enum Scalar {
    Finite { negative: bool, digits: u64, exponent: i16 },
    Infinite { negative: bool },
    NotANumber,
}

/// Ten to the power of `n`.
pub open spec fn pow10(n: nat) -> nat
    decreases n,
{
    if n == 0 {
        1
    } else {
        10 * pow10((n - 1) as nat)
    }
}

/// Whether `d1 * 10^e1` and `d2 * 10^e2` are the same number.
pub open spec fn same_magnitude(d1: nat, e1: int, d2: nat, e2: int) -> bool {
    if e1 >= e2 {
        d1 * pow10((e1 - e2) as nat) == d2
    } else {
        d1 == d2 * pow10((e2 - e1) as nat)
    }
}

/// The form of `digits * 10^exponent` without trailing zeros in its digits.
pub open spec fn lowest_form(digits: nat, exponent: int) -> (nat, int)
    decreases digits,
{
    if digits == 0 {
        (0, 0)
    } else if digits % 10 == 0 {
        lowest_form(digits / 10, exponent + 1)
    } else {
        (digits, exponent)
    }
}

/// `digits * 10^exponent` written out in full, without an exponent.
pub open spec fn positional_text(digits: nat, exponent: int) -> Seq<char> {
    let d = text::decimal_text(digits);
    if exponent >= 0 {
        d + text::zeros(exponent as nat)
    } else if d.len() > -exponent {
        d.take(d.len() + exponent) + seq!['.'] + d.skip(d.len() + exponent)
    } else {
        seq!['0', '.'] + text::zeros((-exponent - d.len()) as nat) + d
    }
}

/// The sign in front of a number's text.
pub open spec fn sign_text(negative: bool) -> Seq<char> {
    if negative {
        seq!['-']
    } else {
        Seq::empty()
    }
}

impl Scalar {
    /// Whether the number is zero, of either sign.
    pub open spec fn spec_is_zero(self) -> bool {
        self matches Scalar::Finite { negative, digits, exponent } && digits == 0
    }

    /// Equality of numbers: the zeros are equal, and not-a-number equals nothing.
    pub open spec fn same_number(self, other: Scalar) -> bool {
        match (self, other) {
            (
                Scalar::Finite { negative: n1, digits: d1, exponent: e1 },
                Scalar::Finite { negative: n2, digits: d2, exponent: e2 },
            ) => {
                &&& lowest_form(d1 as nat, e1 as int) == lowest_form(d2 as nat, e2 as int)
                &&& d1 == 0 || n1 == n2
            },
            (Scalar::Infinite { negative: n1 }, Scalar::Infinite { negative: n2 }) => n1 == n2,
            _ => false,
        }
    }

    /// The number as it is shown to a reader.
    pub open spec fn spec_text(self) -> Seq<char> {
        match self {
            Scalar::Finite { negative, digits, exponent } => {
                let (d, e) = lowest_form(digits as nat, exponent as int);
                sign_text(negative) + positional_text(d, e)
            },
            Scalar::Infinite { negative } => sign_text(negative) + seq!['i', 'n', 'f'],
            Scalar::NotANumber => seq!['N', 'a', 'N'],
        }
    }

    /// The decimal `digits * 10^exponent`.
    pub open spec fn spec_decimal(digits: u64, exponent: int) -> Scalar {
        Scalar::Finite { negative: false, digits, exponent: exponent as i16 }
    }

    /// The decimal `digits * 10^exponent`.
    pub fn decimal(digits: u64, exponent: i16) -> (r: Scalar)
        ensures
            r == Scalar::spec_decimal(digits, exponent as int),
    {
        Scalar::Finite { negative: false, digits, exponent }
    }

    /// Zero.
    pub fn zero() -> (r: Scalar)
        ensures
            r == Scalar::spec_decimal(0, 0),
    {
        Scalar::Finite { negative: false, digits: 0, exponent: 0 }
    }

    /// Whether the number is zero, of either sign.
    pub fn is_zero(&self) -> (r: bool)
        ensures
            r == self.spec_is_zero(),
    {
        match *self {
            Scalar::Finite { digits, .. } => digits == 0,
            _ => false,
        }
    }

    /// Writes the number out in full: `0.0001`, never `1e-4`.
    pub fn to_text(&self) -> (r: String)
        ensures
            r@ == self.spec_text(),
    {
        proof {
            reveal_strlit("-");
            reveal_strlit("inf");
            reveal_strlit("NaN");
        }
        match *self {
            Scalar::Finite { negative, digits, exponent } => {
                let (d, e) = reduce(digits, exponent);
                let mut s = String::new();
                if negative {
                    s.append("-");
                }
                let body = positional(d, e);
                s.append(body.as_str());
                assert(s@ == self.spec_text());
                s
            },
            Scalar::Infinite { negative } => {
                let mut s = String::new();
                if negative {
                    s.append("-");
                }
                s.append("inf");
                assert(s@ == self.spec_text());
                s
            },
            Scalar::NotANumber => {
                let s = String::from_str("NaN");
                assert(s@ == self.spec_text());
                s
            },
        }
    }
}

impl PartialEq for Scalar {
    fn eq(&self, other: &Scalar) -> (r: bool) {
        match (*self, *other) {
            (
                Scalar::Finite { negative: n1, digits: d1, exponent: e1 },
                Scalar::Finite { negative: n2, digits: d2, exponent: e2 },
            ) => {
                let (f1, g1) = reduce(d1, e1);
                let (f2, g2) = reduce(d2, e2);
                f1 == f2 && g1 == g2 && (d1 == 0 || n1 == n2)
            },
            (Scalar::Infinite { negative: n1 }, Scalar::Infinite { negative: n2 }) => n1 == n2,
            _ => false,
        }
    }
}

impl vstd::std_specs::cmp::PartialEqSpecImpl for Scalar {
    open spec fn obeys_eq_spec() -> bool {
        true
    }

    open spec fn eq_spec(&self, other: &Scalar) -> bool {
        self.same_number(*other)
    }
}

/// Takes the trailing zeros off the digits.
fn reduce(digits: u64, exponent: i16) -> (r: (u64, i32))
    ensures
        (r.0 as nat, r.1 as int) == lowest_form(digits as nat, exponent as int),
        i16::MIN <= r.1 <= i16::MAX + 20,
{
    if digits == 0 {
        return (0, 0);
    }
    let mut d: u64 = digits;
    let mut e: i32 = exponent as i32;
    let mut taken: u32 = 0;
    assert(digits * pow10(0) == digits) by (nonlinear_arith)
        requires
            pow10(0) == 1,
    ;
    while d % 10 == 0
        invariant
            d > 0,
            taken < 20,
            d * pow10(taken as nat) <= u64::MAX,
            e == exponent + taken,
            lowest_form(d as nat, e as int) == lowest_form(digits as nat, exponent as int),
        decreases d,
    {
        let ghost before = d;
        d = d / 10;
        proof {
            assert(before == 10 * d);
            assert(d * pow10((taken + 1) as nat) == before * pow10(taken as nat)) by (nonlinear_arith)
                requires
                    before == 10 * d,
                    pow10((taken + 1) as nat) == 10 * pow10(taken as nat),
            ;
            lemma_pow10_bound((taken + 1) as nat, d as nat);
        }
        e = e + 1;
        taken = taken + 1;
    }
    (d, e)
}

/// Writes `digits * 10^exponent` without an exponent.
fn positional(digits: u64, exponent: i32) -> (r: String)
    requires
        i16::MIN <= exponent <= i16::MAX + 20,
    ensures
        r@ == positional_text(digits as nat, exponent as int),
{
    proof {
        reveal_strlit(".");
        reveal_strlit("0.");
    }
    let d = text::decimal(digits);
    if exponent >= 0 {
        let mut s = d;
        text::append_zeros(&mut s, exponent as u32);
        return s;
    }
    let places: usize = (-exponent) as usize;
    let width: usize = d.as_str().unicode_len();
    if width > places {
        let whole = d.as_str().substring_char(0, width - places);
        let fraction = d.as_str().substring_char(width - places, width);
        let mut s = String::from_str(whole);
        s.append(".");
        s.append(fraction);
        assert(s@ == positional_text(digits as nat, exponent as int));
        s
    } else {
        let mut s = String::from_str("0.");
        text::append_zeros(&mut s, (places - width) as u32);
        s.append(d.as_str());
        assert(s@ == positional_text(digits as nat, exponent as int));
        s
    }
}

proof fn lemma_pow10_exceeds_u64(n: nat)
    requires
        n >= 20,
    ensures
        pow10(n) > u64::MAX,
    decreases n,
{
    if n == 20 {
        reveal_with_fuel(pow10, 21);
    } else {
        lemma_pow10_exceeds_u64((n - 1) as nat);
    }
}

proof fn lemma_pow10_bound(n: nat, d: nat)
    requires
        d > 0,
        d * pow10(n) <= u64::MAX,
    ensures
        n < 20,
{
    if n >= 20 {
        lemma_pow10_exceeds_u64(n);
        assert(d * pow10(n) >= pow10(n)) by (nonlinear_arith)
            requires
                d >= 1,
        ;
    }
}

proof fn lemma_pow10_adds(a: nat, b: nat)
    ensures
        pow10(a + b) == pow10(a) * pow10(b),
    decreases a,
{
    if a == 0 {
        assert(1 * pow10(b) == pow10(b));
    } else {
        lemma_pow10_adds((a - 1) as nat, b);
        assert((10 * pow10((a - 1) as nat)) * pow10(b) == 10 * (pow10((a - 1) as nat) * pow10(b)))
            by (nonlinear_arith);
    }
}

/// The lowest form of a number other than zero stands for that number.
proof fn lemma_lowest_form_value(digits: nat, exponent: int)
    requires
        digits > 0,
    ensures
        ({
            let (d, e) = lowest_form(digits, exponent);
            e >= exponent && d > 0 && d * pow10((e - exponent) as nat) == digits
        }),
    decreases digits,
{
    let (d, e) = lowest_form(digits, exponent);
    if digits % 10 == 0 {
        lemma_lowest_form_value(digits / 10, exponent + 1);
        let k = (e - exponent - 1) as nat;
        assert(pow10(k + 1) == 10 * pow10(k));
        assert(d * (10 * pow10(k)) == 10 * (d * pow10(k))) by (nonlinear_arith);
    } else {
        assert(d * 1 == d);
    }
}

/// Zeros moved from the exponent into the digits do not change the lowest form.
proof fn lemma_lowest_form_shift(digits: nat, exponent: int, k: nat)
    ensures
        lowest_form(digits * pow10(k), exponent - k) == lowest_form(digits, exponent),
    decreases k,
{
    if k == 0 {
        assert(digits * 1 == digits);
    } else {
        let inner = digits * pow10((k - 1) as nat);
        lemma_lowest_form_shift(digits, exponent, (k - 1) as nat);
        assert(digits * (10 * pow10((k - 1) as nat)) == 10 * inner) by (nonlinear_arith)
            requires
                inner == digits * pow10((k - 1) as nat),
        ;
        assert((10 * inner) % 10 == 0 && (10 * inner) / 10 == inner);
    }
}

proof fn lemma_same_lowest_form(d1: nat, e1: int, d2: nat, e2: int)
    requires
        e1 >= e2,
    ensures
        lowest_form(d1, e1) == lowest_form(d2, e2) <==> d1 * pow10((e1 - e2) as nat) == d2,
{
    let k = (e1 - e2) as nat;
    lemma_lowest_form_shift(d1, e1, k);
    if lowest_form(d1, e1) == lowest_form(d2, e2) {
        if d1 == 0 {
            assert(0 * pow10(k) == 0);
            if d2 > 0 {
                lemma_lowest_form_value(d2, e2);
            }
        } else {
            lemma_lowest_form_value(d1, e1);
            if d2 > 0 {
                lemma_lowest_form_value(d2, e2);
                let (d, e) = lowest_form(d1, e1);
                lemma_pow10_adds((e - e1) as nat, k);
                assert((e - e1) as nat + k == (e - e2) as nat);
                assert(d * (pow10((e - e1) as nat) * pow10(k)) == (d * pow10((e - e1) as nat)) * pow10(k))
                    by (nonlinear_arith);
            }
        }
    }
}

/// Two decimals are equal exactly when they stand for the same number: their
/// magnitudes agree, and so do their signs unless the number is zero.
pub proof fn equality_is_numeric(n1: bool, d1: u64, e1: i16, n2: bool, d2: u64, e2: i16)
    ensures
        (Scalar::Finite { negative: n1, digits: d1, exponent: e1 }).same_number(
            Scalar::Finite { negative: n2, digits: d2, exponent: e2 },
        ) <==> same_magnitude(d1 as nat, e1 as int, d2 as nat, e2 as int) && (d1 == 0 || n1 == n2),
        (Scalar::Finite { negative: n1, digits: d1, exponent: e1 }).same_number(
            Scalar::Finite { negative: n2, digits: d2, exponent: e2 },
        ) <==> (d1 == 0 || n1 == n2) && if e1 >= e2 {
            d1 * pow10((e1 - e2) as nat) == d2
        } else {
            d1 == d2 * pow10((e2 - e1) as nat)
        },
{
    if e1 >= e2 {
        lemma_same_lowest_form(d1 as nat, e1 as int, d2 as nat, e2 as int);
    } else {
        lemma_same_lowest_form(d2 as nat, e2 as int, d1 as nat, e1 as int);
    }
}

/// Not-a-number differs from everything, itself included; the two zeros are one number;
/// equal numbers other than zero read the same.
pub proof fn equality_at_the_edges(s: Scalar, a: Scalar, b: Scalar)
    ensures
        !Scalar::NotANumber.same_number(s) && !s.same_number(Scalar::NotANumber),
        a.spec_is_zero() && b.spec_is_zero() ==> a.same_number(b),
        s !is NotANumber ==> s.same_number(s),
        a.same_number(b) && !a.spec_is_zero() ==> a.spec_text() == b.spec_text(),
{
}

/// A power of ten is one, or ten times the power before it.
pub proof fn powers_of_ten(n: nat)
    ensures
        pow10(0) == 1,
        pow10(n + 1) == 10 * pow10(n),
{
}

/// An infinity equals the infinity of its sign and nothing else.
pub proof fn infinities_equal_by_sign(a: bool, b: bool, digits: u64, exponent: i16)
    ensures
        (Scalar::Infinite { negative: a }).same_number(Scalar::Infinite { negative: b }) <==> a == b,
        !(Scalar::Infinite { negative: a }).same_number(
            Scalar::Finite { negative: b, digits, exponent },
        ),
        !(Scalar::Finite { negative: b, digits, exponent }).same_number(
            Scalar::Infinite { negative: a },
        ),
{
}

/// Equality of numbers goes both ways and carries over.
pub proof fn equality_is_an_equivalence(a: Scalar, b: Scalar, c: Scalar)
    ensures
        a.same_number(b) <==> b.same_number(a),
        a.same_number(b) && b.same_number(c) ==> a.same_number(c),
{
    lemma_no_digits(a);
    lemma_no_digits(b);
    lemma_no_digits(c);
}

proof fn lemma_no_digits(s: Scalar)
    ensures
        s matches Scalar::Finite { negative, digits, exponent } ==> (digits == 0 <==> lowest_form(
            digits as nat,
            exponent as int,
        ).0 == 0),
{
    match s {
        Scalar::Finite { negative, digits, exponent } => {
            if digits > 0 {
                lemma_lowest_form_value(digits as nat, exponent as int);
            }
        },
        _ => {},
    }
}

/// The numbers that count as zero are those that equal zero: no digits, whatever the sign and
/// the exponent.
pub proof fn zero_is_having_no_digits(s: Scalar, negative: bool, digits: u64, exponent: i16)
    ensures
        s.spec_is_zero() <==> s.same_number(
            Scalar::Finite { negative: false, digits: 0, exponent: 0 },
        ),
        (Scalar::Finite { negative, digits, exponent }).spec_is_zero() <==> digits == 0,
        !(Scalar::Infinite { negative }).spec_is_zero(),
        !Scalar::NotANumber.spec_is_zero(),
{
    lemma_no_digits(s);
}

/// A decimal built from its digits and its exponent holds them, and is not negative.
pub proof fn decimal_holds_its_parts(digits: u64, exponent: i16)
    ensures
        Scalar::spec_decimal(digits, exponent as int) == (Scalar::Finite {
            negative: false,
            digits,
            exponent,
        }),
{
}

proof fn lemma_reads_as_concat(s: Seq<char>, t: Seq<char>)
    ensures
        text::reads_as(s + t) == text::reads_as(s) * pow10(t.len()) + text::reads_as(t),
    decreases t.len(),
{
    if t.len() == 0 {
        assert(s + t == s);
        assert(text::reads_as(s) * 1 == text::reads_as(s));
    } else {
        lemma_reads_as_concat(s, t.drop_last());
        assert((s + t).drop_last() == s + t.drop_last());
        let (r, p) = (text::reads_as(s), pow10((t.len() - 1) as nat));
        assert(r * (10 * p) == 10 * (r * p)) by (nonlinear_arith);
    }
}

proof fn lemma_reads_as_zeros(n: nat)
    ensures
        text::reads_as(text::zeros(n)) == 0,
    decreases n,
{
    if n > 0 {
        assert(text::zeros(n).drop_last() == text::zeros((n - 1) as nat));
        lemma_reads_as_zeros((n - 1) as nat);
    }
}

proof fn lemma_lowest_form_last_digit(digits: nat, exponent: int)
    requires
        digits > 0,
    ensures
        lowest_form(digits, exponent).0 % 10 != 0,
    decreases digits,
{
    if digits % 10 == 0 {
        lemma_lowest_form_last_digit(digits / 10, exponent + 1);
    }
}

/// The digits of a written number before the point and behind it.
spec fn written_parts(d: nat, e: int) -> (Seq<char>, Seq<char>) {
    let row = text::decimal_text(d);
    if e >= 0 {
        (row + text::zeros(e as nat), Seq::empty())
    } else if row.len() > -e {
        (row.take(row.len() + e), row.skip(row.len() + e))
    } else {
        (seq!['0'], text::zeros((-e - row.len()) as nat) + row)
    }
}

proof fn lemma_written_form(d: nat, e: int)
    requires
        d == 0 ==> e == 0,
        d > 0 ==> d % 10 != 0,
    ensures
        ({
            let (whole, fraction) = written_parts(d, e);
            &&& positional_text(d, e) == whole + (if fraction.len() == 0 {
                Seq::empty()
            } else {
                seq!['.'] + fraction
            })
            &&& fraction.len() == if e >= 0 {
                0
            } else {
                -e
            }
            &&& whole.len() > 0
            &&& whole.len() > 1 ==> whole[0] != '0'
            &&& fraction.len() > 0 ==> fraction.last() != '0'
            &&& forall|i: int|
                0 <= i < (whole + fraction).len() ==> '0' as int <= #[trigger] (whole + fraction)[i] as int
                    <= '9' as int
        }),
{
    let row = text::decimal_text(d);
    let (whole, fraction) = written_parts(d, e);
    text::decimal_reads_back(d);
    if e >= 0 {
        assert(positional_text(d, e) =~= whole + Seq::<char>::empty());
    } else if row.len() > -e {
        assert(fraction.last() == row.last());
        assert(whole + fraction == row);
        assert(positional_text(d, e) =~= whole + (seq!['.'] + fraction));
    } else {
        assert(fraction.last() == row.last());
        assert(positional_text(d, e) =~= whole + (seq!['.'] + fraction));
    }
}

proof fn lemma_written_value(d: nat, e: int)
    ensures
        ({
            let (whole, fraction) = written_parts(d, e);
            text::reads_as(whole + fraction) == if e >= 0 {
                (d * pow10(e as nat)) as int
            } else {
                d as int
            }
        }),
{
    let row = text::decimal_text(d);
    let (whole, fraction) = written_parts(d, e);
    text::decimal_reads_back(d);
    if e >= 0 {
        assert(whole + fraction == row + text::zeros(e as nat));
        lemma_reads_as_concat(row, text::zeros(e as nat));
        lemma_reads_as_zeros(e as nat);
    } else if row.len() > -e {
        assert(whole + fraction == row);
    } else {
        let pad = (-e - row.len() + 1) as nat;
        assert(whole + fraction == text::zeros(pad) + row);
        lemma_reads_as_concat(text::zeros(pad), row);
        lemma_reads_as_zeros(pad);
        assert(0 * pow10(row.len()) == 0);
    }
}

proof fn lemma_written_scale(digits: nat, exponent: int)
    ensures
        ({
            let (d, e) = lowest_form(digits, exponent);
            let read = if e >= 0 {
                d * pow10(e as nat)
            } else {
                d
            };
            let shift = exponent + if e >= 0 {
                0
            } else {
                -e
            };
            if shift >= 0 {
                read == digits * pow10(shift as nat)
            } else {
                read * pow10((-shift) as nat) == digits
            }
        }),
{
    let (d, e) = lowest_form(digits, exponent);
    assert(pow10(0) == 1);
    if digits == 0 {
        assert(0 * pow10(0) == 0);
        if exponent >= 0 {
            assert(0 * pow10(exponent as nat) == 0);
        } else {
            assert(0 * pow10((-exponent) as nat) == 0);
        }
    } else {
        lemma_lowest_form_value(digits, exponent);
        let k = (e - exponent) as nat;
        let p = pow10(k);
        if e >= 0 && exponent >= 0 {
            let q = pow10(exponent as nat);
            lemma_pow10_adds(k, exponent as nat);
            assert((d * p) * q == d * (p * q)) by (nonlinear_arith);
        } else if e >= 0 {
            let q = pow10(e as nat);
            let r = pow10((-exponent) as nat);
            lemma_pow10_adds(e as nat, (-exponent) as nat);
            assert((d * q) * r == d * (q * r)) by (nonlinear_arith);
        } else if k == 0 {
            assert(d * 1 == d);
            assert(digits * 1 == digits);
        }
    }
}

/// The text of a decimal is its sign, a whole part, and a fraction behind a point where there is
/// one. The digits of both read as the number, moved by the places of the fraction; the whole
/// part starts with a zero only where it is that zero, and the fraction does not end in one.
pub proof fn text_reads_as_the_number(negative: bool, digits: u64, exponent: i16)
    ensures
        exists|whole: Seq<char>, fraction: Seq<char>|
            #![trigger whole + fraction]
            {
                let shown = (Scalar::Finite { negative, digits, exponent }).spec_text();
                let read = text::reads_as(whole + fraction);
                let shift = exponent + fraction.len();
                &&& shown == (if negative {
                    seq!['-']
                } else {
                    Seq::empty()
                }) + whole + (if fraction.len() == 0 {
                    Seq::empty()
                } else {
                    seq!['.'] + fraction
                })
                &&& if shift >= 0 {
                    read == digits * pow10(shift as nat)
                } else {
                    read * pow10((-shift) as nat) == digits
                }
                &&& whole.len() > 0
                &&& whole.len() > 1 ==> whole[0] != '0'
                &&& fraction.len() > 0 ==> fraction.last() != '0'
                &&& forall|i: int|
                    0 <= i < (whole + fraction).len() ==> '0' as int <= #[trigger] (whole
                        + fraction)[i] as int <= '9' as int
            },
{
    let (d, e) = lowest_form(digits as nat, exponent as int);
    let (whole, fraction) = written_parts(d, e);
    if digits > 0 {
        lemma_lowest_form_value(digits as nat, exponent as int);
        lemma_lowest_form_last_digit(digits as nat, exponent as int);
    }
    lemma_written_form(d, e);
    lemma_written_value(d, e);
    lemma_written_scale(digits as nat, exponent as int);
    let sign = if negative {
        seq!['-']
    } else {
        Seq::empty()
    };
    let point = if fraction.len() == 0 {
        Seq::empty()
    } else {
        seq!['.'] + fraction
    };
    let shown = (Scalar::Finite { negative, digits, exponent }).spec_text();
    assert(shown == sign + (whole + point));
    assert(sign + (whole + point) =~= sign + whole + point);
    assert((whole + fraction).len() >= 0);
}

/// An infinity and not-a-number are shown by name, the infinity with its sign.
pub proof fn text_of_no_decimal(negative: bool)
    ensures
        (Scalar::Infinite { negative }).spec_text() == if negative {
            "-inf"@
        } else {
            "inf"@
        },
        Scalar::NotANumber.spec_text() == "NaN"@,
{
    reveal_strlit("-inf");
    reveal_strlit("inf");
    reveal_strlit("NaN");
    assert((Scalar::Infinite { negative }).spec_text() =~= if negative {
        "-inf"@
    } else {
        "inf"@
    });
    assert(Scalar::NotANumber.spec_text() =~= "NaN"@);
}

/// What is asked of a number, and how it is made and shown, go by the number alone.
pub proof fn numbers_are_taken_as_they_are(
    s: Scalar,
    digits: u64,
    exponent: i16,
    made: Scalar,
    nothing: Scalar,
    is_zero: bool,
    shown: String,
)
    requires
        call_ensures(Scalar::decimal, (digits, exponent), made),
        call_ensures(Scalar::zero, (), nothing),
        call_ensures(Scalar::is_zero, (&s,), is_zero),
        call_ensures(Scalar::to_text, (&s,), shown),
    ensures
        made == (Scalar::Finite { negative: false, digits, exponent }),
        nothing == (Scalar::Finite { negative: false, digits: 0, exponent: 0 }),
        is_zero <==> s.same_number(nothing),
        is_zero <==> (s matches Scalar::Finite { negative: n, digits: d, exponent: e } && d == 0),
        shown@ == s.spec_text(),
        s is NotANumber ==> shown@ == "NaN"@,
        s matches Scalar::Infinite { negative } ==> shown@ == if negative {
            "-inf"@
        } else {
            "inf"@
        },
{
    zero_is_having_no_digits(s, false, digits, exponent);
    text_of_no_decimal(true);
    text_of_no_decimal(false);
}

/// `==` on two decimals compares the numbers: the digits of the one with the larger exponent,
/// brought to the other's exponent, are the digits of the other, and the signs are one unless
/// both are zero.
pub proof fn equals_compares_numbers(
    n1: bool,
    d1: u64,
    e1: i16,
    n2: bool,
    d2: u64,
    e2: i16,
    r: bool,
)
    requires
        call_ensures(
            Scalar::eq,
            (
                &Scalar::Finite { negative: n1, digits: d1, exponent: e1 },
                &Scalar::Finite { negative: n2, digits: d2, exponent: e2 },
            ),
            r,
        ),
    ensures
        r <==> (d1 == 0 || n1 == n2) && if e1 >= e2 {
            d1 * pow10((e1 - e2) as nat) == d2
        } else {
            d1 == d2 * pow10((e2 - e1) as nat)
        },
{
    equality_is_numeric(n1, d1, e1, n2, d2, e2);
}

} // verus!
