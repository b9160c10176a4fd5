//! What holds of every number that is written or read.
use crate::number::{
    decimal, digits_value, hex_char, hex_digits, is_digit, parse_unsigned, unsigned_body,
};
use vstd::prelude::*;
use vstd::string::*;

verus! {

/// The ten digits, each at its value.
pub open spec fn ten_digits() -> Seq<char> {
    seq!['0', '1', '2', '3', '4', '5', '6', '7', '8', '9']
}

/// The sixteen digits of a hexadecimal number, each at its value.
pub open spec fn sixteen_digits() -> Seq<char> {
    ten_digits() + seq!['a', 'b', 'c', 'd', 'e', 'f']
}

/// A decimal number is written digit by digit: what stands before its last digit is the
/// number without it. It has no zeros before it.
pub proof fn law_decimals_are_written_digit_by_digit(n: nat, d: nat)
    requires
        d < 10,
    ensures
        decimal(d) == seq![ten_digits()[d as int]],
        n > 0 ==> decimal(n * 10 + d) == decimal(n).push(ten_digits()[d as int]),
        n > 0 ==> decimal(n)[0] != '0',
    decreases n,
{
    if n > 0 {
        assert((n * 10 + d) / 10 == n);
        assert((n * 10 + d) % 10 == d);
        if n >= 10 {
            law_decimals_are_written_digit_by_digit(n / 10, n % 10);
            assert(n == (n / 10) * 10 + n % 10);
            lemma_decimal_digits(n / 10);
        }
    }
}

proof fn lemma_decimal_digits(n: nat)
    ensures
        decimal(n).len() > 0,
        forall|i: int| 0 <= i < decimal(n).len() ==> is_digit(#[trigger] decimal(n)[i]),
        digits_value(decimal(n)) == n,
    decreases n,
{
    if n >= 10 {
        lemma_decimal_digits(n / 10);
        assert(decimal(n).drop_last() =~= decimal(n / 10));
        assert((decimal(n).last() as int) == ('0' as int) + n % 10);
    } else {
        assert(decimal(n).drop_last() =~= seq![]);
        assert((decimal(n).last() as int) == ('0' as int) + n);
        assert(digits_value(decimal(n).drop_last()) == 0);
    }
}

/// The text is a number: a plus sign or none, any zeros, and the number in decimal.
pub open spec fn spells(s: Seq<char>, n: nat, sign: Seq<char>, zeros: nat) -> bool {
    &&& sign == Seq::<char>::empty() || sign == seq!['+']
    &&& s == sign + Seq::new(zeros, |i: int| '0') + decimal(n)
}

proof fn lemma_zeros_before(zeros: nat, digits: Seq<char>)
    ensures
        digits_value(Seq::new(zeros, |i: int| '0') + digits) == digits_value(digits),
    decreases digits.len(), zeros,
{
    let all = Seq::new(zeros, |i: int| '0') + digits;
    if digits.len() > 0 {
        lemma_zeros_before(zeros, digits.drop_last());
        assert(all.drop_last() =~= Seq::new(zeros, |i: int| '0') + digits.drop_last());
    } else if zeros > 0 {
        lemma_zeros_before((zeros - 1) as nat, digits);
        assert(all.drop_last() =~= Seq::new((zeros - 1) as nat, |i: int| '0') + digits);
    } else {
        assert(all =~= digits);
    }
}

proof fn lemma_digits_are_a_number(body: Seq<char>) -> (zeros: nat)
    requires
        body.len() > 0,
        forall|i: int| 0 <= i < body.len() ==> is_digit(#[trigger] body[i]),
    ensures
        body == Seq::new(zeros, |i: int| '0') + decimal(digits_value(body)),
        digits_value(body) == 0 ==> forall|i: int| 0 <= i < body.len() ==> body[i] == '0',
    decreases body.len(),
{
    let front = body.drop_last();
    let d = (body.last() as int) - ('0' as int);
    assert(is_digit(body[body.len() - 1]));
    assert(((('0' as int) + d) as char) == body.last());
    if front.len() == 0 {
        assert(digits_value(front) == 0);
        assert(body =~= Seq::new(0, |i: int| '0') + decimal(d as nat));
        0
    } else {
        assert forall|i: int| 0 <= i < front.len() implies is_digit(#[trigger] front[i]) by {
            assert(front[i] == body[i]);
        }
        let zeros = lemma_digits_are_a_number(front);
        let m = digits_value(front);
        if m == 0 {
            assert forall|i: int| 0 <= i < front.len() implies front[i] == '0' by {}
            let said = Seq::new(front.len(), |i: int| '0') + decimal(d as nat);
            assert forall|i: int| 0 <= i < body.len() implies body[i] == said[i] by {
                if i < front.len() {
                    assert(body[i] == front[i]);
                }
            }
            assert(body =~= said);
            assert(d == 0 ==> body.last() == '0');
            assert forall|i: int| digits_value(body) == 0 && 0 <= i < body.len() implies body[i]
                == '0' by {
                if i < front.len() {
                    assert(body[i] == front[i]);
                }
            }
            front.len()
        } else {
            assert((m * 10 + d) / 10 == m);
            assert((m * 10 + d) % 10 == d);
            assert(body =~= front.push(body.last()));
            assert(body =~= Seq::new(zeros, |i: int| '0') + decimal(digits_value(body)));
            zeros
        }
    }
}

/// A text is read as a number exactly where it is one, within the bound: an optional
/// plus sign, any zeros, and then that number in decimal. Nothing else is a number.
pub proof fn law_numbers_are_read_as_they_are_written(s: Seq<char>, max: nat, n: nat)
    ensures
        parse_unsigned(s, max) == Some(n) <==> n <= max && exists|sign: Seq<char>, zeros: nat|
            #[trigger] spells(s, n, sign, zeros),
{
    let body = unsigned_body(s);
    if parse_unsigned(s, max) == Some(n) {
        let zeros = lemma_digits_are_a_number(body);
        let sign: Seq<char> = if s[0] == '+' {
            seq!['+']
        } else {
            seq![]
        };
        assert(s =~= sign + body);
        assert(s =~= sign + Seq::new(zeros, |i: int| '0') + decimal(n));
        assert(spells(s, n, sign, zeros));
    }
    if n <= max && exists|sign: Seq<char>, zeros: nat| #[trigger] spells(s, n, sign, zeros) {
        let (sign, zeros) = choose|sign: Seq<char>, zeros: nat| #[trigger]
            spells(s, n, sign, zeros);
        let digits = Seq::new(zeros, |i: int| '0') + decimal(n);
        lemma_decimal_digits(n);
        lemma_zeros_before(zeros, decimal(n));
        assert forall|i: int| 0 <= i < digits.len() implies is_digit(#[trigger] digits[i]) by {
            if i >= zeros {
                assert(digits[i] == decimal(n)[i - zeros]);
            }
        }
        assert(digits[0] != '+') by {
            assert(is_digit(digits[0]));
        }
        assert(body =~= digits) by {
            if sign.len() == 0 {
                assert(s =~= digits);
            } else {
                assert(s.drop_first() =~= digits);
            }
        }
    }
}

/// What is written in decimal is read again.
pub proof fn law_written_numbers_are_read_again(n: nat, max: nat)
    ensures
        n <= max ==> parse_unsigned(decimal(n), max) == Some(n),
        n > max ==> parse_unsigned(decimal(n), max) is None,
{
    lemma_decimal_digits(n);
    assert(is_digit(decimal(n)[0]));
    assert(unsigned_body(decimal(n)) == decimal(n));
}

/// The value of a text of hexadecimal digits in lower case.
pub open spec fn hex_value(s: Seq<char>) -> int
    decreases s.len(),
{
    if s.len() == 0 {
        0
    } else {
        hex_value(s.drop_last()) * 16 + sixteen_digits().index_of(s.last())
    }
}

/// A number that fits is written with exactly the given number of hexadecimal digits in
/// lower case, and can be read back from them.
pub proof fn law_hexadecimals_can_be_read_back(n: nat, width: nat)
    ensures
        hex_digits(n, width).len() == width,
        forall|i: int|
            0 <= i < width ==> sixteen_digits().contains(#[trigger] hex_digits(n, width)[i]),
        n < vstd::arithmetic::power::pow(16, width) ==> hex_value(hex_digits(n, width)) == n,
    decreases width,
{
    let s = hex_digits(n, width);
    reveal(vstd::arithmetic::power::pow);
    if width > 0 {
        let front = hex_digits(n / 16, (width - 1) as nat);
        law_hexadecimals_can_be_read_back(n / 16, (width - 1) as nat);
        assert(s.drop_last() =~= front);
        let d = (n % 16) as int;
        assert(hex_char(d) == sixteen_digits()[d]);
        assert forall|i: int| 0 <= i < width implies sixteen_digits().contains(
            #[trigger] s[i],
        ) by {
            if i < width - 1 {
                assert(s[i] == front[i]);
            } else {
                assert(s[i] == sixteen_digits()[d]);
            }
        }
        let k = sixteen_digits().index_of(s.last());
        assert(sixteen_digits().contains(s.last()));
        assert(0 <= k < 16 && sixteen_digits()[k] == sixteen_digits()[d]);
        assert(k == d);
        let rest = vstd::arithmetic::power::pow(16, (width - 1) as nat);
        assert(vstd::arithmetic::power::pow(16, width) == 16 * rest);
        if n < 16 * rest {
            assert(n / 16 < rest) by (nonlinear_arith)
                requires
                    n < 16 * rest,
            ;
        }
    }
}

} // verus!
