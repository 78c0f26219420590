//! Decimal text of natural numbers, as ASCII bytes.

use vstd::prelude::*;

verus! {

/// The ASCII digit of a number below ten.
pub open spec fn digit_char(d: nat) -> u8 {
    (48 + d) as u8
}

/// Whether a byte is an ASCII digit.
pub open spec fn is_digit(b: u8) -> bool {
    48 <= b <= 57
}

/// The decimal text of `n`, without leading zeros.
pub open spec fn decimal(n: nat) -> Seq<u8>
    decreases n,
{
    if n < 10 {
        seq![digit_char(n)]
    } else {
        decimal(n / 10).push(digit_char(n % 10))
    }
}

/// The number that a string of digits stands for, most significant first.
pub open spec fn digits_value(s: Seq<u8>) -> nat
    decreases s.len(),
{
    if s.len() == 0 {
        0
    } else {
        10 * digits_value(s.drop_last()) + (s.last() - 48) as nat
    }
}

/// Whether every byte of `s` is a digit.
pub open spec fn all_digits(s: Seq<u8>) -> bool {
    forall|i: int| 0 <= i < s.len() ==> is_digit(#[trigger] s[i])
}

/// The decimal text of a number is a non-empty string of digits that stands
/// for the number, and starts with a zero only when the number is zero.
pub proof fn lemma_decimal_value(n: nat)
    ensures
        decimal(n).len() >= 1,
        all_digits(decimal(n)),
        digits_value(decimal(n)) == n,
        decimal(n)[0] == 48 <==> n == 0,
    decreases n,
{
    if n < 10 {
        let s = decimal(n);
        assert(s.drop_last() =~= Seq::<u8>::empty());
        assert(digits_value(s.drop_last()) == 0);
    } else {
        lemma_decimal_value(n / 10);
        let s = decimal(n);
        assert(s.drop_last() =~= decimal(n / 10));
    }
}

/// Appends the decimal text of `n` to `out`.
pub fn push_decimal(out: &mut Vec<u8>, n: usize)
    ensures
        final(out)@ == old(out)@ + decimal(n as nat),
{
    let start: usize = out.len();
    let mut rest: usize = n;
    proof {
        assert(out@.subrange(start as int, out@.len() as int) =~= Seq::<u8>::empty());
        assert(decimal(n as nat) + Seq::<u8>::empty() =~= decimal(n as nat));
        assert(out@.subrange(0, start as int) =~= old(out)@);
    }
    while rest >= 10
        invariant
            start == old(out)@.len(),
            start <= out@.len(),
            out@.subrange(0, start as int) == old(out)@,
            decimal(n as nat) == decimal(rest as nat) + out@.subrange(
                start as int,
                out@.len() as int,
            ),
        decreases rest,
    {
        let ghost before = out@;
        let d: u8 = 48 + (rest % 10) as u8;
        out.insert(start, d);
        proof {
            let low = before.subrange(start as int, before.len() as int);
            assert(out@.subrange(start as int, out@.len() as int) =~= seq![d] + low);
            assert(out@.subrange(0, start as int) =~= before.subrange(0, start as int));
            assert(decimal(rest as nat) == decimal((rest / 10) as nat).push(d));
            assert(decimal((rest / 10) as nat).push(d) + low =~= decimal((rest / 10) as nat) + (
            seq![d] + low));
        }
        rest = rest / 10;
    }
    let ghost before = out@;
    let d: u8 = 48 + rest as u8;
    out.insert(start, d);
    proof {
        let low = before.subrange(start as int, before.len() as int);
        assert(decimal(rest as nat) == seq![d]);
        assert(out@ =~= before.subrange(0, start as int) + (seq![d] + low));
    }
}

/// Number of digits that stand in a row in `s` from `at` on.
pub open spec fn digits_at(s: Seq<u8>, at: int) -> nat
    decreases s.len() - at,
{
    if 0 <= at < s.len() && is_digit(s[at]) {
        1 + digits_at(s, at + 1)
    } else {
        0
    }
}

/// The number that the digits in `s` from `at` on stand for.
pub open spec fn number_at(s: Seq<u8>, at: int) -> nat {
    digits_value(s.subrange(at, at + digits_at(s, at)))
}

/// The digits from `at` on end within `s`.
pub proof fn lemma_digits_at_bound(s: Seq<u8>, at: int)
    requires
        0 <= at <= s.len(),
    ensures
        at + digits_at(s, at) <= s.len(),
        forall|k: int| at <= k < at + digits_at(s, at) ==> is_digit(#[trigger] s[k]),
        at + digits_at(s, at) < s.len() ==> !is_digit(s[at + digits_at(s, at)]),
    decreases s.len() - at,
{
    if at < s.len() && is_digit(s[at]) {
        lemma_digits_at_bound(s, at + 1);
    }
}

/// A longer string of digits stands for no smaller number than its start.
pub proof fn lemma_digits_value_grows(s: Seq<u8>, n: int)
    requires
        0 <= n <= s.len(),
        all_digits(s),
    ensures
        digits_value(s.subrange(0, n)) <= digits_value(s),
    decreases s.len() - n,
{
    if n < s.len() {
        let longer = s.subrange(0, n + 1);
        assert(longer.drop_last() =~= s.subrange(0, n));
        assert(is_digit(s[n]));
        lemma_digits_value_grows(s, n + 1);
    } else {
        assert(s.subrange(0, n) =~= s);
    }
}

/// Reads the decimal number that starts at `at`: its value and the place
/// after its last digit. `None` when no digit stands at `at` or the number
/// is more than `usize::MAX`.
pub fn parse_decimal(data: &[u8], at: usize) -> (r: Option<(usize, usize)>)
    ensures
        match r {
            Some((value, next)) => {
                &&& digits_at(data@, at as int) >= 1
                &&& value == number_at(data@, at as int)
                &&& next == at + digits_at(data@, at as int)
            },
            None => digits_at(data@, at as int) == 0 || number_at(data@, at as int) > usize::MAX,
        },
{
    if at > data.len() {
        return None;
    }
    let mut value: usize = 0;
    let mut i: usize = at;
    let ghost run = data@.subrange(at as int, at + digits_at(data@, at as int));
    proof {
        lemma_digits_at_bound(data@, at as int);
        assert(data@.len() == data.len());
        assert(data@.subrange(at as int, at as int) =~= Seq::<u8>::empty());
    }
    while i < data.len() && data[i] >= 48 && data[i] <= 57
        invariant
            at <= i <= data@.len() <= usize::MAX,
            i <= at + digits_at(data@, at as int) <= data@.len(),
            run == data@.subrange(at as int, at + digits_at(data@, at as int)),
            forall|k: int| at <= k < at + digits_at(data@, at as int) ==> is_digit(#[trigger] data@[k]),
            at + digits_at(data@, at as int) < data@.len() ==> !is_digit(
                data@[at + digits_at(data@, at as int)],
            ),
            value == digits_value(data@.subrange(at as int, i as int)),
        decreases data@.len() - i,
    {
        let digit: usize = (data[i] - 48) as usize;
        proof {
            assert(i < at + digits_at(data@, at as int));
            let longer = data@.subrange(at as int, i + 1);
            assert(longer.drop_last() =~= data@.subrange(at as int, i as int));
            assert(longer.last() == data@[i as int]);
            assert(digits_value(longer) == 10 * value + digit);
            assert(all_digits(run));
            assert(run.subrange(0, i + 1 - at) =~= longer);
            lemma_digits_value_grows(run, i + 1 - at);
        }
        let scaled = match value.checked_mul(10) {
            Some(v) => v,
            None => {
                return None;
            },
        };
        value = match scaled.checked_add(digit) {
            Some(v) => v,
            None => {
                return None;
            },
        };
        i = i + 1;
    }
    if i == at {
        None
    } else {
        Some((value, i))
    }
}

/// Digits that stand in a row and end at a byte that is none are counted
/// in full.
pub proof fn lemma_digits_run(s: Seq<u8>, at: int, len: nat)
    requires
        0 <= at,
        at + len <= s.len(),
        forall|k: int| at <= k < at + len ==> is_digit(#[trigger] s[k]),
        at + len < s.len() ==> !is_digit(s[at + len]),
    ensures
        digits_at(s, at) == len,
    decreases len,
{
    if len > 0 {
        lemma_digits_run(s, at + 1, (len - 1) as nat);
    }
}

/// The decimal text of a number, followed by a byte that is no digit, is
/// read back as the number.
pub proof fn lemma_decimal_is_read_back(s: Seq<u8>, at: int, n: nat)
    requires
        0 <= at,
        at + decimal(n).len() <= s.len(),
        s.subrange(at, at + decimal(n).len()) == decimal(n),
        at + decimal(n).len() < s.len() ==> !is_digit(s[at + decimal(n).len()]),
    ensures
        digits_at(s, at) == decimal(n).len(),
        number_at(s, at) == n,
{
    lemma_decimal_value(n);
    let text = decimal(n);
    assert forall|k: int| at <= k < at + text.len() implies is_digit(#[trigger] s[k]) by {
        assert(s[k] == s.subrange(at, at + text.len())[k - at]);
        assert(is_digit(text[k - at]));
    }
    lemma_digits_run(s, at, text.len());
}

} // verus!
