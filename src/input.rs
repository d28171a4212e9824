use vstd::prelude::*;
use vstd::string::StringSliceAdditionalSpecFns;

verus! {

/// ASCII `y`.
pub const YES_LOWER: u8 = 121;

/// ASCII `Y`.
pub const YES_UPPER: u8 = 89;

/// ASCII `n`.
pub const NO_LOWER: u8 = 110;

/// ASCII `N`.
pub const NO_UPPER: u8 = 78;

/// The answer a trimmed reply gives to a yes/no prompt: `y` or `Y` is yes,
/// `n` or `N` is no, anything else no answer.
pub open spec fn yes_no_answer(reply: Seq<u8>) -> Option<bool> {
    if reply == seq![YES_LOWER] || reply == seq![YES_UPPER] {
        Some(true)
    } else if reply == seq![NO_LOWER] || reply == seq![NO_UPPER] {
        Some(false)
    } else {
        None
    }
}

/// Reads a trimmed reply to a yes/no prompt; `None` asks for the prompt again.
pub fn parse_yes_no(reply: &str) -> (r: Option<bool>)
    ensures
        r == yes_no_answer(reply.spec_bytes()),
{
    let b = reply.as_bytes();
    if b.len() != 1 {
        return None;
    }
    let c = b[0];
    if c == YES_LOWER || c == YES_UPPER {
        assert(b@ =~= seq![c]);
        Some(true)
    } else if c == NO_LOWER || c == NO_UPPER {
        assert(b@ =~= seq![c]);
        Some(false)
    } else {
        assert(b@ =~= seq![c]);
        None
    }
}

/// ASCII `0`.
pub const DIGIT_ZERO: u8 = 48;

/// ASCII `9`.
pub const DIGIT_NINE: u8 = 57;

/// ASCII `-`.
pub const MINUS: u8 = 45;

/// ASCII `+`.
pub const PLUS: u8 = 43;

/// One more than the largest magnitude an `i32` can hold.
const MAGNITUDE_CAP: i64 = 2147483649;

pub open spec fn is_digit(c: u8) -> bool {
    DIGIT_ZERO <= c <= DIGIT_NINE
}

/// Value of a run of decimal digits.
pub open spec fn digits_value(d: Seq<u8>) -> int
    decreases d.len(),
{
    if d.len() == 0 {
        0
    } else {
        digits_value(d.drop_last()) * 10 + (d.last() - DIGIT_ZERO)
    }
}

/// Whether the reply starts with a sign.
pub open spec fn has_sign(reply: Seq<u8>) -> bool {
    reply.len() > 0 && (reply[0] == MINUS || reply[0] == PLUS)
}

/// The reply without its sign, if any.
pub open spec fn unsigned_part(reply: Seq<u8>) -> Seq<u8> {
    if has_sign(reply) {
        reply.drop_first()
    } else {
        reply
    }
}

/// Every byte is a decimal digit.
pub open spec fn all_digits(d: Seq<u8>) -> bool {
    forall|i: int| 0 <= i < d.len() ==> is_digit(#[trigger] d[i])
}

/// The number a trimmed reply writes: an optional sign, then one or more
/// decimal digits; `None` for anything else.
pub open spec fn number_reply(reply: Seq<u8>) -> Option<int> {
    let digits = unsigned_part(reply);
    if digits.len() > 0 && all_digits(digits) {
        if has_sign(reply) && reply[0] == MINUS {
            Some(-digits_value(digits))
        } else {
            Some(digits_value(digits))
        }
    } else {
        None
    }
}

/// The reply as an `i32`, when it writes a number in that range.
pub open spec fn i32_reply(reply: Seq<u8>) -> Option<i32> {
    match number_reply(reply) {
        Some(v) => if i32::MIN <= v <= i32::MAX {
            Some(v as i32)
        } else {
            None
        },
        None => None,
    }
}

proof fn lemma_digits_nonneg(d: Seq<u8>)
    requires
        forall|i: int| 0 <= i < d.len() ==> is_digit(#[trigger] d[i]),
    ensures
        digits_value(d) >= 0,
    decreases d.len(),
{
    if d.len() > 0 {
        lemma_digits_nonneg(d.drop_last());
    }
}

/// Reads a trimmed reply to a numeric prompt; `None` asks for the prompt again.
pub fn parse_number(reply: &str) -> (r: Option<i32>)
    ensures
        r == i32_reply(reply.spec_bytes()),
{
    let b = reply.as_bytes();
    let ghost bs = b@;
    let signed = b.len() > 0 && (b[0] == MINUS || b[0] == PLUS);
    let negative = signed && b[0] == MINUS;
    let start: usize = if signed { 1 } else { 0 };
    let ghost digits = if signed { bs.drop_first() } else { bs };
    assert(digits =~= bs.subrange(start as int, bs.len() as int));
    if start >= b.len() {
        return None;
    }
    let mut acc: i64 = 0;
    let mut i: usize = start;
    while i < b.len()
        invariant
            start <= i <= b.len(),
            b@ == bs,
            bs == reply.spec_bytes(),
            signed == (bs.len() > 0 && (bs[0] == MINUS || bs[0] == PLUS)),
            negative == (signed && bs[0] == MINUS),
            start == if signed { 1usize } else { 0usize },
            digits == (if signed { bs.drop_first() } else { bs }),
            digits == bs.subrange(start as int, bs.len() as int),
            forall|j: int| start <= j < i ==> is_digit(#[trigger] bs[j]),
            0 <= acc <= MAGNITUDE_CAP,
            acc == if digits_value(bs.subrange(start as int, i as int)) < MAGNITUDE_CAP {
                digits_value(bs.subrange(start as int, i as int))
            } else {
                MAGNITUDE_CAP as int
            },
        decreases b.len() - i,
    {
        let c = b[i];
        if c < DIGIT_ZERO || c > DIGIT_NINE {
            proof {
                assert(bs[i as int] == c);
                assert(digits[i - start] == c);
                assert(!is_digit(digits[i - start]));
                assert(unsigned_part(bs) == digits);
                assert(!all_digits(unsigned_part(bs)));
            }
            return None;
        }
        let ghost prev = bs.subrange(start as int, i as int);
        let ghost next = bs.subrange(start as int, i + 1);
        proof {
            assert(next.drop_last() =~= prev);
            assert forall|j: int| 0 <= j < prev.len() implies is_digit(#[trigger] prev[j]) by {
                assert(prev[j] == bs[start + j]);
            }
            lemma_digits_nonneg(prev);
        }
        let d = (c - DIGIT_ZERO) as i64;
        let grown = acc * 10 + d;
        assert(acc * 10 <= MAGNITUDE_CAP * 10) by (nonlinear_arith)
            requires acc <= MAGNITUDE_CAP;
        proof {
            let v = digits_value(prev);
            if v >= MAGNITUDE_CAP {
                assert(v * 10 >= MAGNITUDE_CAP * 10) by (nonlinear_arith)
                    requires v >= MAGNITUDE_CAP;
            }
        }
        acc = if grown < MAGNITUDE_CAP { grown } else { MAGNITUDE_CAP };
        i = i + 1;
    }
    proof {
        assert(bs.subrange(start as int, bs.len() as int) =~= digits);
        assert forall|j: int| 0 <= j < digits.len() implies is_digit(#[trigger] digits[j]) by {
            assert(digits[j] == bs[start + j]);
        }
        assert(unsigned_part(bs) == digits);
        assert(all_digits(digits));
    }
    if negative {
        if acc <= 2147483648 {
            Some((-acc) as i32)
        } else {
            None
        }
    } else if acc <= 2147483647 {
        Some(acc as i32)
    } else {
        None
    }
}

} // verus!
