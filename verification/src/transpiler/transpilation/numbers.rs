//! Decimal rendering of integer values for the generated output.
use vstd::prelude::*;

use crate::tokenizer::chars::push_char;
use vstd::string::StringExecFns;

verus! {

/// The decimal digit character of a value below ten.
pub open spec fn spec_digit_char(d: int) -> char {
    if d == 0 {
        '0'
    } else if d == 1 {
        '1'
    } else if d == 2 {
        '2'
    } else if d == 3 {
        '3'
    } else if d == 4 {
        '4'
    } else if d == 5 {
        '5'
    } else if d == 6 {
        '6'
    } else if d == 7 {
        '7'
    } else if d == 8 {
        '8'
    } else {
        '9'
    }
}

/// The decimal text of a non-negative value.
pub open spec fn spec_nat_text(n: int) -> Seq<char>
    decreases n when n >= 0
{
    if n < 10 {
        seq![spec_digit_char(n)]
    } else {
        spec_nat_text(n / 10).push(spec_digit_char(n % 10))
    }
}

/// The decimal text of an integer: a minus sign before the magnitude when
/// it is negative.
pub open spec fn spec_int_text(n: int) -> Seq<char> {
    if n < 0 {
        seq!['-'] + spec_nat_text(-n)
    } else {
        spec_nat_text(n)
    }
}

/// The decimal digit character of a value below ten.
fn digit_char(d: u64) -> (c: char)
    requires
        d < 10,
    ensures
        c == spec_digit_char(d as int),
{
    if d == 0 {
        '0'
    } else if d == 1 {
        '1'
    } else if d == 2 {
        '2'
    } else if d == 3 {
        '3'
    } else if d == 4 {
        '4'
    } else if d == 5 {
        '5'
    } else if d == 6 {
        '6'
    } else if d == 7 {
        '7'
    } else if d == 8 {
        '8'
    } else {
        '9'
    }
}

/// The decimal text of a non-negative value.
fn u64_text(m: u64) -> (r: String)
    ensures
        r@ == spec_nat_text(m as int),
    decreases m,
{
    if m < 10 {
        let mut s = String::new();
        push_char(&mut s, digit_char(m));
        proof {
            assert(s@ =~= seq![spec_digit_char(m as int)]);
        }
        s
    } else {
        let mut s = u64_text(m / 10);
        push_char(&mut s, digit_char(m % 10));
        proof {
            assert(s@ =~= spec_nat_text(m as int / 10).push(spec_digit_char(m as int % 10)));
        }
        s
    }
}

/// The decimal text of an integer value.
pub fn int_to_string(i: i64) -> (r: String)
    ensures
        r@ == spec_int_text(i as int),
{
    if i >= 0 {
        u64_text(i as u64)
    } else {
        let m: u64 = ((-(i + 1)) as u64) + 1;
        proof {
            assert(m as int == -(i as int));
        }
        let mut s = String::new();
        push_char(&mut s, '-');
        let mag = u64_text(m);
        s.append(mag.as_str());
        proof {
            assert(s@ =~= seq!['-'] + spec_nat_text(m as int));
        }
        s
    }
}

} // verus!
