//! Parsing of the device choice the user types at startup.
//!
//! The prompt around it — printing the device list, reading a line,
//! retrying — stays outside the library; the decision of whether a line
//! names a listed device is made here.

use vstd::prelude::*;

verus! {

/// Whether a character is a decimal digit.
pub open spec fn is_digit(c: char) -> bool {
    '0' <= c && c <= '9'
}

/// Whether a text is one or more decimal digits and nothing else.
pub open spec fn all_digits(t: Seq<char>) -> bool {
    t.len() > 0 && forall|i: int| 0 <= i < t.len() ==> is_digit(#[trigger] t[i])
}

/// The number a run of decimal digits spells.
pub open spec fn digits_value(t: Seq<char>) -> int
    decreases t.len(),
{
    if t.len() == 0 {
        0
    } else {
        digits_value(t.subrange(0, t.len() - 1)) * 10 + (t.last() as int - '0' as int)
    }
}

/// A longer digit run never spells a smaller number.
proof fn lemma_digits_value_grows(t: Seq<char>)
    requires
        t.len() > 0,
        forall|i: int| 0 <= i < t.len() ==> is_digit(#[trigger] t[i]),
    ensures
        digits_value(t) >= digits_value(t.subrange(0, t.len() - 1)),
        digits_value(t) >= 0,
    decreases t.len(),
{
    let pre = t.subrange(0, t.len() - 1);
    if pre.len() > 0 {
        assert(forall|i: int| 0 <= i < pre.len() ==> is_digit(#[trigger] pre[i]));
        lemma_digits_value_grows(pre);
    }
}

/// Read a typed device choice: the number the line spells, if the line is
/// all digits and the number is below `max` — the count of listed devices.
/// Anything else, a too-large number included, is no choice.
pub fn parse_device_choice(s: &str, max: usize) -> (r: Option<usize>)
    ensures
        r is Some <==> all_digits(s@) && digits_value(s@) < max,
        r is Some ==> r.unwrap() as int == digits_value(s@),
{
    let n = s.unicode_len();
    if n == 0 {
        return None;
    }
    if max == 0 {
        proof {
            if all_digits(s@) {
                lemma_digits_value_grows(s@);
            }
        }
        return None;
    }
    let mut value: u128 = 0;
    let mut too_big = false;
    let mut i: usize = 0;
    while i < n
        invariant
            i <= n,
            n == s@.len(),
            n > 0,
            forall|j: int| 0 <= j < i ==> is_digit(#[trigger] s@[j]),
            !too_big ==> value as int == digits_value(s@.subrange(0, i as int)) && value
                < max as u128,
            too_big ==> digits_value(s@.subrange(0, i as int)) >= max,
        decreases n - i,
    {
        let c = s.get_char(i);
        let d = c as u32;
        if d < 48 || d > 57 {
            return None;
        }
        let ghost pre = s@.subrange(0, i as int);
        let ghost cur = s@.subrange(0, i + 1);
        proof {
            assert(cur.subrange(0, cur.len() - 1) =~= pre);
            assert(cur.last() == c);
        }
        if too_big {
            proof {
                lemma_digits_value_grows(cur);
            }
        } else {
            let next = value * 10 + (d - 48) as u128;
            if next < max as u128 {
                value = next;
            } else {
                too_big = true;
            }
        }
        i = i + 1;
    }
    proof {
        assert(s@.subrange(0, n as int) =~= s@);
    }
    if too_big {
        None
    } else {
        Some(value as usize)
    }
}

} // verus!
